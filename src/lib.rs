//! Small verified building blocks: Collatz stopping times, a dynamically
//! scoped context variable, the cartesian product of two sequences, a
//! framed terminal layout, and the completion cell behind an asynchronous
//! whole-file read.

pub mod collatz;
pub mod context;
pub mod product;
pub mod shared_state;
pub mod tui;
