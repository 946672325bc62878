//! Context variables: a dynamically scoped value.
//!
//! A context starts with no value. `set` gives it a new value until the
//! scope of that setting ends; `get` returns the value of the innermost
//! setting still in force. Settings nest like a stack: `set` hands back a
//! guard, and handing the guard to `restore` ends that setting's scope and
//! every setting made inside it.

use vstd::prelude::*;

verus! {

/// A dynamically scoped variable holding values of type `T`.
pub struct Context<T> {
    values: Vec<T>,
}

/// The guard of one `set`: the number of settings that were in force
/// before it.
pub struct Dropper {
    depth: usize,
}

impl Dropper {
    /// How many settings were in force before the guarded one.
    pub closed spec fn depth(&self) -> nat {
        self.depth as nat
    }
}

impl<T> View for Context<T> {
    type V = Seq<T>;

    /// The settings in force, outermost first.
    closed spec fn view(&self) -> Seq<T> {
        self.values@
    }
}

/// The current value of a context whose settings are `s`.
pub open spec fn current<T>(s: Seq<T>) -> Option<T> {
    if s.len() == 0 {
        None
    } else {
        Some(s.last())
    }
}

impl<T: Copy> Context<T> {
    /// A context with no value.
    pub fn new() -> (r: Context<T>)
        ensures
            r@ == Seq::<T>::empty(),
    {
        Context { values: Vec::new() }
    }

    /// Makes `new` the value of the context until the returned guard is
    /// handed to `restore`.
    pub fn set(&mut self, new: T) -> (guard: Dropper)
        ensures
            final(self)@ == old(self)@.push(new),
            guard.depth() == old(self)@.len(),
    {
        let depth = self.values.len();
        self.values.push(new);
        Dropper { depth }
    }

    /// The value of the innermost setting in force, if any.
    pub fn get(&self) -> (r: Option<T>)
        ensures
            r == current(self@),
    {
        let n = self.values.len();
        if n == 0 {
            None
        } else {
            Some(self.values[n - 1])
        }
    }

    /// Ends the innermost setting; a context with no value stays as it is.
    pub fn pop(&mut self)
        ensures
            final(self)@ == if old(self)@.len() == 0 {
                old(self)@
            } else {
                old(self)@.drop_last()
            },
    {
        let _ = self.values.pop();
    }

    /// Ends the scope of the setting that returned `guard`, along with every
    /// setting made after it. A guard whose setting has already ended
    /// changes nothing.
    pub fn restore(&mut self, guard: Dropper)
        ensures
            final(self)@ == if guard.depth() <= old(self)@.len() {
                old(self)@.take(guard.depth() as int)
            } else {
                old(self)@
            },
    {
        if guard.depth <= self.values.len() {
            self.values.truncate(guard.depth);
        }
    }
}

/// Setting a value and then restoring with its guard gives back the settings
/// that were in force before, and so the value from before.
pub proof fn lemma_set_then_restore<T>(s: Seq<T>, v: T)
    ensures
        s.push(v).take(s.len() as int) == s,
        current(s.push(v)) == Some(v),
        current(s.push(v).take(s.len() as int)) == current(s),
{
    assert(s.push(v).take(s.len() as int) =~= s);
}

} // verus!
