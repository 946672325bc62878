//! The cartesian product of two sequences: every pair `(a, b)` with `a`
//! from the first and `b` from the second, the first varying slowest.
//!
//! `[1, 2] x [3, 4] == [(1, 3), (1, 4), (2, 3), (2, 4)]`

use vstd::prelude::*;

verus! {

/// `r` lists the product of `a` and `b`: `|a| * |b|` pairs, the pair of
/// `a[i]` and `b[j]` at position `i * |b| + j`.
pub open spec fn is_product<A, B>(a: Seq<A>, b: Seq<B>, r: Seq<(A, B)>) -> bool {
    &&& r.len() == a.len() * b.len()
    &&& forall|i: int, j: int|
        #![trigger a[i], b[j]]
        0 <= i < a.len() && 0 <= j < b.len() ==> r[i * b.len() + j] == (a[i], b[j])
}

/// The position after `(row, col)` in a product whose second sequence has
/// `m` elements: the next column, or the start of the next row.
pub open spec fn advance(row: int, col: int, m: int) -> (int, int) {
    if col + 1 < m {
        (row, col + 1)
    } else {
        (row + 1, 0)
    }
}

/// The iterator walks the product in order: at row `i` and column `j` it
/// yields entry `i * |b| + j` of the product, and moves to the position of
/// the entry right after it.
pub proof fn lemma_iterator_walks_product<A, B>(
    a: Seq<A>,
    b: Seq<B>,
    r: Seq<(A, B)>,
    i: int,
    j: int,
)
    requires
        is_product(a, b, r),
        0 <= i < a.len(),
        0 <= j < b.len(),
    ensures
        r[i * b.len() + j] == (a[i], b[j]),
        advance(i, j, b.len() as int).0 * b.len() + advance(i, j, b.len() as int).1 == i * b.len()
            + j + 1,
{
    let m = b.len() as int;
    assert(r[i * m + j] == (a[i], b[j]));
    if j + 1 >= m {
        assert((i + 1) * m == i * m + m) by (nonlinear_arith);
    }
}

/// An iterator over the product of two sequences, in the order of
/// `cartesian_product`.
pub struct CartesianIterator<A, B> {
    first: Vec<A>,
    second: Vec<B>,
    idx_first: usize,
    idx_second: usize,
}

impl<A, B> CartesianIterator<A, B> {
    /// The first sequence.
    pub closed spec fn firsts(&self) -> Seq<A> {
        self.first@
    }

    /// The second sequence.
    pub closed spec fn seconds(&self) -> Seq<B> {
        self.second@
    }

    /// The index into the first sequence of the next pair.
    pub closed spec fn row(&self) -> int {
        self.idx_first as int
    }

    /// The index into the second sequence of the next pair.
    pub closed spec fn col(&self) -> int {
        self.idx_second as int
    }

    /// The position is a pair still to come, or the end: row `|first|`,
    /// column 0.
    pub closed spec fn wf(&self) -> bool {
        ||| (self.idx_first < self.first@.len() && self.idx_second < self.second@.len())
        ||| (self.idx_first == self.first@.len() && self.idx_second == 0)
    }

    /// Every pair has been produced.
    pub open spec fn done(&self) -> bool {
        self.row() == self.firsts().len()
    }
}

impl<A: Copy, B: Copy> CartesianIterator<A, B> {
    /// An iterator positioned at the first pair, if there is any.
    pub fn new(first: Vec<A>, second: Vec<B>) -> (r: Self)
        ensures
            r.wf(),
            r.firsts() == first@,
            r.seconds() == second@,
            r.done() == (first@.len() == 0 || second@.len() == 0),
            !r.done() ==> r.row() == 0 && r.col() == 0,
    {
        let idx_first = if second.len() == 0 { first.len() } else { 0 };
        CartesianIterator { first, second, idx_first, idx_second: 0 }
    }

    /// The next pair: `None` at the end, else the pair at the current row
    /// and column, moving to the next column, or to the start of the next
    /// row after the last column.
    pub fn next(&mut self) -> (r: Option<(A, B)>)
        requires
            old(self).wf(),
        ensures
            final(self).wf(),
            final(self).firsts() == old(self).firsts(),
            final(self).seconds() == old(self).seconds(),
            old(self).done() ==> r is None && *final(self) == *old(self),
            !old(self).done() ==> {
                &&& r == Some((old(self).firsts()[old(self).row()], old(self).seconds()[old(self).col()]))
                &&& (final(self).row(), final(self).col()) == advance(
                    old(self).row(),
                    old(self).col(),
                    old(self).seconds().len() as int,
                )
            },
    {
        if self.idx_first >= self.first.len() {
            return None;
        }
        let pair = (self.first[self.idx_first], self.second[self.idx_second]);
        if self.idx_second < self.second.len() - 1 {
            self.idx_second = self.idx_second + 1;
        } else {
            self.idx_first = self.idx_first + 1;
            self.idx_second = 0;
        }
        Some(pair)
    }
}

proof fn lemma_earlier_row(i1: int, j1: int, i: int, m: int)
    requires
        0 <= i1 < i,
        0 <= j1 < m,
    ensures
        0 <= i1 * m + j1 < i * m,
{
    assert(0 <= i1 * m + j1 < i * m) by (nonlinear_arith)
        requires
            0 <= i1 < i,
            0 <= j1 < m,
    ;
}

/// The product of `first` and `second`, in order.
pub fn cartesian_product<A: Copy, B: Copy>(first: &Vec<A>, second: &Vec<B>) -> (r: Vec<(A, B)>)
    ensures
        is_product(first@, second@, r@),
{
    let n = first.len();
    let m = second.len();
    let mut r: Vec<(A, B)> = Vec::new();
    let mut i: usize = 0;
    while i < n
        invariant
            n == first@.len(),
            m == second@.len(),
            i <= n,
            r@.len() == i * m,
            forall|i1: int, j1: int|
                #![trigger first@[i1], second@[j1]]
                0 <= i1 < i && 0 <= j1 < m ==> r@[i1 * m + j1] == (first@[i1], second@[j1]),
        decreases n - i,
    {
        let mut j: usize = 0;
        while j < m
            invariant
                n == first@.len(),
                m == second@.len(),
                i < n,
                j <= m,
                r@.len() == i * m + j,
                forall|i1: int, j1: int|
                    #![trigger first@[i1], second@[j1]]
                    0 <= i1 < i && 0 <= j1 < m ==> r@[i1 * m + j1] == (first@[i1], second@[j1]),
                forall|j1: int|
                    0 <= j1 < j ==> r@[i * m + j1] == (first@[i as int], #[trigger] second@[j1]),
            decreases m - j,
        {
            let ghost before = r@;
            r.push((first[i], second[j]));
            proof {
                assert forall|i1: int, j1: int|
                    #![trigger first@[i1], second@[j1]]
                    0 <= i1 < i && 0 <= j1 < m implies r@[i1 * m + j1] == (
                        first@[i1],
                        second@[j1],
                    ) by {
                    lemma_earlier_row(i1, j1, i as int, m as int);
                    assert(r@[i1 * m + j1] == before[i1 * m + j1]);
                }
                assert forall|j1: int| 0 <= j1 < j + 1 implies r@[i * m + j1] == (
                    first@[i as int],
                    #[trigger] second@[j1],
                ) by {
                    if j1 < j {
                        assert(r@[i * m + j1] == before[i * m + j1]);
                    }
                }
            }
            j = j + 1;
        }
        proof {
            assert((i + 1) * m == i * m + m) by (nonlinear_arith);
            assert forall|i1: int, j1: int|
                #![trigger first@[i1], second@[j1]]
                0 <= i1 < i + 1 && 0 <= j1 < m implies r@[i1 * m + j1] == (
                    first@[i1],
                    second@[j1],
                ) by {
                if i1 == i {
                    assert(r@[i * m + j1] == (first@[i as int], second@[j1]));
                }
            }
        }
        i = i + 1;
    }
    r
}

} // verus!
