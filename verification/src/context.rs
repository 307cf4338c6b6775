//! The context windower: read-only neighbor access over a sequence of
//! optional items.
//!
//! For every position of the input it yields a view of the items at offsets
//! -1, 0 and +1. A neighbor that falls outside the sequence and a neighbor
//! whose slot holds no value collapse into the same absent state, so
//! callers never see a doubled optional.

use vstd::prelude::*;

verus! {

/// Read-only access to a position's predecessor, itself and successor.
pub struct ContextView<'a, T> {
    pub prev: Option<&'a T>,
    pub curr: Option<&'a T>,
    pub next: Option<&'a T>,
}

/// The value visible at offset `j` of `items`: absent both outside the
/// sequence and where the slot itself is empty.
pub open spec fn neighbor<T>(items: Seq<Option<T>>, j: int) -> Option<T> {
    if 0 <= j < items.len() {
        items[j]
    } else {
        None
    }
}

/// An optional borrow, read as the optional value it points at.
pub open spec fn deref_opt<T>(o: Option<&T>) -> Option<T> {
    match o {
        Some(t) => Some(*t),
        None => None,
    }
}

impl<'a, T> ContextView<'a, T> {
    /// The view grants exactly the neighbors of position `i` of `items`.
    pub open spec fn wf_at(self, items: Seq<Option<T>>, i: int) -> bool {
        &&& deref_opt(self.prev) == neighbor(items, i - 1)
        &&& deref_opt(self.curr) == neighbor(items, i)
        &&& deref_opt(self.next) == neighbor(items, i + 1)
    }
}

/// One context view per position of `items`: the first position's `prev`
/// and the last position's `next` are absent, and every present neighbor
/// is exactly the adjacent element's value.
pub fn context_views<'a, T>(items: &'a Vec<Option<T>>) -> (r: Vec<ContextView<'a, T>>)
    ensures
        r@.len() == items@.len(),
        forall|i: int| 0 <= i < items@.len() ==> (#[trigger] r@[i]).wf_at(items@, i),
{
    let n = items.len();
    let mut r: Vec<ContextView<'a, T>> = Vec::new();
    let mut i: usize = 0;
    while i < n
        invariant
            i <= n,
            n == items@.len(),
            r@.len() == i,
            forall|k: int| 0 <= k < i ==> (#[trigger] r@[k]).wf_at(items@, k),
        decreases n - i,
    {
        let prev: Option<&T> = if i > 0 {
            items[i - 1].as_ref()
        } else {
            None
        };
        let curr: Option<&T> = items[i].as_ref();
        let next: Option<&T> = if i + 1 < n {
            items[i + 1].as_ref()
        } else {
            None
        };
        r.push(ContextView { prev, curr, next });
        i = i + 1;
    }
    r
}

} // verus!
