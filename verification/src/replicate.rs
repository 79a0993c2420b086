//! Copies that are known to be equal to what they were made from.

use vstd::prelude::*;

verus! {

/// A value that can be copied without losing anything that its deep view shows.
pub trait Replicate: DeepView + Sized {
    /// A copy with the same deep view.
    fn replicate(&self) -> (copy: Self)
        ensures
            copy.deep_view() == self.deep_view(),
    ;
}

impl Replicate for String {
    fn replicate(&self) -> (copy: Self) {
        self.clone()
    }
}

impl Replicate for bool {
    fn replicate(&self) -> (copy: Self) {
        *self
    }
}

impl Replicate for char {
    fn replicate(&self) -> (copy: Self) {
        *self
    }
}

impl Replicate for u32 {
    fn replicate(&self) -> (copy: Self) {
        *self
    }
}

impl Replicate for u64 {
    fn replicate(&self) -> (copy: Self) {
        *self
    }
}

impl Replicate for i64 {
    fn replicate(&self) -> (copy: Self) {
        *self
    }
}

impl<T: Replicate> Replicate for Option<T> {
    fn replicate(&self) -> (copy: Self) {
        match self {
            Some(value) => Some(value.replicate()),
            None => None,
        }
    }
}

impl<T: Replicate> Replicate for Vec<T> {
    fn replicate(&self) -> (copy: Self) {
        let mut copy: Vec<T> = Vec::new();
        extend_replicas(&mut copy, self);
        proof {
            assert(copy.deep_view() =~= self.deep_view());
        }
        copy
    }
}

/// Append a copy of every item of `from` to `into`.
pub fn extend_replicas<T: Replicate>(into: &mut Vec<T>, from: &Vec<T>)
    ensures
        final(into).deep_view() == old(into).deep_view() + from.deep_view(),
{
    let ghost before = into.deep_view();
    proof {
        assert(before + from.deep_view().take(0) =~= before);
    }
    for i in 0..from.len()
        invariant
            into.deep_view() == before + from.deep_view().take(i as int),
    {
        let ghost so_far = into.deep_view();
        into.push(from[i].replicate());
        proof {
            assert(into.deep_view() =~= so_far.push(from.deep_view()[i as int]));
            assert(into.deep_view() =~= before + from.deep_view().take(i + 1));
        }
    }
    proof {
        assert(from.deep_view().take(from.len() as int) =~= from.deep_view());
    }
}

} // verus!
