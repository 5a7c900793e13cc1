//! Keys that can be compared and duplicated with a known result.
use std::sync::Arc;
use vstd::prelude::*;

verus! {

/// A value usable as a key of [`crate::common::vec_map::VecMap`]: two keys
/// are the same key exactly when their views are equal.
pub trait Keyed: View + Sized {
    /// Tells whether `self` and `other` denote the same key.
    fn same(&self, other: &Self) -> (b: bool)
        ensures
            b == (self@ == other@),
    ;

    /// Makes another handle on the same key.
    fn duplicate(&self) -> (copy: Self)
        ensures
            copy@ == self@,
    ;
}

impl Keyed for String {
    fn same(&self, other: &Self) -> (b: bool) {
        *self == *other
    }

    fn duplicate(&self) -> (copy: Self) {
        self.clone()
    }
}

/// `Arc::clone`: the new handle points at the same string.
#[verifier::external_body]
fn share(handle: &Arc<String>) -> (copy: Arc<String>)
    ensures
        copy@ == handle@,
{
    Arc::clone(handle)
}

impl Keyed for Arc<String> {
    fn same(&self, other: &Self) -> (b: bool) {
        **self == **other
    }

    fn duplicate(&self) -> (copy: Self) {
        share(self)
    }
}

} // verus!
