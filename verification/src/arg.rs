//! Attributes of an opening tag.

use vstd::prelude::*;

verus! {

/// One attribute of an opening tag: `name="val"`.
#[derive(Debug, Clone, Copy, PartialEq, Eq)]
pub struct Argument<'a> {
    pub name: &'a str,
    pub val: &'a str,
}

impl<'a> View for Argument<'a> {
    type V = (Seq<char>, Seq<char>);

    open spec fn view(&self) -> (Seq<char>, Seq<char>) {
        (self.name@, self.val@)
    }
}

} // verus!
