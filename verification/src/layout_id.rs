//! Stable identifiers for layout node caching.

use vstd::prelude::*;
use crate::text::{decimal, push_decimal};

verus! {

/// Stable identifier that lets an element's layout node be reused across frames.
#[derive(Debug, Clone, PartialEq, Eq, Hash)]
pub struct LayoutId(String);

impl View for LayoutId {
    type V = Seq<char>;

    closed spec fn view(&self) -> Seq<char> {
        self.0@
    }
}

impl LayoutId {
    /// A layout id with the given text.
    pub fn new(s: &str) -> (id: Self)
        ensures
            id@ == s@,
    {
        LayoutId(s.to_owned())
    }

    /// The id of the `index`-th child: this id, a slash, and the index in decimal.
    pub fn child(&self, index: u32) -> (id: Self)
        ensures
            id@ == self@ + "/"@ + decimal(index as nat),
    {
        let mut s = self.0.clone();
        s.append("/");
        push_decimal(&mut s, index as u64);
        LayoutId(s)
    }

    /// The id's text.
    pub fn as_str(&self) -> (r: &str)
        ensures
            r@ == self@,
    {
        self.0.as_str()
    }
}

} // verus!
