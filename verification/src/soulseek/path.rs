//! Paths as peers share them: components separated by backslashes.
use vstd::prelude::*;

use crate::text::{after_last_chars, from_chars, str_eq, to_chars};

verus! {

/// A path in the form peers send it.
#[derive(Debug, PartialEq, Eq, Hash)]
pub struct SoulseekPath(pub String);

impl View for SoulseekPath {
    type V = Seq<char>;

    open spec fn view(&self) -> Seq<char> {
        self.0@
    }
}

impl Clone for SoulseekPath {
    fn clone(&self) -> (r: Self)
        ensures
            r == *self,
    {
        SoulseekPath(self.0.clone())
    }
}

impl SoulseekPath {
    /// A path as it came over the wire.
    pub fn from_wire(path: String) -> (r: SoulseekPath)
        ensures
            r == SoulseekPath(path),
    {
        SoulseekPath(path)
    }

    /// The whole path.
    pub fn as_str(&self) -> (r: &str)
        ensures
            r@ == self@,
    {
        self.0.as_str()
    }

    /// The last component.
    pub fn filename(&self) -> (r: String)
        ensures
            r@ == crate::text::after_last(self@, '\\'),
    {
        from_chars(&after_last_chars(&to_chars(self.0.as_str()), '\\'))
    }

    /// Whether two paths are the same.
    pub fn same_as(&self, other: &SoulseekPath) -> (r: bool)
        ensures
            r == (self@ == other@),
    {
        str_eq(self.0.as_str(), other.0.as_str())
    }
}

} // verus!
