//! The identity of a clip.

use vstd::prelude::*;
use vstd::std_specs::convert::FromSpecImpl;

verus! {

/// A clip's identifier: the text of a UUID, or any other text the owner picks.
#[derive(Debug, Clone, PartialEq)]
pub struct ClipId(String);

impl View for ClipId {
    type V = Seq<char>;

    closed spec fn view(&self) -> Seq<char> {
        self.0@
    }
}

impl ClipId {
    /// The identifier with the given text.
    pub fn new(text: &str) -> (id: Self)
        ensures
            id@ == text@,
    {
        ClipId(text.to_owned())
    }

    /// Whether two identifiers hold the same text.
    pub fn matches(&self, other: &ClipId) -> (same: bool)
        ensures
            same == (self@ == other@),
    {
        self.0 == other.0
    }

    /// A copy of this identifier.
    pub fn duplicate(&self) -> (id: Self)
        ensures
            id@ == self@,
    {
        ClipId(self.0.clone())
    }
}

impl From<uuid::Uuid> for ClipId {
    /// The identifier whose text is the UUID in its hyphenated form.
    fn from(value: uuid::Uuid) -> (id: Self) {
        ClipId(value.to_string())
    }
}

impl FromSpecImpl<uuid::Uuid> for ClipId {
    /// The text of a UUID is left to the `uuid` crate: nothing is stated of it.
    open spec fn obeys_from_spec() -> bool {
        false
    }

    open spec fn from_spec(value: uuid::Uuid) -> Self {
        arbitrary()
    }
}

} // verus!
