//! The classification of a change, and its names on the wire.

use crate::text::same_text;
use vstd::prelude::*;

verus! {

/// What kind of change a commit makes.
#[derive(Clone, Copy, Debug, PartialEq, Eq, Structural)]
pub enum Kind {
    Added,
    Breaking,
    Changed,
    Fix,
    Misc,
}

/// The lower-case name under which `kind` is written in a trailer.
pub open spec fn wire_name(kind: Kind) -> Seq<char> {
    match kind {
        Kind::Added => "added"@,
        Kind::Breaking => "breaking"@,
        Kind::Changed => "changed"@,
        Kind::Fix => "fix"@,
        Kind::Misc => "misc"@,
    }
}

/// The kind that is written as `name`, if there is one. Names are matched
/// exactly, letter case included.
pub open spec fn kind_named(name: Seq<char>) -> Option<Kind> {
    if name == "added"@ {
        Some(Kind::Added)
    } else if name == "breaking"@ {
        Some(Kind::Breaking)
    } else if name == "changed"@ {
        Some(Kind::Changed)
    } else if name == "fix"@ {
        Some(Kind::Fix)
    } else if name == "misc"@ {
        Some(Kind::Misc)
    } else {
        None
    }
}

/// The wire names have pairwise different lengths.
pub proof fn lemma_wire_names()
    ensures
        "added"@.len() == 5,
        "breaking"@.len() == 8,
        "changed"@.len() == 7,
        "fix"@.len() == 3,
        "misc"@.len() == 4,
{
    reveal_strlit("added");
    reveal_strlit("breaking");
    reveal_strlit("changed");
    reveal_strlit("fix");
    reveal_strlit("misc");
}

/// Every kind is found again under its own wire name.
pub proof fn lemma_kind_round_trip(kind: Kind)
    ensures
        kind_named(wire_name(kind)) == Some(kind),
{
    lemma_wire_names();
}

/// A name stands for a kind only if it is that kind's wire name.
pub proof fn lemma_kind_named_is_wire_name(name: Seq<char>)
    ensures
        kind_named(name) matches Some(kind) ==> wire_name(kind) == name,
{
}

impl Kind {
    /// The name of this kind on the wire.
    pub fn wire(self) -> (r: &'static str)
        ensures
            r@ == wire_name(self),
    {
        match self {
            Kind::Added => "added",
            Kind::Breaking => "breaking",
            Kind::Changed => "changed",
            Kind::Fix => "fix",
            Kind::Misc => "misc",
        }
    }

    /// The kind written as `name` on the wire.
    pub fn from_wire(name: &str) -> (r: Option<Kind>)
        ensures
            r == kind_named(name@),
    {
        if same_text(name, "added") {
            Some(Kind::Added)
        } else if same_text(name, "breaking") {
            Some(Kind::Breaking)
        } else if same_text(name, "changed") {
            Some(Kind::Changed)
        } else if same_text(name, "fix") {
            Some(Kind::Fix)
        } else if same_text(name, "misc") {
            Some(Kind::Misc)
        } else {
            None
        }
    }
}

} // verus!
