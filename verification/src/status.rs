//! Lifecycle status of a catalog API record, stored as text in the data
//! store and rendered back into the closed set of recognized values.

use vstd::prelude::*;

verus! {

/// Lifecycle status of an API record.
#[derive(Clone, Copy, Debug, PartialEq, Eq, Structural)]
pub enum Status {
    VALIDATED,
    DEPRECATED,
    RETIRED,
    NONE,
}

/// The text under which a status is stored.
pub open spec fn spec_status_text(s: Status) -> Seq<char> {
    match s {
        Status::VALIDATED => "VALIDATED"@,
        Status::DEPRECATED => "DEPRECATED"@,
        Status::RETIRED => "RETIRED"@,
        Status::NONE => "NONE"@,
    }
}

/// The status a stored text stands for; anything unrecognized is `NONE`.
pub open spec fn spec_status_of_text(t: Seq<char>) -> Status {
    if t == "VALIDATED"@ {
        Status::VALIDATED
    } else if t == "DEPRECATED"@ {
        Status::DEPRECATED
    } else if t == "RETIRED"@ {
        Status::RETIRED
    } else {
        Status::NONE
    }
}

impl Status {
    /// Renders the status as the text under which it is stored.
    pub fn as_str(&self) -> (r: String)
        ensures
            r@ == spec_status_text(*self),
    {
        match *self {
            Status::VALIDATED => String::from_str("VALIDATED"),
            Status::DEPRECATED => String::from_str("DEPRECATED"),
            Status::RETIRED => String::from_str("RETIRED"),
            Status::NONE => String::from_str("NONE"),
        }
    }

    /// Reads a status back from its stored text; anything unrecognized
    /// becomes `NONE`.
    pub fn from_str(val: String) -> (r: Status)
        ensures
            r == spec_status_of_text(val@),
    {
        if crate::text::str_eq(val.as_str(), "VALIDATED") {
            Status::VALIDATED
        } else if crate::text::str_eq(val.as_str(), "DEPRECATED") {
            Status::DEPRECATED
        } else if crate::text::str_eq(val.as_str(), "RETIRED") {
            Status::RETIRED
        } else {
            Status::NONE
        }
    }
}

/// Rendering a status and reading the text back yields the same status:
/// the four stored texts are pairwise distinct.
pub proof fn lemma_status_round_trip(s: Status)
    ensures
        spec_status_of_text(spec_status_text(s)) == s,
{
    reveal_strlit("VALIDATED");
    reveal_strlit("DEPRECATED");
    reveal_strlit("RETIRED");
    reveal_strlit("NONE");
    match s {
        Status::VALIDATED => {
            assert(spec_status_of_text("VALIDATED"@) == Status::VALIDATED);
        },
        Status::DEPRECATED => {
            assert("DEPRECATED"@.len() == 10 && "VALIDATED"@.len() == 9);
            assert(spec_status_of_text("DEPRECATED"@) == Status::DEPRECATED);
        },
        Status::RETIRED => {
            assert("RETIRED"@.len() == 7 && "VALIDATED"@.len() == 9 && "DEPRECATED"@.len() == 10);
            assert(spec_status_of_text("RETIRED"@) == Status::RETIRED);
        },
        Status::NONE => {
            assert(spec_status_of_text("NONE"@) == Status::NONE);
        },
    }
}

} // verus!
