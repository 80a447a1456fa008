//! The command names that both input surfaces understand.
use crate::text::str_eq;
use vstd::prelude::*;

verus! {

/// The kind of a command, whatever surface it came from.
#[derive(Debug, Clone, Copy, PartialEq, Eq, Structural)]
pub enum Marker {
    RandomPick,
    BookOfAnswers,
    DrawClowcard,
    RelationshipCalculator,
    Dice,
    About,
}

/// The alias table: the names under which each command is known.
pub open spec fn marker_of(name: Seq<char>) -> Option<Marker> {
    if name == "pick"@ || name == "choose"@ {
        Some(Marker::RandomPick)
    } else if name == "drawclow"@ || name == "dc"@ {
        Some(Marker::DrawClowcard)
    } else if name == "relacalc"@ || name == "lc"@ {
        Some(Marker::RelationshipCalculator)
    } else if name == "dice"@ {
        Some(Marker::Dice)
    } else if name == "bookofanswers"@ || name == "boa"@ {
        Some(Marker::BookOfAnswers)
    } else if name == "about"@ {
        Some(Marker::About)
    } else {
        None
    }
}

impl Marker {
    /// Resolves a command name; `None` when no alias matches.
    pub fn from_name(name: &str) -> (r: Option<Marker>)
        ensures
            r == marker_of(name@),
    {
        if str_eq(name, "pick") || str_eq(name, "choose") {
            Some(Marker::RandomPick)
        } else if str_eq(name, "drawclow") || str_eq(name, "dc") {
            Some(Marker::DrawClowcard)
        } else if str_eq(name, "relacalc") || str_eq(name, "lc") {
            Some(Marker::RelationshipCalculator)
        } else if str_eq(name, "dice") {
            Some(Marker::Dice)
        } else if str_eq(name, "bookofanswers") || str_eq(name, "boa") {
            Some(Marker::BookOfAnswers)
        } else if str_eq(name, "about") {
            Some(Marker::About)
        } else {
            None
        }
    }
}

} // verus!
