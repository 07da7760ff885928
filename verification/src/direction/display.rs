//! Names and symbols of the directions.

use super::Direction;
use std::str::FromStr;
use vstd::prelude::*;

verus! {

/// The lower-case form of a text, as `str::to_lowercase` computes it.
pub uninterp spec fn lowercase_of(s: Seq<char>) -> Seq<char>;

/// Calls `str::to_lowercase`, which maps every character to its lower-case
/// equivalent by the Unicode rules; the result depends on the text alone.
#[verifier::external_body]
fn to_lowercase(s: &str) -> (r: String)
    ensures
        r@ == lowercase_of(s@),
{
    s.to_lowercase()
}

/// Decides whether `text` is exactly `word`.
fn is_word(text: &String, word: &str) -> (r: bool)
    ensures
        r == (text@ == word@),
{
    let owned = word.to_owned();
    *text == owned
}

impl Direction {
    /// The direction that a lower-case name stands for, if any.
    pub open spec fn named(name: Seq<char>) -> Option<Direction> {
        if name == "east"@ || name == "right"@ || name == "→"@ {
            Some(Direction::X(true))
        } else if name == "west"@ || name == "left"@ || name == "←"@ {
            Some(Direction::X(false))
        } else if name == "north"@ || name == "up"@ || name == "↑"@ {
            Some(Direction::Y(true))
        } else if name == "south"@ || name == "down"@ || name == "↓"@ {
            Some(Direction::Y(false))
        } else {
            None
        }
    }

    /// What parsing a text gives, from the lower-case form of the text: the
    /// direction it names, or else the lower-case form itself.
    pub open spec fn parsed(lowered: Seq<char>) -> Result<Direction, Seq<char>> {
        match Direction::named(lowered) {
            Some(d) => Ok(d),
            None => Err(lowered),
        }
    }

    /// The arrow that stands for the direction.
    pub open spec fn symbol(self) -> Seq<char> {
        match self {
            Direction::X(true) => "→"@,
            Direction::X(false) => "←"@,
            Direction::Y(true) => "↑"@,
            Direction::Y(false) => "↓"@,
        }
    }

    /// Looks up a name that is already in lower case.
    pub fn from_name(name: &String) -> (r: Option<Direction>)
        ensures
            r == Direction::named(name@),
    {
        if is_word(name, "east") || is_word(name, "right") || is_word(name, "→") {
            Some(Direction::X(true))
        } else if is_word(name, "west") || is_word(name, "left") || is_word(name, "←") {
            Some(Direction::X(false))
        } else if is_word(name, "north") || is_word(name, "up") || is_word(name, "↑") {
            Some(Direction::Y(true))
        } else if is_word(name, "south") || is_word(name, "down") || is_word(name, "↓") {
            Some(Direction::Y(false))
        } else {
            None
        }
    }

    /// Parses a direction from its name, whatever the case of its letters.
    /// A text that names no direction comes back in lower case as the error.
    pub fn from_str(s: &str) -> (r: Result<Direction, String>)
        ensures
            match r {
                Ok(d) => Direction::parsed(lowercase_of(s@)) == Ok::<Direction, Seq<char>>(d),
                Err(e) => Direction::parsed(lowercase_of(s@)) == Err::<Direction, Seq<char>>(e@),
            },
    {
        let normed = to_lowercase(s);
        match Direction::from_name(&normed) {
            Some(d) => Ok(d),
            None => Err(normed),
        }
    }

    /// The arrow that stands for the direction, as a string.
    pub fn to_string(&self) -> (r: String)
        ensures
            r@ == self.symbol(),
    {
        match self {
            Direction::X(true) => "→".to_owned(),
            Direction::X(false) => "←".to_owned(),
            Direction::Y(true) => "↑".to_owned(),
            Direction::Y(false) => "↓".to_owned(),
        }
    }
}

impl FromStr for Direction {
    type Err = String;

    /// Parses a direction as the method of the same name on `Direction`
    /// does: the text names a direction whatever the case of its letters,
    /// and a text that names none comes back in lower case as the error.
    fn from_str(s: &str) -> (r: Result<Self, Self::Err>)
        ensures
            match r {
                Ok(d) => Direction::parsed(lowercase_of(s@)) == Ok::<Direction, Seq<char>>(d),
                Err(e) => Direction::parsed(lowercase_of(s@)) == Err::<Direction, Seq<char>>(e@),
            },
    {
        Direction::from_str(s)
    }
}

} // verus!
