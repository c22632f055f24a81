//! Single characters: the classes that the grammar tells apart, and how many
//! bytes a character takes in UTF-8.

use vstd::prelude::*;
use vstd::utf8::encode_scalar;

verus! {

/// Whether `c` has the Unicode property `White_Space`.
pub open spec fn spec_is_whitespace(c: char) -> bool {
    let u = c as u32;
    ||| 0x09 <= u <= 0x0D
    ||| u == 0x20
    ||| u == 0x85
    ||| u == 0xA0
    ||| u == 0x1680
    ||| 0x2000 <= u <= 0x200A
    ||| u == 0x2028
    ||| u == 0x2029
    ||| u == 0x202F
    ||| u == 0x205F
    ||| u == 0x3000
}

/// Tells whether `c` is a white-space character.
#[verifier::when_used_as_spec(spec_is_whitespace)]
pub fn is_whitespace(c: char) -> (b: bool)
    ensures
        b == spec_is_whitespace(c),
{
    let u: u32 = c as u32;
    (0x09 <= u && u <= 0x0D) || u == 0x20 || u == 0x85 || u == 0xA0 || u == 0x1680 || (0x2000 <= u
        && u <= 0x200A) || u == 0x2028 || u == 0x2029 || u == 0x202F || u == 0x205F || u == 0x3000
}

/// The number of bytes that `c` takes in UTF-8.
pub open spec fn spec_utf8_width(c: char) -> nat {
    encode_scalar(c as u32).len()
}

/// Computes the number of bytes that `c` takes in UTF-8: one to four.
pub fn utf8_width(c: char) -> (width: usize)
    ensures
        width == spec_utf8_width(c),
        1 <= width <= 4,
{
    let u: u32 = c as u32;
    if u < 0x80 {
        1
    } else if u < 0x800 {
        2
    } else if u < 0x1_0000 {
        3
    } else {
        4
    }
}

/// A set of characters that a scan runs over.
#[derive(Clone, Copy, Debug, PartialEq, Eq, Structural)]
pub enum CharClass {
    /// The white-space characters.
    Whitespace,
    /// Every character that is not white space.
    NonWhitespace,
    /// Every character but the line feed.
    NonNewline,
}

impl CharClass {
    /// Whether `c` belongs to the class.
    pub open spec fn spec_contains(self, c: char) -> bool {
        match self {
            CharClass::Whitespace => spec_is_whitespace(c),
            CharClass::NonWhitespace => !spec_is_whitespace(c),
            CharClass::NonNewline => c != '\n',
        }
    }

    /// Tells whether `c` belongs to the class.
    #[verifier::when_used_as_spec(spec_contains)]
    pub fn contains(self, c: char) -> (b: bool)
        ensures
            b == self.spec_contains(c),
    {
        match self {
            CharClass::Whitespace => is_whitespace(c),
            CharClass::NonWhitespace => !is_whitespace(c),
            CharClass::NonNewline => c != '\n',
        }
    }
}

} // verus!
