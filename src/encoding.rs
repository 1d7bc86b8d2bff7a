//! Characters as they are stored on disk: UCS-2 code units for long names, and the code-page
//! encoder that turns characters into short-name bytes.
use vstd::prelude::*;

verus! {

/// A character that the code-page encoder cannot represent.
#[derive(Clone, Copy, Debug, PartialEq, Eq, Structural)]
pub struct CharacterEncodingError(pub char);

/// Maps characters to the 8-bit code page of short names.
pub trait CodePageEncoder {
    /// The byte that `character` encodes to, or the error for it.
    spec fn spec_encode(&self, character: char) -> Result<u8, CharacterEncodingError>;

    /// The upper-case form of `character`.
    spec fn spec_uppercase(&self, character: char) -> char;

    fn encode(&self, character: char) -> (r: Result<u8, CharacterEncodingError>)
        ensures
            r == self.spec_encode(character),
    ;

    fn uppercase(&self, character: char) -> (r: char)
        ensures
            r == self.spec_uppercase(character),
    ;
}

/// The encoder that accepts the ASCII range alone.
#[derive(Clone, Copy, Debug, Default)]
pub struct AsciiOnlyEncoder;

/// The ASCII upper case of `character`; other characters stay as they are.
pub open spec fn ascii_upper(character: char) -> char {
    if 'a' <= character <= 'z' {
        ((character as u32) - 32) as char
    } else {
        character
    }
}

impl CodePageEncoder for AsciiOnlyEncoder {
    open spec fn spec_encode(&self, character: char) -> Result<u8, CharacterEncodingError> {
        if (character as u32) <= 0x7F {
            Ok(character as u8)
        } else {
            Err(CharacterEncodingError(character))
        }
    }

    open spec fn spec_uppercase(&self, character: char) -> char {
        ascii_upper(character)
    }

    fn encode(&self, character: char) -> (r: Result<u8, CharacterEncodingError>) {
        if (character as u32) <= 0x7F {
            Ok(character as u8)
        } else {
            Err(CharacterEncodingError(character))
        }
    }

    fn uppercase(&self, character: char) -> (r: char) {
        if 'a' <= character && character <= 'z' {
            ((character as u8) - 32) as char
        } else {
            character
        }
    }
}

/// Whether `value` is a UTF-16 surrogate, which no UCS-2 character can be.
pub open spec fn is_surrogate(value: u16) -> bool {
    0xD800 <= value <= 0xDFFF
}

/// The lower-case mapping of the character with code point `code_point` in the Unicode
/// tables of the standard library.
pub uninterp spec fn lowercase_of(code_point: u32) -> Seq<char>;

/// The case-insensitive form of a UCS-2 code unit: its lower-case mapping when that is a
/// single character of the Basic Multilingual Plane, else the unit itself.
pub open spec fn fold_of(value: u16) -> u16 {
    if is_surrogate(value) {
        value
    } else {
        let lower = lowercase_of(value as u32);
        if lower.len() == 1 && (lower[0] as u32) <= 0xFFFF {
            (lower[0] as u32) as u16
        } else {
            value
        }
    }
}

/// One UCS-2 code unit of a long name; never a surrogate.
#[derive(Clone, Copy, Debug, PartialEq, Eq)]
pub struct Ucs2Character(u16);

impl View for Ucs2Character {
    type V = u16;

    closed spec fn view(&self) -> u16 {
        self.0
    }
}

impl Ucs2Character {
    #[verifier::type_invariant]
    spec fn inv(self) -> bool {
        !is_surrogate(self.0)
    }

    /// The code unit 0, which ends a long name.
    pub fn null() -> (r: Ucs2Character)
        ensures
            r@ == 0,
    {
        Ucs2Character(0)
    }

    /// The character with code unit `value`, unless it is a surrogate.
    pub fn from_u16(value: u16) -> (r: Option<Self>)
        ensures
            !is_surrogate(value) <==> r is Some,
            r matches Some(c) ==> c@ == value,
    {
        if !(0xD800 <= value && value <= 0xDFFF) {
            Some(Ucs2Character(value))
        } else {
            None
        }
    }

    /// The character for `value`, when it lies in the Basic Multilingual Plane.
    pub fn from_char(value: char) -> (r: Option<Self>)
        ensures
            (value as u32) <= 0xFFFF <==> r is Some,
            r matches Some(c) ==> c@ == value as u32,
    {
        let codepoint = value as u32;
        if codepoint <= 0xFFFF {
            Some(Ucs2Character(codepoint as u16))
        } else {
            None
        }
    }

    /// The `char` with this code point.
    pub fn to_char(self) -> (r: char)
        ensures
            r as u32 == self@,
    {
        proof {
            use_type_invariant(&self);
        }
        match char_from_u32(self.0 as u32) {
            Some(c) => c,
            None => '\u{0}',
        }
    }

    pub fn to_u16(self) -> (r: u16)
        ensures
            r == self@,
    {
        self.0
    }

    /// Equality after case folding.
    pub fn eq_ignore_case(&self, other: &Ucs2Character) -> (r: bool)
        ensures
            r == (fold_of(self@) == fold_of(other@)),
    {
        if self.0 == other.0 {
            return true;
        }
        fold_character(self.0) == fold_character(other.0)
    }
}

impl Ucs2Character {
    /// The character as a one-character string.
    pub fn to_string(&self) -> (r: String)
        ensures
            r@.len() == 1,
            r@[0] as u32 == self@,
    {
        char_to_string(self.to_char())
    }
}

/// Folds a code unit to its single-character lower-case mapping, and keeps the units whose
/// mapping is longer or leaves the Basic Multilingual Plane.
pub fn fold_character(character: u16) -> (r: u16)
    ensures
        r == fold_of(character),
{
    if 0xD800 <= character && character <= 0xDFFF {
        return character;
    }
    let c = match char_from_u32(character as u32) {
        Some(c) => c,
        None => {
            return character;
        },
    };
    fold_with_lowercase(character, lowercase_prefix(c))
}

/// The folded form of `character`, given the first two characters `lower` of its lower-case
/// mapping: the mapping when it is one character of the Basic Multilingual Plane, else the
/// unit itself.
pub fn fold_with_lowercase(character: u16, lower: (Option<char>, Option<char>)) -> (r: u16)
    ensures
        r == (match lower {
            (Some(first), None) => if (first as u32) <= 0xFFFF {
                (first as u32) as u16
            } else {
                character
            },
            _ => character,
        }),
{
    match lower {
        (Some(first), None) => {
            if (first as u32) <= 0xFFFF {
                (first as u32) as u16
            } else {
                character
            }
        },
        _ => character,
    }
}

/// Relies on `char::to_lowercase`: the first two characters of the lower-case mapping of
/// `character`, which depends on the character alone.
#[verifier::external_body]
fn lowercase_prefix(character: char) -> (r: (Option<char>, Option<char>))
    ensures
        r.0 == (if lowercase_of(character as u32).len() >= 1 {
            Some(lowercase_of(character as u32)[0])
        } else {
            None::<char>
        }),
        r.1 == (if lowercase_of(character as u32).len() >= 2 {
            Some(lowercase_of(character as u32)[1])
        } else {
            None::<char>
        }),
{
    let mut lower = character.to_lowercase();
    let first = lower.next();
    (first, lower.next())
}

/// Relies on `char`'s `ToString`: the string that holds the one character.
#[verifier::external_body]
fn char_to_string(character: char) -> (r: String)
    ensures
        r@ == seq![character],
{
    character.to_string()
}

/// Relies on `char::from_u32`: `Some` exactly for Unicode scalar values, holding that code
/// point.
#[verifier::external_body]
fn char_from_u32(value: u32) -> (r: Option<char>)
    ensures
        (value <= 0x10FFFF && !(0xD800 <= value <= 0xDFFF)) <==> r is Some,
        r matches Some(c) ==> c as u32 == value,
{
    char::from_u32(value)
}

} // verus!
