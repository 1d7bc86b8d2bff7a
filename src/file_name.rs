//! File names as a caller writes them: long (UCS-2) names and 8.3 short names.
use vstd::prelude::*;
use vstd::std_specs::iter::IteratorSpec;
use crate::encoding::{CharacterEncodingError, CodePageEncoder, Ucs2Character, fold_of};

verus! {

broadcast use vstd::string::axiom_spec_iter, vstd::string::next_postcondition;

/// Most UCS-2 code units in a long name.
pub const LONG_NAME_MAX_LENGTH: usize = 255;

/// Why a string is not a valid long name.
#[derive(Clone, Copy, Debug, PartialEq, Eq, Structural)]
pub enum LongFileNameError {
    CharacterInvalid(char),
    EncoderError(CharacterEncodingError),
    InputEmpty,
    InputTooLong,
}

/// Characters that a long name cannot hold.
pub open spec fn long_name_character_forbidden(c: char) -> bool {
    (c as u32) <= 0x1F || c == '"' || c == '*' || c == '/' || c == ':' || c == '<' || c == '>'
        || c == '?' || c == '\\' || c == '|' || (c as u32) == 0xFFFF
}

/// The first problem found scanning the characters of `s` from index `i`.
pub open spec fn long_name_error_from(s: Seq<char>, i: int) -> Option<LongFileNameError>
    decreases s.len() - i,
{
    if i < 0 || i >= s.len() {
        None
    } else if i >= 255 {
        Some(LongFileNameError::InputTooLong)
    } else if long_name_character_forbidden(s[i]) {
        Some(LongFileNameError::CharacterInvalid(s[i]))
    } else if (s[i] as u32) > 0xFFFF {
        Some(LongFileNameError::EncoderError(CharacterEncodingError(s[i])))
    } else {
        long_name_error_from(s, i + 1)
    }
}

/// Why the string `s` is not a valid long name, if it is not.
pub open spec fn long_name_error(s: Seq<char>) -> Option<LongFileNameError> {
    if s.len() == 0 {
        Some(LongFileNameError::InputEmpty)
    } else {
        long_name_error_from(s, 0)
    }
}

/// The 255 code units that stand for the valid long name `s`: its characters, then nulls.
pub open spec fn long_name_units(s: Seq<char>) -> Seq<u16> {
    Seq::new(255, |k: int| if k < s.len() { (s[k] as u32) as u16 } else { 0u16 })
}

/// Two long names are the same name when they agree, after case folding, up to and including
/// the first null of the first.
pub open spec fn long_names_match(a: Seq<u16>, b: Seq<u16>) -> bool {
    forall|i: int|
        #![trigger a[i], b[i]]
        0 <= i < a.len() && (forall|j: int| 0 <= j < i ==> a[j] != 0) ==> i < b.len() && fold_of(
            a[i],
        ) == fold_of(b[i])
}

/// A long name of up to 255 UCS-2 code units, padded with nulls.
#[derive(Clone, Copy, Debug)]
pub struct LongFileName {
    pub ucs2_characters: [Ucs2Character; LONG_NAME_MAX_LENGTH],
}

impl View for LongFileName {
    type V = Seq<u16>;

    open spec fn view(&self) -> Seq<u16> {
        self.ucs2_characters@.map_values(|c: Ucs2Character| c@)
    }
}

impl LongFileName {
    pub fn new(ucs2_characters: [Ucs2Character; LONG_NAME_MAX_LENGTH]) -> (r: Self)
        ensures
            r.ucs2_characters == ucs2_characters,
    {
        LongFileName { ucs2_characters }
    }

    /// Parses a long name: 1 to 255 characters of the Basic Multilingual Plane, none of them
    /// forbidden.
    pub fn from_str(name: &str) -> (r: Result<LongFileName, LongFileNameError>)
        ensures
            long_name_error(name@) is None <==> r is Ok,
            r is Err ==> long_name_error(name@) == Some(r->Err_0),
            r is Ok ==> r->Ok_0@ == long_name_units(name@),
    {
        if name.is_empty() {
            return Err(LongFileNameError::InputEmpty);
        }
        let mut ucs2_characters = [Ucs2Character::null(); LONG_NAME_MAX_LENGTH];
        let mut chars = name.chars();
        let mut index: usize = 0;
        loop
            invariant
                chars.remaining() == name@.skip(index as int),
                index <= name@.len(),
                index <= 255,
                long_name_error_from(name@, 0) == long_name_error_from(name@, index as int),
                forall|k: int|
                    0 <= k < 255 ==> ucs2_characters@[k]@ == (if k < index {
                        (name@[k] as u32) as u16
                    } else {
                        0u16
                    }),
            ensures
                index == name@.len(),
                index <= 255,
                long_name_error_from(name@, 0) == long_name_error_from(name@, index as int),
                forall|k: int|
                    0 <= k < 255 ==> ucs2_characters@[k]@ == (if k < index {
                        (name@[k] as u32) as u16
                    } else {
                        0u16
                    }),
            decreases name@.len() - index,
        {
            match chars.next() {
                None => {
                    assert(name@.skip(index as int).len() == 0);
                    break;
                },
                Some(character) => {
                    assert(character == name@[index as int]);
                    if index >= LONG_NAME_MAX_LENGTH {
                        return Err(LongFileNameError::InputTooLong);
                    }
                    if !is_valid_long_name_character(character) {
                        return Err(LongFileNameError::CharacterInvalid(character));
                    }
                    match Ucs2Character::from_char(character) {
                        None => {
                            return Err(
                                LongFileNameError::EncoderError(CharacterEncodingError(character)),
                            );
                        },
                        Some(c) => {
                            ucs2_characters[index] = c;
                        },
                    }
                    index = index + 1;
                },
            }
        }
        let r = Self::new(ucs2_characters);
        assert(r@ =~= long_name_units(name@));
        Ok(r)
    }

    /// Whether the name holds no character.
    pub fn is_empty(&self) -> (r: bool)
        ensures
            r == (self@[0] == 0),
    {
        self.ucs2_characters[0].to_u16() == 0
    }
}

impl PartialEq for LongFileName {
    /// Case-insensitive comparison up to the first null.
    fn eq(&self, other: &LongFileName) -> (r: bool)
        ensures
            r == long_names_match(self@, other@),
    {
        let mut i: usize = 0;
        while i < LONG_NAME_MAX_LENGTH
            invariant
                0 <= i <= 255,
                self@.len() == 255,
                other@.len() == 255,
                forall|k: int| 0 <= k < i ==> self@[k] != 0,
                forall|k: int| 0 <= k < i ==> fold_of(self@[k]) == fold_of(other@[k]),
            decreases 255 - i,
        {
            let left = self.ucs2_characters[i];
            let right = other.ucs2_characters[i];
            assert(self@[i as int] == left@ && other@[i as int] == right@);
            if !left.eq_ignore_case(&right) {
                assert(!(fold_of(self@[i as int]) == fold_of(other@[i as int])));
                assert(forall|j: int| 0 <= j < i ==> self@[j] != 0);
                return false;
            }
            if left.to_u16() == 0 {
                assert forall|k: int|
                    #![trigger self@[k], other@[k]]
                    0 <= k < self@.len() && (forall|j: int| 0 <= j < k ==> self@[j] != 0)
                        implies k < other@.len() && fold_of(self@[k]) == fold_of(other@[k]) by {
                    if k > i {
                        assert(self@[i as int] == 0);
                    }
                }
                return true;
            }
            i = i + 1;
        }
        true
    }
}

impl vstd::std_specs::cmp::PartialEqSpecImpl for LongFileName {
    open spec fn obeys_eq_spec() -> bool {
        false
    }

    open spec fn eq_spec(&self, other: &LongFileName) -> bool {
        long_names_match(self@, other@)
    }
}

impl From<[Ucs2Character; LONG_NAME_MAX_LENGTH]> for LongFileName {
    fn from(value: [Ucs2Character; LONG_NAME_MAX_LENGTH]) -> (r: Self)
        ensures
            r.ucs2_characters == value,
    {
        Self::new(value)
    }
}

impl vstd::std_specs::convert::FromSpecImpl<[Ucs2Character; LONG_NAME_MAX_LENGTH]> for LongFileName {
    open spec fn obeys_from_spec() -> bool {
        true
    }

    open spec fn from_spec(value: [Ucs2Character; LONG_NAME_MAX_LENGTH]) -> LongFileName {
        LongFileName { ucs2_characters: value }
    }
}

/// Whether `character` may stand in a long name.
pub fn is_valid_long_name_character(character: char) -> (r: bool)
    ensures
        r == !long_name_character_forbidden(character),
{
    !((character as u32) <= 0x1F || character == '"' || character == '*' || character == '/'
        || character == ':' || character == '<' || character == '>' || character == '?'
        || character == '\\' || character == '|' || (character as u32) == 0xFFFF)
}

/// Bytes in the name and extension of a short name.
pub const SHORT_NAME_CHARACTER_COUNT: usize = 11;

/// Why a string is not a valid 8.3 short name.
#[derive(Clone, Copy, Debug, PartialEq, Eq, Structural)]
pub enum ShortFileNameError {
    CharacterNotAllowed(char),
    EncodedCharacterByteNotAllowed(char),
    EncoderError(CharacterEncodingError),
    ExtensionTooLong,
    InputEmpty,
    NameEmpty,
    NameStartsWithSpace,
    NameTooLong,
}

/// Characters that a short name cannot hold.
pub open spec fn short_name_character_forbidden(c: char) -> bool {
    (c as u32) <= 0x1F || c == '"' || ('*' <= c <= ',') || c == '.' || c == '/' || (':' <= c
        <= '?') || ('[' <= c <= ']') || c == '|'
}

/// Bytes that a short name cannot hold.
pub open spec fn short_name_byte_forbidden(b: u8) -> bool {
    b <= 0x1F || b == 0x22 || (0x2A <= b <= 0x2C) || b == 0x2E || b == 0x2F || (0x3A <= b <= 0x3F)
        || (0x5B <= b <= 0x5D) || b == 0x7C
}

/// The short-name byte for `c`: its upper case, encoded, when both `c` and the byte are allowed.
pub open spec fn encoded_character<E: CodePageEncoder>(encoder: &E, c: char) -> Result<
    u8,
    ShortFileNameError,
> {
    if short_name_character_forbidden(c) {
        Err(ShortFileNameError::CharacterNotAllowed(c))
    } else {
        match encoder.spec_encode(encoder.spec_uppercase(c)) {
            Err(e) => Err(ShortFileNameError::EncoderError(e)),
            Ok(b) => if short_name_byte_forbidden(b) {
                Err(ShortFileNameError::EncodedCharacterByteNotAllowed(c))
            } else {
                Ok(b)
            },
        }
    }
}

/// Index of the last `.` in `s`, or -1.
pub open spec fn last_dot(s: Seq<char>) -> int
    decreases s.len(),
{
    if s.len() == 0 {
        -1
    } else if s.last() == '.' {
        s.len() - 1
    } else {
        last_dot(s.drop_last())
    }
}

/// The characters before the last dot (all of them when there is none).
pub open spec fn name_part(s: Seq<char>) -> Seq<char> {
    if last_dot(s) >= 0 { s.take(last_dot(s)) } else { s }
}

/// The characters after the last dot (none when there is none).
pub open spec fn extension_part(s: Seq<char>) -> Seq<char> {
    if last_dot(s) >= 0 { s.skip(last_dot(s) + 1) } else { Seq::empty() }
}

/// The first problem found encoding `part` from index `i`, which may hold at most `limit`
/// characters; a name may not start with a space.
pub open spec fn part_error<E: CodePageEncoder>(
    encoder: &E,
    part: Seq<char>,
    i: int,
    is_name: bool,
) -> Option<ShortFileNameError>
    decreases part.len() - i,
{
    if i < 0 || i >= part.len() {
        None
    } else if is_name && i >= 8 {
        Some(ShortFileNameError::NameTooLong)
    } else if !is_name && i >= 3 {
        Some(ShortFileNameError::ExtensionTooLong)
    } else {
        match encoded_character(encoder, part[i]) {
            Err(e) => Some(e),
            Ok(b) => if is_name && i == 0 && b == 0x20 {
                Some(ShortFileNameError::NameStartsWithSpace)
            } else {
                part_error(encoder, part, i + 1, is_name)
            },
        }
    }
}

/// Why `s` is not a valid short name, if it is not.
pub open spec fn short_name_error<E: CodePageEncoder>(encoder: &E, s: Seq<char>) -> Option<
    ShortFileNameError,
> {
    if s.len() == 0 {
        Some(ShortFileNameError::InputEmpty)
    } else if name_part(s).len() == 0 {
        Some(ShortFileNameError::NameEmpty)
    } else if part_error(encoder, name_part(s), 0, true) is Some {
        part_error(encoder, name_part(s), 0, true)
    } else {
        part_error(encoder, extension_part(s), 0, false)
    }
}

/// Byte `k` of the name part: the encoded character, space padded, with a leading 0xE5
/// stored as 0x05.
pub open spec fn name_byte<E: CodePageEncoder>(encoder: &E, name: Seq<char>, k: int) -> u8 {
    if k < name.len() {
        let b = encoded_character(encoder, name[k])->Ok_0;
        if k == 0 && b == 0xE5 { 0x05 } else { b }
    } else {
        0x20
    }
}

/// Byte `k` of the extension part, space padded.
pub open spec fn extension_byte<E: CodePageEncoder>(encoder: &E, ext: Seq<char>, k: int) -> u8 {
    if k < ext.len() {
        encoded_character(encoder, ext[k])->Ok_0
    } else {
        0x20
    }
}

/// The eleven bytes of the valid short name `s`.
pub open spec fn short_name_bytes<E: CodePageEncoder>(encoder: &E, s: Seq<char>) -> Seq<u8> {
    Seq::new(
        11,
        |k: int|
            if k < 8 {
                name_byte(encoder, name_part(s), k)
            } else {
                extension_byte(encoder, extension_part(s), k - 8)
            },
    )
}

/// One step of the short-name checksum: rotate right by one bit, then add the byte.
pub open spec fn checksum_step(acc: u8, b: u8) -> u8 {
    ((acc / 2 + (acc % 2) * 128 + b) % 256) as u8
}

/// The checksum of the first `n` bytes of `bytes`.
pub open spec fn checksum_prefix(bytes: Seq<u8>, n: int) -> u8
    decreases n,
{
    if n <= 0 {
        0
    } else {
        checksum_step(checksum_prefix(bytes, n - 1), bytes[n - 1])
    }
}

/// The checksum of an 11-byte short name that its long-name records carry.
pub open spec fn short_name_checksum_of(bytes: Seq<u8>) -> u8 {
    checksum_prefix(bytes, 11)
}

/// An 8.3 name as its eleven on-disk bytes.
#[derive(Clone, Copy, Debug, Eq)]
pub struct ShortFileName {
    pub bytes: [u8; SHORT_NAME_CHARACTER_COUNT],
}

impl ShortFileName {
    pub fn new(bytes: [u8; SHORT_NAME_CHARACTER_COUNT]) -> (r: Self)
        ensures
            r.bytes == bytes,
    {
        Self { bytes }
    }

    pub fn bytes(&self) -> (r: &[u8; SHORT_NAME_CHARACTER_COUNT])
        ensures
            *r == self.bytes,
    {
        &self.bytes
    }

    /// The checksum that long-name records of this name carry.
    pub fn checksum(&self) -> (r: u8)
        ensures
            r == short_name_checksum_of(self.bytes@),
    {
        let mut checksum: u8 = 0;
        let mut i: usize = 0;
        while i < SHORT_NAME_CHARACTER_COUNT
            invariant
                i <= 11,
                checksum == checksum_prefix(self.bytes@, i as int),
            decreases 11 - i,
        {
            let rotated: u8 = (checksum >> 1u8) | (checksum << 7u8);
            assert((checksum >> 1u8) | (checksum << 7u8) == checksum / 2 + (checksum % 2) * 128)
                by (bit_vector);
            checksum = rotated.wrapping_add(self.bytes[i]);
            i = i + 1;
        }
        checksum
    }
}

impl PartialEq for ShortFileName {
    fn eq(&self, other: &ShortFileName) -> (r: bool)
        ensures
            r == (self.bytes@ == other.bytes@),
    {
        let mut i: usize = 0;
        while i < SHORT_NAME_CHARACTER_COUNT
            invariant
                i <= 11,
                forall|k: int| 0 <= k < i ==> self.bytes@[k] == other.bytes@[k],
            decreases 11 - i,
        {
            if self.bytes[i] != other.bytes[i] {
                return false;
            }
            i = i + 1;
        }
        assert(self.bytes@ =~= other.bytes@);
        true
    }
}

impl vstd::std_specs::cmp::PartialEqSpecImpl for ShortFileName {
    open spec fn obeys_eq_spec() -> bool {
        true
    }

    open spec fn eq_spec(&self, other: &ShortFileName) -> bool {
        self.bytes@ == other.bytes@
    }
}

/// The last dot lies within the string and is a dot.
proof fn lemma_last_dot_range(s: Seq<char>)
    ensures
        -1 <= last_dot(s) < s.len(),
        last_dot(s) >= 0 ==> s[last_dot(s)] == '.',
    decreases s.len(),
{
    if s.len() > 0 && s.last() != '.' {
        lemma_last_dot_range(s.drop_last());
    }
}

/// The last dot of `s` followed by one more character.
proof fn lemma_last_dot_extend(s: Seq<char>, n: int)
    requires
        0 <= n < s.len(),
    ensures
        last_dot(s.take(n + 1)) == (if s[n] == '.' { n } else { last_dot(s.take(n)) }),
{
    assert(s.take(n + 1).drop_last() =~= s.take(n));
}

impl ShortFileName {
    /// Parses `name.ext` into the eleven bytes of a short name through `encoder`; the
    /// extension is whatever follows the last dot.
    #[verifier::rlimit(60)]
    pub fn from_str<E: CodePageEncoder>(encoder: &E, value: &str) -> (r: Result<
        Self,
        ShortFileNameError,
    >)
        requires
            value@.len() < usize::MAX,
        ensures
            short_name_error(encoder, value@) is None <==> r is Ok,
            r is Err ==> short_name_error(encoder, value@) == Some(r->Err_0),
            r is Ok ==> r->Ok_0.bytes@ == short_name_bytes(encoder, value@),
    {
        let ghost s = value@;
        if value.is_empty() {
            return Err(ShortFileNameError::InputEmpty);
        }
        // Find the last dot.
        let mut chars = value.chars();
        let mut count: usize = 0;
        let mut dot: Option<usize> = None;
        loop
            invariant
                chars.remaining() == s.skip(count as int),
                s == value@,
                count <= s.len(),
                s.len() < usize::MAX,
                last_dot(s.take(count as int)) == (match dot {
                    Some(d) => d as int,
                    None => -1,
                }),
            ensures
                count == s.len(),
                last_dot(s) == (match dot {
                    Some(d) => d as int,
                    None => -1,
                }),
            decreases s.len() - count,
        {
            match chars.next() {
                None => {
                    assert(s.skip(count as int).len() == 0);
                    assert(s.take(count as int) =~= s);
                    break;
                },
                Some(character) => {
                    proof {
                        lemma_last_dot_extend(s, count as int);
                    }
                    if character == '.' {
                        dot = Some(count);
                    }
                    count = count + 1;
                },
            }
        }
        let name_length: usize = match dot {
            Some(d) => d,
            None => count,
        };
        let ghost name = name_part(s);
        let ghost ext = extension_part(s);
        proof {
            lemma_last_dot_range(s);
        }
        assert(name.len() == name_length);
        if name_length == 0 {
            return Err(ShortFileNameError::NameEmpty);
        }

        let mut bytes = [0x20u8; SHORT_NAME_CHARACTER_COUNT];
        let mut chars = value.chars();
        let mut i: usize = 0;
        while i < name_length
            invariant
                chars.remaining() == s.skip(i as int),
                s == value@,
                i <= name_length,
                name_length == name.len(),
                name_length <= s.len(),
                i <= 8,
                name == name_part(s),
                forall|k: int| 0 <= k < name.len() ==> name[k] == s[k],
                part_error(encoder, name, 0, true) == part_error(encoder, name, i as int, true),
                forall|k: int|
                    0 <= k < 11 ==> bytes@[k] == (if k < i {
                        name_byte(encoder, name, k)
                    } else {
                        0x20u8
                    }),
            decreases name_length - i,
        {
            let character = match chars.next() {
                Some(c) => c,
                None => {
                    return Err(ShortFileNameError::InputEmpty);
                },
            };
            assert(character == name[i as int]);
            if i >= 8 {
                return Err(ShortFileNameError::NameTooLong);
            }
            let mut encoded = match encode_character(encoder, character) {
                Ok(b) => b,
                Err(e) => {
                    return Err(e);
                },
            };
            if i == 0 && encoded == 0x20 {
                return Err(ShortFileNameError::NameStartsWithSpace);
            }
            if i == 0 && encoded == 0xE5 {
                encoded = 0x05;
            }
            bytes[i] = encoded;
            i = i + 1;
        }
        if dot.is_some() {
            let _ = chars.next();
        }
        assert(chars.remaining() =~= ext.skip(0));
        let mut j: usize = 0;
        loop
            invariant
                chars.remaining() == ext.skip(j as int),
                s == value@,
                s.len() > 0,
                name.len() > 0,
                j <= ext.len(),
                j <= 3,
                name == name_part(s),
                ext == extension_part(s),
                part_error(encoder, name, 0, true) is None,
                part_error(encoder, ext, 0, false) == part_error(encoder, ext, j as int, false),
                forall|k: int|
                    0 <= k < 11 ==> bytes@[k] == (if k < 8 {
                        name_byte(encoder, name, k)
                    } else if k - 8 < j {
                        extension_byte(encoder, ext, k - 8)
                    } else {
                        0x20u8
                    }),
            ensures
                j == ext.len(),
                part_error(encoder, ext, 0, false) is None,
                forall|k: int|
                    0 <= k < 11 ==> bytes@[k] == (if k < 8 {
                        name_byte(encoder, name, k)
                    } else {
                        extension_byte(encoder, ext, k - 8)
                    }),
            decreases ext.len() - j,
        {
            match chars.next() {
                None => {
                    assert(ext.skip(j as int).len() == 0);
                    break;
                },
                Some(character) => {
                    assert(character == ext[j as int]);
                    if j >= 3 {
                        return Err(ShortFileNameError::ExtensionTooLong);
                    }
                    let encoded = match encode_character(encoder, character) {
                        Ok(b) => b,
                        Err(e) => {
                            return Err(e);
                        },
                    };
                    bytes[8 + j] = encoded;
                    j = j + 1;
                },
            }
        }
        let r = ShortFileName::new(bytes);
        assert(r.bytes@ =~= short_name_bytes(encoder, s));
        Ok(r)
    }
}

/// Whether `character` may stand in a short name.
pub fn is_valid_short_name_character(character: char) -> (r: bool)
    ensures
        r == !short_name_character_forbidden(character),
{
    !((character as u32) <= 0x1F || character == '"' || ('*' <= character && character <= ',')
        || character == '.' || character == '/' || (':' <= character && character <= '?') || ('['
        <= character && character <= ']') || character == '|')
}

/// Whether the byte `encoded_character` may stand in a short name.
pub fn is_valid_encoded_character(encoded_character: u8) -> (r: bool)
    ensures
        r == !short_name_byte_forbidden(encoded_character),
{
    let b = encoded_character;
    !(b <= 0x1F || b == 0x22 || (0x2A <= b && b <= 0x2C) || b == 0x2E || b == 0x2F || (0x3A <= b
        && b <= 0x3F) || (0x5B <= b && b <= 0x5D) || b == 0x7C)
}

/// Encodes one character of a short name.
pub fn encode_character<E: CodePageEncoder>(encoder: &E, character: char) -> (r: Result<
    u8,
    ShortFileNameError,
>)
    ensures
        r == encoded_character(encoder, character),
{
    if !is_valid_short_name_character(character) {
        return Err(ShortFileNameError::CharacterNotAllowed(character));
    }
    let upper = encoder.uppercase(character);
    match encoder.encode(upper) {
        Err(e) => Err(ShortFileNameError::EncoderError(e)),
        Ok(b) => {
            if !is_valid_encoded_character(b) {
                Err(ShortFileNameError::EncodedCharacterByteNotAllowed(character))
            } else {
                Ok(b)
            }
        },
    }
}

impl ShortFileNameError {
    /// A human-readable description of the error.
    pub fn to_string(&self) -> (r: String)
        ensures
            r@.len() > 0,
    {
        match self {
            ShortFileNameError::CharacterNotAllowed(_) => {
                proof {
                    reveal_strlit("a character is not allowed in short names");
                }
                "a character is not allowed in short names".to_owned()
            },
            ShortFileNameError::EncodedCharacterByteNotAllowed(_) => {
                proof {
                    reveal_strlit("a character encodes to a byte that short names do not allow");
                }
                "a character encodes to a byte that short names do not allow".to_owned()
            },
            ShortFileNameError::EncoderError(_) => {
                proof {
                    reveal_strlit("a character has no encoding in the code page");
                }
                "a character has no encoding in the code page".to_owned()
            },
            ShortFileNameError::ExtensionTooLong => {
                proof {
                    reveal_strlit("extension is too long");
                }
                "extension is too long".to_owned()
            },
            ShortFileNameError::InputEmpty => {
                proof {
                    reveal_strlit("input string is empty");
                }
                "input string is empty".to_owned()
            },
            ShortFileNameError::NameEmpty => {
                proof {
                    reveal_strlit("name component is empty");
                }
                "name component is empty".to_owned()
            },
            ShortFileNameError::NameStartsWithSpace => {
                proof {
                    reveal_strlit("name must not start with a space");
                }
                "name must not start with a space".to_owned()
            },
            ShortFileNameError::NameTooLong => {
                proof {
                    reveal_strlit("name is too long");
                }
                "name is too long".to_owned()
            },
        }
    }
}
} // verus!
