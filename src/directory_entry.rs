//! Raw 32-byte directory records: free slots, 8.3 short-name records and long-name records.
use vstd::prelude::*;
use crate::bios_parameter_block::DIRECTORY_ENTRY_SIZE;
use crate::encoding::{Ucs2Character, is_surrogate};
use crate::file_name::{ShortFileName, SHORT_NAME_CHARACTER_COUNT, short_name_byte_forbidden, short_name_checksum_of};
use crate::utils::{le_u16_at, le_u32_at, read_le_u16, read_le_u32, write_le_u16, write_le_u32};

verus! {

/// UCS-2 code units held by one long-name record.
pub const LONG_NAME_CHARACTERS_PER_ENTRY: usize = 13;

/// Most records of one long name: 255 units, 13 to a record.
pub const LONG_NAME_MAX_ENTRY_COUNT: u8 = 20;

/// Attribute bit: read only.
pub const ATTRIBUTE_READ_ONLY: u8 = 0x01;
/// Attribute bit: hidden.
pub const ATTRIBUTE_HIDDEN: u8 = 0x02;
/// Attribute bit: system.
pub const ATTRIBUTE_SYSTEM: u8 = 0x04;
/// Attribute bit: volume label.
pub const ATTRIBUTE_VOLUME_LABEL: u8 = 0x08;
/// Attribute bit: subdirectory.
pub const ATTRIBUTE_SUBDIRECTORY: u8 = 0x10;
/// Attribute bit: archive.
pub const ATTRIBUTE_ARCHIVE: u8 = 0x20;
/// The attribute value of every long-name record: the low four bits all set.
pub const ATTRIBUTE_LONG_NAME: u8 = 0x0F;

/// The attribute byte of a short-name record.
#[derive(Clone, Copy, Debug, PartialEq, Eq, Structural)]
pub struct DirectoryEntryAttributes {
    pub bits: u8,
}

impl DirectoryEntryAttributes {
    pub fn empty() -> (r: Self)
        ensures
            r.bits == 0,
    {
        DirectoryEntryAttributes { bits: 0 }
    }

    /// Keeps every bit of `bits`, known or not.
    pub fn from_bits_retain(bits: u8) -> (r: Self)
        ensures
            r.bits == bits,
    {
        DirectoryEntryAttributes { bits }
    }

    pub fn bits(&self) -> (r: u8)
        ensures
            r == self.bits,
    {
        self.bits
    }

    /// Whether every bit of `flags` is set.
    pub fn contains(&self, flags: u8) -> (r: bool)
        ensures
            r == (self.bits & flags == flags),
    {
        self.bits & flags == flags
    }
}

/// A record that holds no name.
#[derive(Clone, Copy, Debug, PartialEq, Eq, Structural)]
pub enum FreeDirectoryEntry {
    /// This record and every later one of the directory are free.
    AllFollowing,
    /// This record alone is free.
    CurrentOnly,
}

/// Why a short-name record is malformed.
#[derive(Clone, Copy, Debug, PartialEq, Eq, Structural)]
pub enum ShortNameDirectoryEntryError {
    NameCharacterInvalid { character: u8, offset: u8 },
}

/// Why a long-name record is malformed.
#[derive(Clone, Copy, Debug, PartialEq, Eq, Structural)]
pub enum LongNameDirectoryEntryError {
    EntryNumberInvalid,
    NameCharacterInvalid { character: u16, offset: u8 },
}

/// Why a directory record is malformed.
#[derive(Clone, Copy, Debug, PartialEq, Eq, Structural)]
pub enum DirectoryEntryError {
    ShortNameEntryInvalid(ShortNameDirectoryEntryError),
    LongNameEntryInvalid(LongNameDirectoryEntryError),
}

/// An 8.3 record: the name, its attributes, its first cluster and its size.
#[derive(Clone, Copy, Debug)]
pub struct ShortNameDirectoryEntry {
    pub name: ShortFileName,
    pub attributes: DirectoryEntryAttributes,
    pub first_cluster_number: u32,
    pub file_size: u32,
}

/// The name bytes as they stand in a record `b`, with a leading 0x05 read back as 0xE5.
pub open spec fn stored_name_bytes(b: Seq<u8>) -> Seq<u8> {
    Seq::new(11, |k: int| if k == 0 && b[0] == 0x05 { 0xE5u8 } else { b[k] })
}

/// The first index of `name` that holds a forbidden byte, if any, scanning from `i`.
pub open spec fn first_forbidden_from(name: Seq<u8>, i: int) -> Option<int>
    decreases name.len() - i,
{
    if i < 0 || i >= name.len() {
        None
    } else if short_name_byte_forbidden(name[i]) {
        Some(i)
    } else {
        first_forbidden_from(name, i + 1)
    }
}

/// Cluster number assembled from the high half at byte 20 and the low half at byte 26.
pub open spec fn record_first_cluster(b: Seq<u8>) -> u32 {
    (le_u16_at(b, 20) * 65536 + le_u16_at(b, 26)) as u32
}

/// Why the short-name record `b` is malformed, if it is.
pub open spec fn short_entry_error(b: Seq<u8>) -> Option<ShortNameDirectoryEntryError> {
    let name = stored_name_bytes(b);
    match first_forbidden_from(name, 0) {
        Some(i) => Some(
            ShortNameDirectoryEntryError::NameCharacterInvalid { character: name[i], offset: i as u8 },
        ),
        None => None,
    }
}

/// Whether `e` is what the well-formed short-name record `b` decodes to.
pub open spec fn short_entry_decodes_to(b: Seq<u8>, e: ShortNameDirectoryEntry) -> bool {
    &&& e.name.bytes@ == stored_name_bytes(b)
    &&& e.attributes.bits == b[11]
    &&& e.first_cluster_number == record_first_cluster(b)
    &&& e.file_size == le_u32_at(b, 28)
}

impl ShortNameDirectoryEntry {
    pub fn new(
        name: ShortFileName,
        attributes: DirectoryEntryAttributes,
        first_cluster_number: u32,
        file_size: u32,
    ) -> (r: Self)
        ensures
            r.name == name,
            r.attributes == attributes,
            r.first_cluster_number == first_cluster_number,
            r.file_size == file_size,
    {
        Self { name, attributes, first_cluster_number, file_size }
    }

    /// Decodes a short-name record; every name byte must be one that short names allow.
    pub fn from_bytes(data: &[u8; DIRECTORY_ENTRY_SIZE]) -> (r: Result<
        Self,
        ShortNameDirectoryEntryError,
    >)
        ensures
            short_entry_error(data@) is None <==> r is Ok,
            r is Err ==> short_entry_error(data@) == Some(r->Err_0),
            r is Ok ==> short_entry_decodes_to(data@, r->Ok_0),
    {
        let mut name_bytes = [0u8; SHORT_NAME_CHARACTER_COUNT];
        let mut i: usize = 0;
        while i < SHORT_NAME_CHARACTER_COUNT
            invariant
                i <= 11,
                data@.len() == 32,
                forall|k: int| 0 <= k < i ==> name_bytes@[k] == data@[k],
            decreases 11 - i,
        {
            name_bytes[i] = data[i];
            i = i + 1;
        }
        if name_bytes[0] == 0x05 {
            name_bytes[0] = 0xE5;
        }
        assert(name_bytes@ =~= stored_name_bytes(data@));
        let mut i: usize = 0;
        while i < SHORT_NAME_CHARACTER_COUNT
            invariant
                i <= 11,
                name_bytes@ == stored_name_bytes(data@),
                first_forbidden_from(name_bytes@, 0) == first_forbidden_from(name_bytes@, i as int),
            decreases 11 - i,
        {
            if !crate::file_name::is_valid_encoded_character(name_bytes[i]) {
                return Err(
                    ShortNameDirectoryEntryError::NameCharacterInvalid {
                        character: name_bytes[i],
                        offset: i as u8,
                    },
                );
            }
            i = i + 1;
        }
        let high = read_le_u16(data, 20) as u32;
        let low = read_le_u16(data, 26) as u32;
        Ok(
            Self {
                name: ShortFileName::new(name_bytes),
                attributes: DirectoryEntryAttributes::from_bits_retain(data[11]),
                first_cluster_number: high * 65536 + low,
                file_size: read_le_u32(data, 28),
            },
        )
    }

    pub fn name(&self) -> (r: &ShortFileName)
        ensures
            *r == self.name,
    {
        &self.name
    }

    /// Whether the record describes a subdirectory.
    pub fn is_directory(&self) -> (r: bool)
        ensures
            r == (self.attributes.bits & ATTRIBUTE_SUBDIRECTORY == ATTRIBUTE_SUBDIRECTORY),
    {
        self.attributes.contains(ATTRIBUTE_SUBDIRECTORY)
    }

    pub fn first_cluster_number(&self) -> (r: u32)
        ensures
            r == self.first_cluster_number,
    {
        self.first_cluster_number
    }

    pub fn file_size(&self) -> (r: u32)
        ensures
            r == self.file_size,
    {
        self.file_size
    }

    /// Stores the record into `bytes`; a leading 0xE5 of the name is stored as 0x05, and
    /// the bytes of fields that are not modelled keep their value.
    pub fn write(&self, bytes: &mut [u8; DIRECTORY_ENTRY_SIZE])
        ensures
            short_entry_written(old(bytes)@, final(bytes)@, *self),
    {
        let mut i: usize = 0;
        while i < SHORT_NAME_CHARACTER_COUNT
            invariant
                i <= 11,
                bytes@.len() == 32,
                forall|k: int| 0 <= k < i ==> bytes@[k] == self.name.bytes@[k],
                forall|k: int| 11 <= k < 32 ==> bytes@[k] == old(bytes)@[k],
            decreases 11 - i,
        {
            bytes[i] = self.name.bytes[i];
            i = i + 1;
        }
        if bytes[0] == 0xE5 {
            bytes[0] = 0x05;
        }
        bytes[11] = self.attributes.bits;
        write_le_u16(bytes, 20, (self.first_cluster_number / 65536) as u16);
        write_le_u16(bytes, 26, (self.first_cluster_number % 65536) as u16);
        write_le_u32(bytes, 28, self.file_size);
    }
}

/// Whether `after` is the record `before` with `e` stored into it.
pub open spec fn short_entry_written(before: Seq<u8>, after: Seq<u8>, e: ShortNameDirectoryEntry) -> bool {
    &&& after.len() == 32
    &&& forall|k: int|
        1 <= k < 11 ==> after[k] == e.name.bytes@[k]
    &&& after[0] == (if e.name.bytes@[0] == 0xE5 { 0x05u8 } else { e.name.bytes@[0] })
    &&& after[11] == e.attributes.bits
    &&& le_u16_at(after, 20) == e.first_cluster_number / 65536
    &&& le_u16_at(after, 26) == e.first_cluster_number % 65536
    &&& le_u32_at(after, 28) == e.file_size
    &&& forall|k: int| (12 <= k < 20 || 22 <= k < 26) ==> after[k] == before[k]
}

/// Byte offset in a long-name record of its code unit `i`: units 0-4 from byte 1, units 5-10
/// from byte 14, units 11-12 from byte 28.
pub open spec fn long_name_unit_offset(i: int) -> int {
    if i < 5 {
        1 + 2 * i
    } else if i < 11 {
        14 + 2 * (i - 5)
    } else {
        28 + 2 * (i - 11)
    }
}

/// The first code unit of the long-name record `b` from index `i` that is a surrogate.
pub open spec fn first_surrogate_from(b: Seq<u8>, i: int) -> Option<int>
    decreases 13 - i,
{
    if i < 0 || i >= 13 {
        None
    } else if is_surrogate(le_u16_at(b, long_name_unit_offset(i)) as u16) {
        Some(i)
    } else {
        first_surrogate_from(b, i + 1)
    }
}

/// Why the long-name record `b` is malformed, if it is.
pub open spec fn long_entry_error(b: Seq<u8>) -> Option<LongNameDirectoryEntryError> {
    let number = b[0] % 64;
    if !(1 <= number <= 20) {
        Some(LongNameDirectoryEntryError::EntryNumberInvalid)
    } else {
        match first_surrogate_from(b, 0) {
            Some(i) => Some(
                LongNameDirectoryEntryError::NameCharacterInvalid {
                    character: le_u16_at(b, long_name_unit_offset(i)) as u16,
                    offset: i as u8,
                },
            ),
            None => None,
        }
    }
}

/// A long-name record: its order byte, 13 code units of the name and the checksum of the
/// short name that it belongs to.
#[derive(Clone, Copy, Debug)]
pub struct LongNameDirectoryEntry {
    pub order_byte: u8,
    pub ucs2_characters: [Ucs2Character; LONG_NAME_CHARACTERS_PER_ENTRY],
    pub short_name_checksum: u8,
}

/// The code units of a long-name record.
pub open spec fn units_of(e: LongNameDirectoryEntry) -> Seq<u16> {
    e.ucs2_characters@.map_values(|c: Ucs2Character| c@)
}

/// Whether `e` is what the well-formed long-name record `b` decodes to.
pub open spec fn long_entry_decodes_to(b: Seq<u8>, e: LongNameDirectoryEntry) -> bool {
    &&& e.order_byte == b[0]
    &&& e.short_name_checksum == b[13]
    &&& forall|i: int|
        0 <= i < 13 ==> #[trigger] units_of(e)[i] == le_u16_at(b, long_name_unit_offset(i))
}

/// Whether `after` is the record `before` with `e` stored into it.
pub open spec fn long_entry_written(before: Seq<u8>, after: Seq<u8>, e: LongNameDirectoryEntry) -> bool {
    &&& after.len() == 32
    &&& after[0] == e.order_byte
    &&& after[11] == before[11] | ATTRIBUTE_LONG_NAME
    &&& after[13] == e.short_name_checksum
    &&& forall|i: int|
        0 <= i < 13 ==> le_u16_at(after, long_name_unit_offset(i)) == #[trigger] units_of(e)[i]
    &&& after[12] == before[12]
    &&& after[26] == before[26]
    &&& after[27] == before[27]
}

impl LongNameDirectoryEntry {
    pub fn new(
        order_byte: u8,
        ucs2_characters: [Ucs2Character; LONG_NAME_CHARACTERS_PER_ENTRY],
        short_name_checksum: u8,
    ) -> (r: Self)
        ensures
            r.order_byte == order_byte,
            r.ucs2_characters == ucs2_characters,
            r.short_name_checksum == short_name_checksum,
    {
        Self { order_byte, ucs2_characters, short_name_checksum }
    }

    /// Decodes a long-name record: its sequence number must lie in 1..=20 and no code unit
    /// may be a surrogate.
    pub fn from_bytes(data: &[u8; DIRECTORY_ENTRY_SIZE]) -> (r: Result<
        LongNameDirectoryEntry,
        LongNameDirectoryEntryError,
    >)
        ensures
            long_entry_error(data@) is None <==> r is Ok,
            r is Err ==> long_entry_error(data@) == Some(r->Err_0),
            r is Ok ==> long_entry_decodes_to(data@, r->Ok_0),
    {
        let order_byte = data[0];
        let number = order_byte & 0x3F;
        assert(order_byte & 0x3F == order_byte % 64) by (bit_vector);
        if !(1 <= number && number <= LONG_NAME_MAX_ENTRY_COUNT) {
            return Err(LongNameDirectoryEntryError::EntryNumberInvalid);
        }
        let mut ucs2_characters = [Ucs2Character::null(); LONG_NAME_CHARACTERS_PER_ENTRY];
        let mut character_index: usize = 0;
        while character_index < LONG_NAME_CHARACTERS_PER_ENTRY
            invariant
                character_index <= 13,
                data@.len() == 32,
                1 <= data@[0] % 64 <= 20,
                first_surrogate_from(data@, 0) == first_surrogate_from(
                    data@,
                    character_index as int,
                ),
                forall|k: int|
                    0 <= k < character_index ==> ucs2_characters@[k]@ == le_u16_at(
                        data@,
                        long_name_unit_offset(k),
                    ),
            decreases 13 - character_index,
        {
            let byte_index: usize = if character_index < 5 {
                character_index * 2 + 1
            } else if character_index < 11 {
                (character_index - 5) * 2 + 14
            } else {
                (character_index - 11) * 2 + 28
            };
            let codepoint = read_le_u16(data, byte_index);
            match Ucs2Character::from_u16(codepoint) {
                Some(c) => {
                    ucs2_characters[character_index] = c;
                },
                None => {
                    return Err(
                        LongNameDirectoryEntryError::NameCharacterInvalid {
                            character: codepoint,
                            offset: character_index as u8,
                        },
                    );
                },
            }
            character_index = character_index + 1;
        }
        Ok(Self { order_byte: data[0], ucs2_characters, short_name_checksum: data[13] })
    }

    /// Whether this is the record of the highest sequence number of its name.
    pub fn is_last_entry(&self) -> (r: bool)
        ensures
            r == ((self.order_byte / 64) % 2 == 1),
    {
        let order_byte = self.order_byte;
        assert((order_byte & 0x40 > 0) == ((order_byte / 64) % 2 == 1)) by (bit_vector);
        order_byte & 0x40 > 0
    }

    /// The 1-based sequence number of this record within its name.
    pub fn entry_number(&self) -> (r: u8)
        ensures
            r == self.order_byte % 64,
    {
        let order_byte = self.order_byte;
        assert(order_byte & 0x3F == order_byte % 64) by (bit_vector);
        order_byte & 0x3F
    }

    pub fn short_name_checksum(&self) -> (r: u8)
        ensures
            r == self.short_name_checksum,
    {
        self.short_name_checksum
    }

    pub fn ucs2_characters(&self) -> (r: &[Ucs2Character; LONG_NAME_CHARACTERS_PER_ENTRY])
        ensures
            *r == self.ucs2_characters,
    {
        &self.ucs2_characters
    }

    /// Stores the record into `bytes`, marks it as a long-name record, and keeps the bytes
    /// that it does not use.
    pub fn write(&self, bytes: &mut [u8; DIRECTORY_ENTRY_SIZE])
        ensures
            long_entry_written(old(bytes)@, final(bytes)@, *self),
    {
        bytes[0] = self.order_byte;
        let mut i: usize = 0;
        while i < LONG_NAME_CHARACTERS_PER_ENTRY
            invariant
                i <= 13,
                bytes@.len() == 32,
                bytes@[0] == self.order_byte,
                forall|k: int|
                    0 <= k < i ==> le_u16_at(bytes@, long_name_unit_offset(k)) == units_of(
                        *self,
                    )[k],
                bytes@[11] == old(bytes)@[11],
                bytes@[12] == old(bytes)@[12],
                bytes@[26] == old(bytes)@[26],
                bytes@[27] == old(bytes)@[27],
            decreases 13 - i,
        {
            let byte_index: usize = if i < 5 {
                i * 2 + 1
            } else if i < 11 {
                (i - 5) * 2 + 14
            } else {
                (i - 11) * 2 + 28
            };
            write_le_u16(bytes, byte_index, self.ucs2_characters[i].to_u16());
            i = i + 1;
        }
        bytes[11] = bytes[11] | ATTRIBUTE_LONG_NAME;
        bytes[13] = self.short_name_checksum;
    }
}

/// One decoded directory record.
#[derive(Clone, Copy, Debug)]
pub enum DirectoryEntry {
    Free(FreeDirectoryEntry),
    ShortName(ShortNameDirectoryEntry),
    LongName(LongNameDirectoryEntry),
}

/// Whether the attribute byte marks a long-name record.
pub open spec fn is_long_name_attribute(attributes: u8) -> bool {
    attributes & 0x0F == 0x0F
}

impl DirectoryEntry {
    /// Decodes one record: a first byte of 0x00 ends the directory, 0xE5 marks a free slot,
    /// an attribute byte with its low four bits set marks a long-name record, and anything
    /// else is a short-name record.
    pub fn from_bytes(entry_bytes: &[u8; DIRECTORY_ENTRY_SIZE]) -> (r: Result<
        DirectoryEntry,
        DirectoryEntryError,
    >)
        ensures
            entry_bytes@[0] == 0x00 ==> r == Ok::<DirectoryEntry, DirectoryEntryError>(
                DirectoryEntry::Free(FreeDirectoryEntry::AllFollowing),
            ),
            entry_bytes@[0] == 0xE5 ==> r == Ok::<DirectoryEntry, DirectoryEntryError>(
                DirectoryEntry::Free(FreeDirectoryEntry::CurrentOnly),
            ),
            entry_bytes@[0] != 0x00 && entry_bytes@[0] != 0xE5 && is_long_name_attribute(
                entry_bytes@[11],
            ) ==> match r {
                Ok(DirectoryEntry::LongName(e)) => long_entry_error(entry_bytes@) is None
                    && long_entry_decodes_to(entry_bytes@, e),
                Err(DirectoryEntryError::LongNameEntryInvalid(e)) => long_entry_error(
                    entry_bytes@,
                ) == Some(e),
                _ => false,
            },
            entry_bytes@[0] != 0x00 && entry_bytes@[0] != 0xE5 && !is_long_name_attribute(
                entry_bytes@[11],
            ) ==> match r {
                Ok(DirectoryEntry::ShortName(e)) => short_entry_error(entry_bytes@) is None
                    && short_entry_decodes_to(entry_bytes@, e),
                Err(DirectoryEntryError::ShortNameEntryInvalid(e)) => short_entry_error(
                    entry_bytes@,
                ) == Some(e),
                _ => false,
            },
    {
        if entry_bytes[0] == 0x00 {
            Ok(DirectoryEntry::Free(FreeDirectoryEntry::AllFollowing))
        } else if entry_bytes[0] == 0xE5 {
            Ok(DirectoryEntry::Free(FreeDirectoryEntry::CurrentOnly))
        } else if entry_bytes[11] & ATTRIBUTE_LONG_NAME == ATTRIBUTE_LONG_NAME {
            match LongNameDirectoryEntry::from_bytes(entry_bytes) {
                Ok(e) => Ok(DirectoryEntry::LongName(e)),
                Err(e) => Err(DirectoryEntryError::LongNameEntryInvalid(e)),
            }
        } else {
            match ShortNameDirectoryEntry::from_bytes(entry_bytes) {
                Ok(e) => Ok(DirectoryEntry::ShortName(e)),
                Err(e) => Err(DirectoryEntryError::ShortNameEntryInvalid(e)),
            }
        }
    }
}

/// A name with no forbidden byte from `i` on has no first forbidden index from `i`.
proof fn lemma_no_forbidden_from(name: Seq<u8>, i: int)
    requires
        0 <= i <= name.len(),
        forall|k: int| i <= k < name.len() ==> !short_name_byte_forbidden(name[k]),
    ensures
        first_forbidden_from(name, i) is None,
    decreases name.len() - i,
{
    if i < name.len() {
        lemma_no_forbidden_from(name, i + 1);
    }
}

/// Storing a short-name record and decoding it again gives back the same entry, and so the
/// same name checksum, for every name whose bytes short names allow.
pub proof fn lemma_short_entry_round_trip(
    e: ShortNameDirectoryEntry,
    before: Seq<u8>,
    after: Seq<u8>,
)
    requires
        before.len() == 32,
        short_entry_written(before, after, e),
        forall|k: int| 0 <= k < 11 ==> !short_name_byte_forbidden(#[trigger] e.name.bytes@[k]),
    ensures
        short_entry_error(after) is None,
        stored_name_bytes(after) == e.name.bytes@,
        forall|d: ShortNameDirectoryEntry|
            #[trigger] short_entry_decodes_to(after, d) ==> d.name.bytes@ == e.name.bytes@
                && d.attributes == e.attributes && d.first_cluster_number == e.first_cluster_number
                && d.file_size == e.file_size && short_name_checksum_of(d.name.bytes@)
                == short_name_checksum_of(e.name.bytes@),
{
    assert(!short_name_byte_forbidden(e.name.bytes@[0]));
    assert(stored_name_bytes(after) =~= e.name.bytes@);
    lemma_no_forbidden_from(e.name.bytes@, 0);
}

impl ShortNameDirectoryEntryError {
    /// A human-readable description of the error.
    pub fn to_string(&self) -> (r: String)
        ensures
            r@.len() > 0,
    {
        match self {
            ShortNameDirectoryEntryError::NameCharacterInvalid { .. } => {
                proof {
                    reveal_strlit("the short name holds a byte that short names do not allow");
                }
                "the short name holds a byte that short names do not allow".to_owned()
            },
        }
    }
}
impl LongNameDirectoryEntryError {
    /// A human-readable description of the error.
    pub fn to_string(&self) -> (r: String)
        ensures
            r@.len() > 0,
    {
        match self {
            LongNameDirectoryEntryError::EntryNumberInvalid => {
                proof {
                    reveal_strlit("the long name record's sequence number must lie between 1 and 20");
                }
                "the long name record's sequence number must lie between 1 and 20".to_owned()
            },
            LongNameDirectoryEntryError::NameCharacterInvalid { .. } => {
                proof {
                    reveal_strlit("the long name record holds a surrogate code unit");
                }
                "the long name record holds a surrogate code unit".to_owned()
            },
        }
    }
}
impl DirectoryEntryError {
    /// A human-readable description of the error.
    pub fn to_string(&self) -> (r: String)
        ensures
            r@.len() > 0,
    {
        match self {
            DirectoryEntryError::ShortNameEntryInvalid(_) => {
                proof {
                    reveal_strlit("the short name directory record is invalid");
                }
                "the short name directory record is invalid".to_owned()
            },
            DirectoryEntryError::LongNameEntryInvalid(_) => {
                proof {
                    reveal_strlit("the long name directory record is invalid");
                }
                "the long name directory record is invalid".to_owned()
            },
        }
    }
}
} // verus!
