//! The File Allocation Table: table kinds, raw and logical entries, and entry addressing.
use vstd::prelude::*;
use vstd::arithmetic::power2::{pow2, lemma2_to64};
use crate::utils::{le_u32_at, read_le_u32, write_le_u32};

verus! {

/// The three FAT variants, told apart by the number of data clusters.
#[derive(Clone, Copy, Debug, PartialEq, Eq, Structural)]
pub enum AllocationTableKind {
    Fat12,
    Fat16,
    Fat32,
}

/// The kind that a volume with `data_cluster_count` data clusters has.
pub open spec fn kind_for_cluster_count(data_cluster_count: int) -> AllocationTableKind {
    if data_cluster_count < 4085 {
        AllocationTableKind::Fat12
    } else if data_cluster_count < 65525 {
        AllocationTableKind::Fat16
    } else {
        AllocationTableKind::Fat32
    }
}

impl AllocationTableKind {
    /// Number of significant bits of one entry.
    pub open spec fn bit_width(self) -> nat {
        match self {
            AllocationTableKind::Fat12 => 12,
            AllocationTableKind::Fat16 => 16,
            AllocationTableKind::Fat32 => 28,
        }
    }

    /// The mask of the significant bits of an entry.
    pub open spec fn spec_entry_mask(self) -> u32 {
        match self {
            AllocationTableKind::Fat12 => 0x0000_0FFF,
            AllocationTableKind::Fat16 => 0x0000_FFFF,
            AllocationTableKind::Fat32 => 0x0FFF_FFFF,
        }
    }

    /// The entry value that marks a bad cluster.
    pub open spec fn spec_bad_sector_value(self) -> u32 {
        match self {
            AllocationTableKind::Fat12 => 0x0000_0FF7,
            AllocationTableKind::Fat16 => 0x0000_FFF7,
            AllocationTableKind::Fat32 => 0x0FFF_FFF7,
        }
    }

    /// The least entry value that marks the last cluster of a chain.
    pub open spec fn spec_end_of_chain_value(self) -> u32 {
        match self {
            AllocationTableKind::Fat12 => 0x0000_0FF8,
            AllocationTableKind::Fat16 => 0x0000_FFF8,
            AllocationTableKind::Fat32 => 0x0FFF_FFF8,
        }
    }

    /// Classifies a volume by its count of data clusters.
    pub fn new(data_cluster_count: u32) -> (r: AllocationTableKind)
        ensures
            r == kind_for_cluster_count(data_cluster_count as int),
    {
        if data_cluster_count < 4085 {
            AllocationTableKind::Fat12
        } else if data_cluster_count < 65525 {
            AllocationTableKind::Fat16
        } else {
            AllocationTableKind::Fat32
        }
    }

    /// The entry value that marks a bad cluster.
    pub fn bad_sector_value(&self) -> (r: u32)
        ensures
            r == self.spec_bad_sector_value(),
    {
        match self {
            AllocationTableKind::Fat12 => 0x0000_0FF7,
            AllocationTableKind::Fat16 => 0x0000_FFF7,
            AllocationTableKind::Fat32 => 0x0FFF_FFF7,
        }
    }

    /// The least entry value that marks the last cluster of a chain.
    pub fn end_of_chain_value(&self) -> (r: u32)
        ensures
            r == self.spec_end_of_chain_value(),
    {
        match self {
            AllocationTableKind::Fat12 => 0x0000_0FF8,
            AllocationTableKind::Fat16 => 0x0000_FFF8,
            AllocationTableKind::Fat32 => 0x0FFF_FFF8,
        }
    }

    /// The mask of the significant bits of an entry.
    pub fn entry_mask(self) -> (r: u32)
        ensures
            r == self.spec_entry_mask(),
    {
        let bit_count: u32 = match self {
            AllocationTableKind::Fat12 => 12,
            AllocationTableKind::Fat16 => 16,
            AllocationTableKind::Fat32 => 28,
        };
        let r = !(!0u32 << bit_count);
        assert(bit_count == 12 ==> !(!0u32 << bit_count) == 0x0FFFu32) by (bit_vector);
        assert(bit_count == 16 ==> !(!0u32 << bit_count) == 0xFFFFu32) by (bit_vector);
        assert(bit_count == 28 ==> !(!0u32 << bit_count) == 0x0FFF_FFFFu32) by (bit_vector);
        r
    }
}

/// One logical entry of the allocation table.
#[derive(Clone, Debug, PartialEq, Eq, Structural)]
pub enum AllocationTableEntry {
    Free,
    Reserved,
    NextClusterNumber(u32),
    EndOfFile,
    BadSector,
}

/// The logical meaning of the raw entry value `value` in a table of kind `kind`.
pub open spec fn entry_for_value(kind: AllocationTableKind, value: u32) -> AllocationTableEntry {
    if value == 0 {
        AllocationTableEntry::Free
    } else if value == 1 {
        AllocationTableEntry::Reserved
    } else if value < kind.spec_bad_sector_value() {
        AllocationTableEntry::NextClusterNumber(value)
    } else if value == kind.spec_bad_sector_value() {
        AllocationTableEntry::BadSector
    } else {
        AllocationTableEntry::EndOfFile
    }
}

/// The raw value that stands for `entry` in a table of kind `kind`.
pub open spec fn value_for_entry(kind: AllocationTableKind, entry: AllocationTableEntry) -> u32 {
    match entry {
        AllocationTableEntry::Free => 0,
        AllocationTableEntry::Reserved => 1,
        AllocationTableEntry::NextClusterNumber(n) => n,
        AllocationTableEntry::BadSector => kind.spec_bad_sector_value(),
        AllocationTableEntry::EndOfFile => kind.spec_end_of_chain_value(),
    }
}

impl AllocationTableEntry {
    /// Decodes the raw entry value `entry_value` of a table of kind `table_kind`.
    pub fn new(table_kind: AllocationTableKind, entry_value: u32) -> (r: Self)
        ensures
            r == entry_for_value(table_kind, entry_value),
    {
        if entry_value == 0 {
            AllocationTableEntry::Free
        } else if entry_value == 1 {
            AllocationTableEntry::Reserved
        } else if entry_value < table_kind.bad_sector_value() {
            AllocationTableEntry::NextClusterNumber(entry_value)
        } else if entry_value == table_kind.bad_sector_value() {
            AllocationTableEntry::BadSector
        } else {
            AllocationTableEntry::EndOfFile
        }
    }

    /// The raw entry that stands for this entry; `Err` when the value does not fit the
    /// kind's entry width.
    pub fn as_physical_entry(&self, table_kind: AllocationTableKind) -> (r: Result<
        PhysicalAllocationTableEntry,
        (),
    >)
        ensures
            value_for_entry(table_kind, *self) <= table_kind.spec_entry_mask() <==> r is Ok,
            r is Ok ==> r->Ok_0.table_kind == table_kind && r->Ok_0.value == value_for_entry(
                table_kind,
                *self,
            ),
    {
        let value = match self {
            AllocationTableEntry::Free => 0,
            AllocationTableEntry::Reserved => 1,
            AllocationTableEntry::NextClusterNumber(cluster_number) => *cluster_number,
            AllocationTableEntry::BadSector => table_kind.bad_sector_value(),
            AllocationTableEntry::EndOfFile => table_kind.end_of_chain_value(),
        };
        PhysicalAllocationTableEntry::new(table_kind, value)
    }
}

/// A cluster number that an entry may point to: never 0 or 1.
#[derive(Clone, Debug, PartialEq, Eq, Structural)]
pub struct AllocationTableEntryClusterNumber(pub u32);

impl AllocationTableEntryClusterNumber {
    /// Accepts `value` when it is at least 2.
    pub fn new(value: u32) -> (r: Result<Self, ()>)
        ensures
            value >= 2 <==> r is Ok,
            r is Ok ==> r->Ok_0.0 == value,
    {
        if value >= 2 {
            Ok(AllocationTableEntryClusterNumber(value))
        } else {
            Err(())
        }
    }

    /// The cluster number, when it lies below the bad-cluster marker of `table_kind`.
    pub fn value(&self, table_kind: AllocationTableKind) -> (r: Result<u32, ()>)
        ensures
            self.0 < table_kind.spec_bad_sector_value() <==> r is Ok,
            r is Ok ==> r->Ok_0 == self.0,
    {
        if self.0 < table_kind.bad_sector_value() {
            Ok(self.0)
        } else {
            Err(())
        }
    }
}

/// The raw value of an entry, as its significant bits stand in the table.
#[derive(Clone, Debug)]
pub struct PhysicalAllocationTableEntry {
    pub table_kind: AllocationTableKind,
    pub value: u32,
}

/// The four bytes of `bytes` read as one little-endian word.
pub open spec fn word_of(bytes: Seq<u8>) -> u32 {
    le_u32_at(bytes, 0) as u32
}

/// The entry value that the word `raw` holds for a table of kind `kind`; a FAT12 entry of an
/// odd cluster starts at the high nibble of its first byte.
pub open spec fn entry_value_in_word(kind: AllocationTableKind, raw: u32, is_nibble_offset: bool) -> u32 {
    if is_nibble_offset {
        (raw >> 4u32) & kind.spec_entry_mask()
    } else {
        raw & kind.spec_entry_mask()
    }
}

/// The bits of the word that the entry occupies.
pub open spec fn entry_bits_in_word(kind: AllocationTableKind, is_nibble_offset: bool) -> u32 {
    if is_nibble_offset {
        kind.spec_entry_mask() << 4u32
    } else {
        kind.spec_entry_mask()
    }
}

/// The word after storing `value` into the entry's bits of `raw`.
pub open spec fn word_with_entry(
    kind: AllocationTableKind,
    raw: u32,
    value: u32,
    is_nibble_offset: bool,
) -> u32 {
    let shifted = if is_nibble_offset { value << 4u32 } else { value };
    (raw & !entry_bits_in_word(kind, is_nibble_offset)) | shifted
}

impl PhysicalAllocationTableEntry {
    /// Accepts `value` when it fits in the entry mask of `table_kind`.
    pub fn new(table_kind: AllocationTableKind, value: u32) -> (r: Result<Self, ()>)
        ensures
            value <= table_kind.spec_entry_mask() <==> r is Ok,
            r is Ok ==> r->Ok_0.table_kind == table_kind && r->Ok_0.value == value,
    {
        if value <= table_kind.entry_mask() {
            Ok(Self { table_kind, value })
        } else {
            Err(())
        }
    }

    /// Extracts the entry from the four bytes at its address.
    pub fn from_bytes(table_kind: AllocationTableKind, bytes: &[u8; 4], is_nibble_offset: bool) -> (r: Self)
        requires
            is_nibble_offset ==> table_kind == AllocationTableKind::Fat12,
        ensures
            r.table_kind == table_kind,
            r.value == entry_value_in_word(table_kind, word_of(bytes@), is_nibble_offset),
    {
        let mut value = read_le_u32(bytes, 0);
        if is_nibble_offset {
            value = value >> 4u32;
        }
        Self { table_kind, value: value & table_kind.entry_mask() }
    }

    /// The logical meaning of this entry.
    pub fn as_logical_entry(&self) -> (r: AllocationTableEntry)
        ensures
            r == entry_for_value(self.table_kind, self.value),
    {
        AllocationTableEntry::new(self.table_kind, self.value)
    }

    /// Stores this entry into the four bytes at its address, keeping every bit of them that
    /// belongs to neighbouring entries.
    pub fn write(&self, bytes: &mut [u8; 4], is_nibble_offset: bool)
        requires
            is_nibble_offset ==> self.table_kind == AllocationTableKind::Fat12,
            self.value <= self.table_kind.spec_entry_mask(),
        ensures
            word_of(final(bytes)@) == word_with_entry(
                self.table_kind,
                word_of(old(bytes)@),
                self.value,
                is_nibble_offset,
            ),
    {
        let mut mask = self.table_kind.entry_mask();
        let mut entry_value = self.value;
        if is_nibble_offset {
            mask = mask << 4u32;
            entry_value = entry_value << 4u32;
        }
        let mut value = read_le_u32(bytes, 0);
        value = (value & !mask) | entry_value;
        write_le_u32(bytes, 0, value);
    }
}

/// A table of a given kind that starts at `base_address` on the device.
#[derive(Clone, Debug)]
pub struct AllocationTable {
    pub kind: AllocationTableKind,
    pub base_address: u32,
}

/// Where the entry of one cluster lies: its first byte, and for FAT12 whether it starts at
/// that byte's high nibble.
#[derive(Clone, Copy, Debug, PartialEq, Eq, Structural)]
pub struct AllocationTableEntryOffset {
    pub address: u64,
    pub is_nibble_offset: bool,
}

/// Byte offset of the entry of `cluster_number` from the start of a table of kind `kind`.
pub open spec fn entry_offset(kind: AllocationTableKind, cluster_number: int) -> int {
    match kind {
        AllocationTableKind::Fat12 => cluster_number + cluster_number / 2,
        AllocationTableKind::Fat16 => cluster_number * 2,
        AllocationTableKind::Fat32 => cluster_number * 4,
    }
}

/// Whether the entry of `cluster_number` starts at the high nibble of its first byte.
pub open spec fn entry_is_nibble_offset(kind: AllocationTableKind, cluster_number: int) -> bool {
    kind == AllocationTableKind::Fat12 && cluster_number % 2 == 1
}

impl AllocationTable {
    pub fn new(kind: AllocationTableKind, base_address: u32) -> (r: Self)
        ensures
            r.kind == kind,
            r.base_address == base_address,
    {
        Self { kind, base_address }
    }

    pub fn kind(&self) -> (r: AllocationTableKind)
        ensures
            r == self.kind,
    {
        self.kind
    }

    /// How many bytes hold one entry: 2 for FAT12 and FAT16, 4 for FAT32.
    pub fn entry_byte_count(&self) -> (r: usize)
        ensures
            r == (if self.kind == AllocationTableKind::Fat32 { 4usize } else { 2usize }),
    {
        match self.kind {
            AllocationTableKind::Fat12 | AllocationTableKind::Fat16 => 2,
            AllocationTableKind::Fat32 => 4,
        }
    }

    /// The device address of the entry of `cluster_number`.
    pub fn resolve_entry_address(&self, cluster_number: u32) -> (r: AllocationTableEntryOffset)
        ensures
            r.address == self.base_address + entry_offset(self.kind, cluster_number as int),
            r.is_nibble_offset == entry_is_nibble_offset(self.kind, cluster_number as int),
    {
        let c = cluster_number as u64;
        let address_offset: u64 = match self.kind {
            AllocationTableKind::Fat12 => c + (c / 2),
            AllocationTableKind::Fat16 => c * 2,
            AllocationTableKind::Fat32 => c * 4,
        };
        AllocationTableEntryOffset {
            address: self.base_address as u64 + address_offset,
            is_nibble_offset: matches!(self.kind, AllocationTableKind::Fat12) && cluster_number % 2
                == 1,
        }
    }

    /// The entry value held by the bytes read at an entry's address (bytes past the entry's
    /// width are ignored by the mask).
    pub fn resolve_entry_value(&self, entry_value_bytes: &[u8; 4], is_nibble_offset: bool) -> (r: u32)
        requires
            is_nibble_offset ==> self.kind == AllocationTableKind::Fat12,
        ensures
            r == entry_value_in_word(self.kind, word_of(entry_value_bytes@), is_nibble_offset),
    {
        PhysicalAllocationTableEntry::from_bytes(self.kind, entry_value_bytes, is_nibble_offset).value
    }

    /// Decodes the entry held by the bytes read at an entry's address.
    pub fn entry_from_bytes(&self, entry_value_bytes: &[u8; 4], is_nibble_offset: bool) -> (r:
        AllocationTableEntry)
        requires
            is_nibble_offset ==> self.kind == AllocationTableKind::Fat12,
        ensures
            r == entry_for_value(
                self.kind,
                entry_value_in_word(self.kind, word_of(entry_value_bytes@), is_nibble_offset),
            ),
    {
        AllocationTableEntry::new(self.kind, self.resolve_entry_value(entry_value_bytes, is_nibble_offset))
    }
}

/// Reading the entry of any cluster and writing the same value back yields that value again,
/// and the write leaves every bit of the word outside the entry's own bits as it was.
pub proof fn lemma_entry_write_round_trip(
    kind: AllocationTableKind,
    cluster_number: u32,
    source_word: u32,
    target_word: u32,
)
    requires
        cluster_number >= 2,
    ensures
        ({
            let nibble = entry_is_nibble_offset(kind, cluster_number as int);
            let value = entry_value_in_word(kind, source_word, nibble);
            let written = word_with_entry(kind, target_word, value, nibble);
            &&& value <= kind.spec_entry_mask()
            &&& entry_value_in_word(kind, written, nibble) == value
            &&& entry_for_value(kind, entry_value_in_word(kind, written, nibble)) == entry_for_value(
                kind,
                value,
            )
            &&& written & !entry_bits_in_word(kind, nibble) == target_word & !entry_bits_in_word(
                kind,
                nibble,
            )
        }),
{
    let s = source_word;
    let t = target_word;
    match kind {
        AllocationTableKind::Fat12 => {
            if cluster_number % 2 == 1 {
                assert(((s >> 4u32) & 0xFFFu32) <= 0xFFFu32) by (bit_vector);
                assert((((t & !(0xFFFu32 << 4u32)) | (((s >> 4u32) & 0xFFFu32) << 4u32)) >> 4u32)
                    & 0xFFFu32 == (s >> 4u32) & 0xFFFu32) by (bit_vector);
                assert(((t & !(0xFFFu32 << 4u32)) | (((s >> 4u32) & 0xFFFu32) << 4u32)) & !(
                0xFFFu32 << 4u32) == t & !(0xFFFu32 << 4u32)) by (bit_vector);
            } else {
                assert((s & 0xFFFu32) <= 0xFFFu32) by (bit_vector);
                assert(((t & !0xFFFu32) | (s & 0xFFFu32)) & 0xFFFu32 == s & 0xFFFu32)
                    by (bit_vector);
                assert(((t & !0xFFFu32) | (s & 0xFFFu32)) & !0xFFFu32 == t & !0xFFFu32)
                    by (bit_vector);
            }
        },
        AllocationTableKind::Fat16 => {
            assert((s & 0xFFFFu32) <= 0xFFFFu32) by (bit_vector);
            assert(((t & !0xFFFFu32) | (s & 0xFFFFu32)) & 0xFFFFu32 == s & 0xFFFFu32)
                by (bit_vector);
            assert(((t & !0xFFFFu32) | (s & 0xFFFFu32)) & !0xFFFFu32 == t & !0xFFFFu32)
                by (bit_vector);
        },
        AllocationTableKind::Fat32 => {
            assert((s & 0x0FFF_FFFFu32) <= 0x0FFF_FFFFu32) by (bit_vector);
            assert(((t & !0x0FFF_FFFFu32) | (s & 0x0FFF_FFFFu32)) & 0x0FFF_FFFFu32 == s
                & 0x0FFF_FFFFu32) by (bit_vector);
            assert(((t & !0x0FFF_FFFFu32) | (s & 0x0FFF_FFFFu32)) & !0x0FFF_FFFFu32 == t
                & !0x0FFF_FFFFu32) by (bit_vector);
        },
    }
}

/// A logical entry survives the trip through its raw value, provided that a cluster link
/// names a data cluster below the bad-cluster marker.
pub proof fn lemma_logical_entry_round_trip(kind: AllocationTableKind, entry: AllocationTableEntry)
    requires
        entry matches AllocationTableEntry::NextClusterNumber(n) ==> 2 <= n
            < kind.spec_bad_sector_value(),
    ensures
        value_for_entry(kind, entry) <= kind.spec_entry_mask(),
        entry_for_value(kind, value_for_entry(kind, entry)) == entry,
{
}

/// The kind of a volume is fixed by its data cluster count, with Fat16 starting at 4085
/// clusters and Fat32 at 65525.
pub proof fn lemma_kind_boundaries()
    ensures
        kind_for_cluster_count(0) == AllocationTableKind::Fat12,
        kind_for_cluster_count(4084) == AllocationTableKind::Fat12,
        kind_for_cluster_count(4085) == AllocationTableKind::Fat16,
        kind_for_cluster_count(65524) == AllocationTableKind::Fat16,
        kind_for_cluster_count(65525) == AllocationTableKind::Fat32,
        forall|n: int| 0 <= n < 4085 ==> kind_for_cluster_count(n) == AllocationTableKind::Fat12,
        forall|n: int|
            4085 <= n < 65525 ==> kind_for_cluster_count(n) == AllocationTableKind::Fat16,
        forall|n: int| 65525 <= n ==> kind_for_cluster_count(n) == AllocationTableKind::Fat32,
{
}

/// For every kind the bad-cluster marker lies below the end-of-chain threshold, which lies
/// within the entry mask, and the mask is `2^bits - 1` for the kind's 12, 16 or 28 bits.
pub proof fn lemma_kind_sentinels(kind: AllocationTableKind)
    ensures
        1 < kind.spec_bad_sector_value(),
        kind.spec_bad_sector_value() < kind.spec_end_of_chain_value(),
        kind.spec_end_of_chain_value() <= kind.spec_entry_mask(),
        kind.spec_entry_mask() as int == pow2(kind.bit_width()) - 1,
        kind.bit_width() == 12 || kind.bit_width() == 16 || kind.bit_width() == 28,
{
    lemma2_to64();
}

} // verus!
