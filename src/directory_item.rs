//! Directory items: a short-name record together with the long name that its preceding
//! long-name records spell, checked for order and checksum.
use vstd::prelude::*;
use crate::directory_entry::{
    ATTRIBUTE_SUBDIRECTORY, DirectoryEntry, DirectoryEntryError, FreeDirectoryEntry, LongNameDirectoryEntry, ShortNameDirectoryEntry, units_of,
};
use crate::encoding::{CodePageEncoder, Ucs2Character};
use crate::encoding::fold_of;
use crate::file_name::{
    LONG_NAME_MAX_LENGTH, LongFileName, ShortFileName, long_name_error, long_name_units,
    long_name_error_from, long_name_character_forbidden,
    long_names_match, short_name_bytes, short_name_checksum_of, short_name_error,
};

verus! {

/// Why a run of records does not form a valid item.
#[derive(Clone, Copy, Debug, PartialEq, Eq, Structural)]
pub enum DirectoryItemError {
    LongNameCorrupted,
    LongNameEntryNumberWrong,
    LongNameEmpty,
    LongNameFirstEntryInvalid,
    LongNameOrphaned,
    LongNameShortNameChecksumInconsistent,
    LongNameTooLong,
    ShortNameChecksumMismatch,
}

/// What the first long-name record of an item fixed: the number of records and the checksum.
#[derive(Clone, Copy, Debug, PartialEq, Eq, Structural)]
pub struct LongNameState {
    pub entry_count: u8,
    pub short_name_checksum: u8,
}

impl LongNameState {
    pub fn new(entry_count: u8, short_name_checksum: u8) -> (r: LongNameState)
        ensures
            r.entry_count == entry_count,
            r.short_name_checksum == short_name_checksum,
    {
        Self { entry_count, short_name_checksum }
    }
}

/// The padding unit that follows the null terminator of a long name.
pub const LONG_NAME_PADDING: u16 = 0xFFFF;

/// Copies the code units of one record, from unit `ci` on, into the name `name` at `offset`.
/// Only the first record of an item may hold the null terminator, never as its first unit, and
/// only padding may follow it; units that would land past the 255th are an error unless they
/// are the terminator or padding.
pub open spec fn scan_units(
    units: Seq<u16>,
    ci: int,
    null_seen: bool,
    is_first: bool,
    offset: int,
    name: Seq<u16>,
) -> Result<Seq<u16>, DirectoryItemError>
    decreases 13 - ci,
{
    if ci < 0 || ci >= 13 {
        Ok(name)
    } else if null_seen {
        if units[ci] != LONG_NAME_PADDING {
            Err(DirectoryItemError::LongNameCorrupted)
        } else {
            scan_units(units, ci + 1, true, is_first, offset, name)
        }
    } else if units[ci] == 0 {
        if !is_first {
            Err(DirectoryItemError::LongNameCorrupted)
        } else if ci == 0 {
            Err(DirectoryItemError::LongNameEmpty)
        } else if offset + ci >= 255 {
            scan_units(units, ci + 1, true, is_first, offset, name)
        } else {
            scan_units(units, ci + 1, true, is_first, offset, name.update(offset + ci, 0))
        }
    } else if offset + ci >= 255 {
        Err(DirectoryItemError::LongNameTooLong)
    } else {
        scan_units(units, ci + 1, false, is_first, offset, name.update(offset + ci, units[ci]))
    }
}

/// Accumulates the long-name records of one item.
#[derive(Clone, Copy, Debug)]
pub struct DirectoryItemBuilder {
    pub current_entry_index: u8,
    pub long_name: [Ucs2Character; LONG_NAME_MAX_LENGTH],
    pub long_name_state: Option<LongNameState>,
}

/// The code units gathered so far.
pub open spec fn builder_units(b: DirectoryItemBuilder) -> Seq<u16> {
    b.long_name@.map_values(|c: Ucs2Character| c@)
}

/// The state that an item has after its long-name record `e`.
pub open spec fn state_after(b: DirectoryItemBuilder, e: LongNameDirectoryEntry) -> LongNameState {
    match b.long_name_state {
        Some(s) => s,
        None => LongNameState {
            entry_count: e.order_byte % 64,
            short_name_checksum: e.short_name_checksum,
        },
    }
}

/// The order and checksum checks on the long-name record `e` added to `b`.
pub open spec fn header_error(b: DirectoryItemBuilder, e: LongNameDirectoryEntry) -> Option<
    DirectoryItemError,
> {
    let is_last = (e.order_byte / 64) % 2 == 1;
    let state = state_after(b, e);
    if b.current_entry_index == 0 && !is_last {
        Some(DirectoryItemError::LongNameFirstEntryInvalid)
    } else if b.current_entry_index != 0 && is_last {
        Some(DirectoryItemError::LongNameOrphaned)
    } else if !(1 <= e.order_byte % 64 <= 20) || e.order_byte % 64 != state.entry_count
        - b.current_entry_index {
        Some(DirectoryItemError::LongNameEntryNumberWrong)
    } else if e.short_name_checksum != state.short_name_checksum {
        Some(DirectoryItemError::LongNameShortNameChecksumInconsistent)
    } else {
        None
    }
}

/// The name units after adding the record `e` to `b`, or the error.
pub open spec fn add_entry_result(b: DirectoryItemBuilder, e: LongNameDirectoryEntry) -> Result<
    Seq<u16>,
    DirectoryItemError,
> {
    match header_error(b, e) {
        Some(err) => Err(err),
        None => scan_units(
            units_of(e),
            0,
            false,
            b.current_entry_index == 0,
            ((e.order_byte % 64) - 1) * 13,
            builder_units(b),
        ),
    }
}

/// A builder holds its state exactly when it has taken a record, and has taken no more
/// records than its first one announced.
pub open spec fn builder_wf(b: DirectoryItemBuilder) -> bool {
    &&& (b.current_entry_index == 0 <==> b.long_name_state is None)
    &&& b.long_name_state matches Some(s) ==> b.current_entry_index <= s.entry_count
}

impl DirectoryItemBuilder {
    pub fn new() -> (r: DirectoryItemBuilder)
        ensures
            r.current_entry_index == 0,
            r.long_name_state is None,
            builder_units(r) == Seq::new(255, |i: int| 0u16),
            builder_wf(r),
    {
        let r = Self {
            current_entry_index: 0,
            long_name: [Ucs2Character::null(); LONG_NAME_MAX_LENGTH],
            long_name_state: None,
        };
        assert(builder_units(r) =~= Seq::new(255, |i: int| 0u16));
        r
    }

    /// Takes the next long-name record of the item.
    pub fn add_long_name_entry(self, entry: LongNameDirectoryEntry) -> (r: Result<
        Self,
        DirectoryItemError,
    >)
        requires
            builder_wf(self),
        ensures
            add_entry_result(self, entry) is Ok <==> r is Ok,
            r is Err ==> add_entry_result(self, entry) == Err::<Seq<u16>, DirectoryItemError>(
                r->Err_0,
            ),
            r matches Ok(b) ==> {
                &&& builder_units(b) == add_entry_result(self, entry)->Ok_0
                &&& b.current_entry_index == self.current_entry_index + 1
                &&& b.long_name_state == Some(state_after(self, entry))
                &&& builder_wf(b)
            },
    {
        let ghost old_self = self;
        let mut builder = self;
        let is_last = entry.is_last_entry();
        if builder.current_entry_index == 0 {
            if !is_last {
                return Err(DirectoryItemError::LongNameFirstEntryInvalid);
            }
        } else {
            if is_last {
                return Err(DirectoryItemError::LongNameOrphaned);
            }
        }
        let state = match builder.long_name_state {
            Some(s) => s,
            None => LongNameState::new(entry.entry_number(), entry.short_name_checksum()),
        };
        builder.long_name_state = Some(state);
        let number = entry.entry_number();
        if number == 0 || number > 20 || number as u16 + builder.current_entry_index as u16
            != state.entry_count as u16 {
            return Err(DirectoryItemError::LongNameEntryNumberWrong);
        }
        if entry.short_name_checksum() != state.short_name_checksum {
            return Err(DirectoryItemError::LongNameShortNameChecksumInconsistent);
        }
        let is_first = builder.current_entry_index == 0;
        let long_name_offset: usize = (number as usize - 1) * 13;
        let mut null_encountered = false;
        let mut character_index: usize = 0;
        while character_index < 13
            invariant
                character_index <= 13,
                1 <= number <= 20,
                long_name_offset == (number - 1) * 13,
                is_first == (old_self.current_entry_index == 0),
                old_self == self,
                number == entry.order_byte % 64,
                header_error(old_self, entry) is None,
                add_entry_result(old_self, entry) == scan_units(
                    units_of(entry),
                    character_index as int,
                    null_encountered,
                    is_first,
                    long_name_offset as int,
                    builder_units(builder),
                ),
                builder.current_entry_index == old_self.current_entry_index,
                builder.long_name_state == Some(state_after(old_self, entry)),
            decreases 13 - character_index,
        {
            let ghost before = builder_units(builder);
            let character = entry.ucs2_characters[character_index];
            let unit = character.to_u16();
            assert(unit == units_of(entry)[character_index as int]);
            let long_name_index = long_name_offset + character_index;
            if null_encountered {
                if unit != LONG_NAME_PADDING {
                    return Err(DirectoryItemError::LongNameCorrupted);
                }
            } else if unit == 0 {
                if !is_first {
                    return Err(DirectoryItemError::LongNameCorrupted);
                }
                if character_index == 0 {
                    return Err(DirectoryItemError::LongNameEmpty);
                }
                null_encountered = true;
                if long_name_index < LONG_NAME_MAX_LENGTH {
                    builder.long_name[long_name_index] = character;
                    assert(builder_units(builder) =~= before.update(long_name_index as int, 0));
                }
            } else {
                if long_name_index >= LONG_NAME_MAX_LENGTH {
                    return Err(DirectoryItemError::LongNameTooLong);
                }
                builder.long_name[long_name_index] = character;
                assert(builder_units(builder) =~= before.update(long_name_index as int, unit));
            }
            character_index = character_index + 1;
        }
        builder.current_entry_index = builder.current_entry_index + 1;
        Ok(builder)
    }
}

impl DirectoryItemBuilder {
    /// Completes the item with its short-name record: the long name, if any, must have all
    /// its records and carry the short name's checksum.
    pub fn build(self, entry: ShortNameDirectoryEntry) -> (r: Result<
        DirectoryItem,
        DirectoryItemError,
    >)
        ensures
            self.long_name_state is None ==> (r matches Ok(item) && item.short_directory_entry
                == entry && item.long_name is None),
            self.long_name_state matches Some(s) ==> {
                if self.current_entry_index != s.entry_count {
                    r == Err::<DirectoryItem, DirectoryItemError>(
                        DirectoryItemError::LongNameOrphaned,
                    )
                } else if short_name_checksum_of(entry.name.bytes@) != s.short_name_checksum {
                    r == Err::<DirectoryItem, DirectoryItemError>(
                        DirectoryItemError::ShortNameChecksumMismatch,
                    )
                } else {
                    (r matches Ok(item) && item.short_directory_entry == entry && (
                    item.long_name matches Some(name) && name@ == builder_units(self)))
                }
            },
    {
        match self.long_name_state {
            Some(state) => {
                if self.current_entry_index != state.entry_count {
                    return Err(DirectoryItemError::LongNameOrphaned);
                }
                if entry.name.checksum() != state.short_name_checksum {
                    return Err(DirectoryItemError::ShortNameChecksumMismatch);
                }
                Ok(DirectoryItem::new(entry, Some(LongFileName::new(self.long_name))))
            },
            None => Ok(DirectoryItem::new(entry, None)),
        }
    }
}

/// One visible directory item: its short-name record and, when it has one, its long name.
#[derive(Clone, Copy, Debug)]
pub struct DirectoryItem {
    pub short_directory_entry: ShortNameDirectoryEntry,
    pub long_name: Option<LongFileName>,
}

/// Whether an item with short name bytes `short` and long name `long` answers to `s`: the
/// long name is tried first, then the short name through `encoder`.
pub open spec fn item_matches<E: CodePageEncoder>(
    encoder: &E,
    short: Seq<u8>,
    long: Option<Seq<u16>>,
    s: Seq<char>,
) -> bool {
    ||| (long matches Some(l) && long_name_error(s) is None && long_names_match(
        l,
        long_name_units(s),
    ))
    ||| (short_name_error(encoder, s) is None && short == short_name_bytes(encoder, s))
}

impl DirectoryItem {
    pub fn new(short_directory_entry: ShortNameDirectoryEntry, long_name: Option<LongFileName>) -> (r:
        Self)
        ensures
            r.short_directory_entry == short_directory_entry,
            r.long_name == long_name,
    {
        Self { short_directory_entry, long_name }
    }

    pub fn is_directory(&self) -> (r: bool)
        ensures
            r == (self.short_directory_entry.attributes.bits & ATTRIBUTE_SUBDIRECTORY
                == ATTRIBUTE_SUBDIRECTORY),
    {
        self.short_directory_entry.is_directory()
    }

    pub fn is_file(&self) -> (r: bool)
        ensures
            r == !(self.short_directory_entry.attributes.bits & ATTRIBUTE_SUBDIRECTORY
                == ATTRIBUTE_SUBDIRECTORY),
    {
        !self.is_directory()
    }

    pub fn first_cluster_number(&self) -> (r: u32)
        ensures
            r == self.short_directory_entry.first_cluster_number,
    {
        self.short_directory_entry.first_cluster_number()
    }

    pub fn file_size(&self) -> (r: u32)
        ensures
            r == self.short_directory_entry.file_size,
    {
        self.short_directory_entry.file_size()
    }

    /// Whether `file_name` names this item, by its long name or by its short name.
    pub fn is_match<E: CodePageEncoder>(&self, code_page_encoder: &E, file_name: &str) -> (r: bool)
        requires
            file_name@.len() < usize::MAX,
        ensures
            r == item_matches(
                code_page_encoder,
                self.short_directory_entry.name.bytes@,
                match self.long_name {
                    Some(l) => Some(l@),
                    None => None,
                },
                file_name@,
            ),
    {
        match &self.long_name {
            Some(item_long_name) => {
                match LongFileName::from_str(file_name) {
                    Ok(input_long_name) => {
                        if item_long_name.eq(&input_long_name) {
                            return true;
                        }
                    },
                    Err(_) => {},
                }
            },
            None => {},
        }
        match ShortFileName::from_str(code_page_encoder, file_name) {
            Ok(short_name) => self.short_directory_entry.name.eq(&short_name),
            Err(_) => false,
        }
    }
}

/// What to do with the record under the directory cursor while assembling an item.
#[derive(Debug)]
pub enum ItemStep {
    /// Move past the record and look at the next one.
    Continue,
    /// Move past the record and hand out the item.
    Item(DirectoryItem),
    /// Move past the malformed record and report it.
    EntryInvalid(DirectoryEntryError),
    /// Report that the records do not form an item; move past the record only when
    /// `advance` says so.
    ItemInvalid { error: DirectoryItemError, advance: bool },
    /// The directory holds no more items; move past the record only when `advance` says so.
    End { advance: bool },
}

/// The decisions of item iteration: takes the record under the cursor (or `None` past the
/// last record) and says what to do, accumulating long-name records between calls.
pub struct DirectoryItemAssembler {
    pub builder: DirectoryItemBuilder,
}

impl DirectoryItemAssembler {
    pub fn new() -> (r: Self)
        ensures
            r.builder.current_entry_index == 0,
            builder_wf(r.builder),
    {
        DirectoryItemAssembler { builder: DirectoryItemBuilder::new() }
    }

    /// Decides on one record. Free records before any long-name record are skipped, and the
    /// end marker ends the directory; a free record, the end, or a new chain after some
    /// long-name records leaves them orphaned. A failed long-name record is moved past
    /// unless it is orphaned, so that it can start the next item; a failed short-name record
    /// is kept for the same reason.
    pub fn step(&mut self, peeked: Option<Result<DirectoryEntry, DirectoryEntryError>>) -> (r:
        ItemStep)
        requires
            builder_wf(old(self).builder),
        ensures
            builder_wf(final(self).builder),
            ({
                let b = old(self).builder;
                let pending = b.current_entry_index != 0;
                match peeked {
                    None => if pending {
                        r == ItemStep::ItemInvalid {
                            error: DirectoryItemError::LongNameOrphaned,
                            advance: false,
                        }
                    } else {
                        r == ItemStep::End { advance: false }
                    },
                    Some(Err(e)) => r == ItemStep::EntryInvalid(e),
                    Some(Ok(DirectoryEntry::Free(f))) => if pending {
                        r == ItemStep::ItemInvalid {
                            error: DirectoryItemError::LongNameOrphaned,
                            advance: true,
                        }
                    } else if f == FreeDirectoryEntry::CurrentOnly {
                        r == ItemStep::Continue && final(self).builder == b
                    } else {
                        r == ItemStep::End { advance: true }
                    },
                    Some(Ok(DirectoryEntry::LongName(e))) => match add_entry_result(b, e) {
                        Ok(units) => r == ItemStep::Continue && builder_units(final(self).builder)
                            == units && final(self).builder.current_entry_index
                            == b.current_entry_index + 1,
                        Err(err) => r == ItemStep::ItemInvalid {
                            error: err,
                            advance: err != DirectoryItemError::LongNameOrphaned,
                        },
                    },
                    Some(Ok(DirectoryEntry::ShortName(e))) => match b.long_name_state {
                        None => (r matches ItemStep::Item(item) && item.short_directory_entry == e
                            && item.long_name is None),
                        Some(s) => if b.current_entry_index != s.entry_count {
                            r == ItemStep::ItemInvalid {
                                error: DirectoryItemError::LongNameOrphaned,
                                advance: false,
                            }
                        } else if short_name_checksum_of(e.name.bytes@) != s.short_name_checksum {
                            r == ItemStep::ItemInvalid {
                                error: DirectoryItemError::ShortNameChecksumMismatch,
                                advance: false,
                            }
                        } else {
                            (r matches ItemStep::Item(item) && item.short_directory_entry == e && (
                            item.long_name matches Some(name) && name@ == builder_units(b)))
                        },
                    },
                }
            }),
    {
        let pending = self.builder.current_entry_index != 0;
        match peeked {
            None => {
                if pending {
                    ItemStep::ItemInvalid { error: DirectoryItemError::LongNameOrphaned, advance: false }
                } else {
                    ItemStep::End { advance: false }
                }
            },
            Some(Err(e)) => ItemStep::EntryInvalid(e),
            Some(Ok(DirectoryEntry::Free(f))) => {
                if pending {
                    ItemStep::ItemInvalid { error: DirectoryItemError::LongNameOrphaned, advance: true }
                } else {
                    match f {
                        FreeDirectoryEntry::CurrentOnly => ItemStep::Continue,
                        FreeDirectoryEntry::AllFollowing => ItemStep::End { advance: true },
                    }
                }
            },
            Some(Ok(DirectoryEntry::LongName(e))) => {
                match self.builder.add_long_name_entry(e) {
                    Ok(b) => {
                        self.builder = b;
                        ItemStep::Continue
                    },
                    Err(err) => {
                        let advance = !matches!(err, DirectoryItemError::LongNameOrphaned);
                        ItemStep::ItemInvalid { error: err, advance }
                    },
                }
            },
            Some(Ok(DirectoryEntry::ShortName(e))) => {
                match self.builder.build(e) {
                    Ok(item) => ItemStep::Item(item),
                    Err(err) => ItemStep::ItemInvalid { error: err, advance: false },
                }
            },
        }
    }
}

/// A long-name record whose checksum differs from the one that the first record of its item
/// carries is rejected with the checksum error, once its order is right.
pub proof fn lemma_checksum_mismatch_rejected(
    b: DirectoryItemBuilder,
    e: LongNameDirectoryEntry,
)
    requires
        b.long_name_state matches Some(s) && e.short_name_checksum != s.short_name_checksum,
        b.current_entry_index != 0,
        (e.order_byte / 64) % 2 == 0,
        1 <= e.order_byte % 64 <= 20,
        e.order_byte % 64 == b.long_name_state->Some_0.entry_count - b.current_entry_index,
    ensures
        add_entry_result(b, e) == Err::<Seq<u16>, DirectoryItemError>(
            DirectoryItemError::LongNameShortNameChecksumInconsistent,
        ),
{
}

/// How many long-name records a name of `len` units takes.
pub open spec fn long_name_record_count(len: int) -> int {
    (len + 12) / 13
}

/// The code unit at position `pos` of the records of the name `s`: its characters, one null
/// terminator, then padding.
pub open spec fn record_unit(s: Seq<char>, pos: int) -> u16 {
    if pos < s.len() {
        (s[pos] as u32) as u16
    } else if pos == s.len() {
        0
    } else {
        LONG_NAME_PADDING
    }
}

/// The 13 code units of record `k` (1-based) of the name `s`.
pub open spec fn record_units(s: Seq<char>, k: int) -> Seq<u16> {
    Seq::new(13, |ci: int| record_unit(s, (k - 1) * 13 + ci))
}

/// The name buffer once the records `k + 1` and above of `s` are in.
pub open spec fn partial_units(s: Seq<char>, k: int) -> Seq<u16> {
    Seq::new(255, |p: int| if p >= k * 13 { long_name_units(s)[p] } else { 0u16 })
}

proof fn lemma_valid_long_name(s: Seq<char>, i: int)
    requires
        0 <= i <= s.len(),
        long_name_error_from(s, 0) == long_name_error_from(s, i),
        long_name_error_from(s, 0) is None,
    ensures
        i <= 255 ==> s.len() <= 255,
        forall|j: int|
            i <= j < s.len() ==> !long_name_character_forbidden(#[trigger] s[j]) && (s[j] as u32)
                <= 0xFFFF,
    decreases s.len() - i,
{
    if i < s.len() {
        lemma_valid_long_name(s, i + 1);
    }
}

proof fn lemma_record_bounds(len: int, k: int)
    requires
        1 <= len <= 255,
        1 <= k <= long_name_record_count(len),
    ensures
        (k - 1) * 13 < len,
        long_name_record_count(len) <= 20,
        len < k * 13 ==> k == long_name_record_count(len),
{
    let n = long_name_record_count(len);
    assert((k - 1) * 13 < len) by (nonlinear_arith)
        requires
            n == (len + 12) / 13,
            1 <= k <= n,
            len >= 1,
    ;
    assert(n <= 20) by (nonlinear_arith)
        requires
            n == (len + 12) / 13,
            len <= 255,
    ;
    assert(len < k * 13 ==> k == n) by (nonlinear_arith)
        requires
            n == (len + 12) / 13,
            1 <= k <= n,
    ;
}

proof fn lemma_scan_record(s: Seq<char>, k: int, ci: int, name: Seq<u16>)
    requires
        long_name_error(s) is None,
        1 <= k <= long_name_record_count(s.len() as int),
        0 <= ci <= 13,
        name.len() == 255,
        forall|p: int|
            0 <= p < 255 ==> #[trigger] name[p] == (if ((k - 1) * 13 <= p < (k - 1) * 13 + ci)
                || p >= k * 13 {
                long_name_units(s)[p]
            } else {
                0u16
            }),
    ensures
        scan_units(
            record_units(s, k),
            ci,
            (k - 1) * 13 + ci > s.len(),
            k == long_name_record_count(s.len() as int),
            (k - 1) * 13,
            name,
        ) == Ok::<Seq<u16>, DirectoryItemError>(partial_units(s, k - 1)),
    decreases 13 - ci,
{
    let len = s.len() as int;
    let offset = (k - 1) * 13;
    let units = record_units(s, k);
    lemma_valid_long_name(s, 0);
    lemma_record_bounds(len, k);
    if ci == 13 {
        assert(name =~= partial_units(s, k - 1));
    } else {
        let pos = offset + ci;
        let null_seen = pos > len;
        let is_first = k == long_name_record_count(len);
        if pos < len {
            let c = s[pos];
            assert(!long_name_character_forbidden(c) && (c as u32) <= 0xFFFF);
            assert(units[ci] == (c as u32) as u16);
            assert(units[ci] != 0);
            let next = name.update(pos, units[ci]);
            assert forall|p: int| 0 <= p < 255 implies #[trigger] next[p] == (if (offset <= p < offset
                + ci + 1) || p >= k * 13 {
                long_name_units(s)[p]
            } else {
                0u16
            }) by {
                if p == pos {
                    assert(long_name_units(s)[p] == (s[p] as u32) as u16);
                }
            }
            lemma_scan_record(s, k, ci + 1, next);
        } else if pos == len {
            assert(units[ci] == 0);
            assert(ci != 0);
            assert(is_first);
            if pos < 255 {
                let next = name.update(pos, 0);
                assert forall|p: int| 0 <= p < 255 implies #[trigger] next[p] == (if (offset <= p
                    < offset + ci + 1) || p >= k * 13 {
                    long_name_units(s)[p]
                } else {
                    0u16
                }) by {}
                lemma_scan_record(s, k, ci + 1, next);
            } else {
                lemma_scan_record(s, k, ci + 1, name);
            }
        } else {
            assert(units[ci] == LONG_NAME_PADDING);
            assert forall|p: int| 0 <= p < 255 implies #[trigger] name[p] == (if (offset <= p < offset
                + ci + 1) || p >= k * 13 {
                long_name_units(s)[p]
            } else {
                0u16
            }) by {}
            lemma_scan_record(s, k, ci + 1, name);
        }
    }
}

/// The records of a valid long name, taken from the highest sequence number down with one
/// checksum, are each accepted: the record that holds sequence number `k` moves the name
/// buffer from holding records above `k` to holding records from `k` on, and once the
/// first record is in, the buffer holds the name's code units followed by nulls.
pub proof fn lemma_long_name_chain_round_trip(
    s: Seq<char>,
    checksum: u8,
    b: DirectoryItemBuilder,
    e: LongNameDirectoryEntry,
    m: int,
)
    requires
        long_name_error(s) is None,
        0 <= m < long_name_record_count(s.len() as int),
        b.current_entry_index == m,
        b.long_name_state == (if m == 0 {
            None
        } else {
            Some(
                LongNameState {
                    entry_count: long_name_record_count(s.len() as int) as u8,
                    short_name_checksum: checksum,
                },
            )
        }),
        builder_units(b) == partial_units(s, long_name_record_count(s.len() as int) - m),
        e.order_byte == (if m == 0 { 0x40int } else { 0int }) + long_name_record_count(s.len() as int)
            - m,
        e.short_name_checksum == checksum,
        units_of(e) == record_units(s, long_name_record_count(s.len() as int) - m),
    ensures
        add_entry_result(b, e) == Ok::<Seq<u16>, DirectoryItemError>(
            partial_units(s, long_name_record_count(s.len() as int) - m - 1),
        ),
        partial_units(s, 0) == long_name_units(s),
{
    let len = s.len() as int;
    let n = long_name_record_count(len);
    let k = n - m;
    lemma_valid_long_name(s, 0);
    assert(len >= 1);
    lemma_record_bounds(len, k);
    lemma_record_bounds(len, n);
    assert(e.order_byte % 64 == k);
    assert((e.order_byte / 64) % 2 == (if m == 0 { 1int } else { 0int }));
    assert(header_error(b, e) is None);
    lemma_scan_record(s, k, 0, builder_units(b));
    assert(partial_units(s, 0) =~= long_name_units(s));
}

/// Two names whose characters agree after case folding, one for one, are the same long name.
pub proof fn lemma_case_variants_match(s: Seq<char>, t: Seq<char>)
    requires
        long_name_error(s) is None,
        long_name_error(t) is None,
        s.len() == t.len(),
        forall|i: int|
            0 <= i < s.len() ==> fold_of((s[i] as u32) as u16) == fold_of((t[i] as u32) as u16),
    ensures
        long_names_match(long_name_units(s), long_name_units(t)),
{
}

impl DirectoryItemError {
    /// A human-readable description of the error.
    pub fn to_string(&self) -> (r: String)
        ensures
            r@.len() > 0,
    {
        match self {
            DirectoryItemError::LongNameCorrupted => {
                proof {
                    reveal_strlit("the long name holds a null or padding unit out of place");
                }
                "the long name holds a null or padding unit out of place".to_owned()
            },
            DirectoryItemError::LongNameEntryNumberWrong => {
                proof {
                    reveal_strlit("a long name record has the wrong sequence number");
                }
                "a long name record has the wrong sequence number".to_owned()
            },
            DirectoryItemError::LongNameEmpty => {
                proof {
                    reveal_strlit("the long name is empty");
                }
                "the long name is empty".to_owned()
            },
            DirectoryItemError::LongNameFirstEntryInvalid => {
                proof {
                    reveal_strlit("the first long name record is not marked as the last of its name");
                }
                "the first long name record is not marked as the last of its name".to_owned()
            },
            DirectoryItemError::LongNameOrphaned => {
                proof {
                    reveal_strlit("the long name records do not end in a short name record");
                }
                "the long name records do not end in a short name record".to_owned()
            },
            DirectoryItemError::LongNameShortNameChecksumInconsistent => {
                proof {
                    reveal_strlit("the long name records carry different checksums");
                }
                "the long name records carry different checksums".to_owned()
            },
            DirectoryItemError::LongNameTooLong => {
                proof {
                    reveal_strlit("the long name is longer than 255 units");
                }
                "the long name is longer than 255 units".to_owned()
            },
            DirectoryItemError::ShortNameChecksumMismatch => {
                proof {
                    reveal_strlit("the long name checksum does not match the short name");
                }
                "the long name checksum does not match the short name".to_owned()
            },
        }
    }
}
} // verus!
