//! Positions within a directory: the fixed root table of FAT12/16, and directories stored as
//! cluster chains. Reading the record at a position is left to the caller.
use vstd::prelude::*;
use crate::allocation_table::AllocationTableEntry;

verus! {

/// Size in bytes of one directory record, as a cursor steps.
pub const RECORD_SIZE: u32 = 32;

/// A position in the fixed root directory: `entry_count` records from `start_address`.
#[derive(Clone, Copy, Debug, PartialEq, Eq, Structural)]
pub struct DirectoryTableCursor {
    pub start_address: u64,
    pub entry_count: u16,
    pub current_entry_index: Option<u16>,
}

impl DirectoryTableCursor {
    /// The index, while there is one, names a record of the table.
    pub open spec fn wf(self) -> bool {
        self.current_entry_index matches Some(i) ==> i < self.entry_count
    }

    pub fn new(start_address: u64, entry_count: u16) -> (r: Self)
        ensures
            r.start_address == start_address,
            r.entry_count == entry_count,
            r.current_entry_index == (if entry_count > 0 { Some(0u16) } else { None }),
            r.wf(),
    {
        Self {
            start_address,
            entry_count,
            current_entry_index: if entry_count > 0 { Some(0) } else { None },
        }
    }

    /// Moves to the next record; `false` once the table is exhausted.
    pub fn advance(&mut self) -> (r: bool)
        requires
            old(self).wf(),
        ensures
            final(self).wf(),
            final(self).start_address == old(self).start_address,
            final(self).entry_count == old(self).entry_count,
            final(self).current_entry_index == (match old(self).current_entry_index {
                Some(i) => if i + 1 < old(self).entry_count { Some((i + 1) as u16) } else { None },
                None => None,
            }),
            r == final(self).current_entry_index is Some,
    {
        let next_entry_index = match self.current_entry_index {
            Some(i) => i + 1,
            None => {
                return false;
            },
        };
        self.current_entry_index = if next_entry_index < self.entry_count {
            Some(next_entry_index)
        } else {
            None
        };
        self.current_entry_index.is_some()
    }

    /// The device address of the current record, while there is one and it fits 64 bits.
    pub fn current_address(&self) -> (r: Option<u64>)
        ensures
            r == (match self.current_entry_index {
                Some(i) => if self.start_address + i * 32 <= u64::MAX {
                    Some((self.start_address + i * 32) as u64)
                } else {
                    None
                },
                None => None,
            }),
    {
        match self.current_entry_index {
            Some(i) => self.start_address.checked_add(i as u64 * RECORD_SIZE as u64),
            None => None,
        }
    }
}

/// A position in a directory stored as a cluster chain.
#[derive(Clone, Copy, Debug, PartialEq, Eq, Structural)]
pub struct DirectoryFileCursor {
    pub data_region_base_address: u64,
    pub bytes_per_cluster: u32,
    pub current_cluster_number: u32,
    pub current_cluster_offset: u32,
}

/// A directory's own chain ended in an entry other than a link or the end of the chain.
#[derive(Clone, Copy, Debug, PartialEq, Eq, Structural)]
pub struct AllocationTableEntryTypeUnexpected;

impl DirectoryFileCursor {
    pub fn new(
        data_region_base_address: u64,
        bytes_per_cluster: u32,
        start_cluster_number: u32,
    ) -> (r: Self)
        ensures
            r.data_region_base_address == data_region_base_address,
            r.bytes_per_cluster == bytes_per_cluster,
            r.current_cluster_number == start_cluster_number,
            r.current_cluster_offset == 0,
    {
        Self {
            data_region_base_address,
            bytes_per_cluster,
            current_cluster_number: start_cluster_number,
            current_cluster_offset: 0,
        }
    }

    /// Whether the cursor has run past the end of the directory's chain.
    pub fn is_exhausted(&self) -> (r: bool)
        ensures
            r == (self.current_cluster_offset >= self.bytes_per_cluster),
    {
        self.current_cluster_offset >= self.bytes_per_cluster
    }

    /// The device address of the current record; `None` past the end of the chain, on a
    /// cluster number below 2, or when the address does not fit 64 bits.
    pub fn current_address(&self) -> (r: Option<u64>)
        ensures
            ({
                let a = self.data_region_base_address + (self.current_cluster_number - 2)
                    * self.bytes_per_cluster + self.current_cluster_offset;
                if self.current_cluster_offset < self.bytes_per_cluster
                    && self.current_cluster_number >= 2 && a <= u64::MAX {
                    r == Some(a as u64)
                } else {
                    r is None
                }
            }),
    {
        if self.current_cluster_offset >= self.bytes_per_cluster || self.current_cluster_number < 2 {
            return None;
        }
        let cluster_index = (self.current_cluster_number - 2) as u64;
        assert(cluster_index * self.bytes_per_cluster <= u64::MAX) by (nonlinear_arith)
            requires
                cluster_index <= u32::MAX,
                self.bytes_per_cluster <= u32::MAX,
        ;
        let cluster_start = cluster_index * self.bytes_per_cluster as u64;
        match self.data_region_base_address.checked_add(cluster_start) {
            None => None,
            Some(a) => a.checked_add(self.current_cluster_offset as u64),
        }
    }

    /// Steps one record; `false` when the step leaves the cluster, whose end the cursor then
    /// stands at, so that the table entry of the current cluster decides what follows.
    pub fn advance_offset(&mut self) -> (r: bool)
        requires
            old(self).current_cluster_offset < old(self).bytes_per_cluster,
        ensures
            r == (old(self).current_cluster_offset + 32 < old(self).bytes_per_cluster),
            *final(self) == (DirectoryFileCursor {
                current_cluster_offset: if r {
                    (old(self).current_cluster_offset + 32) as u32
                } else {
                    old(self).bytes_per_cluster
                },
                ..*old(self)
            }),
    {
        if (self.current_cluster_offset as u64) + (RECORD_SIZE as u64) < self.bytes_per_cluster as u64 {
            self.current_cluster_offset = self.current_cluster_offset + RECORD_SIZE;
            true
        } else {
            self.current_cluster_offset = self.bytes_per_cluster;
            false
        }
    }

    /// Takes the table entry of the cluster just left: a link continues at the start of the
    /// next cluster, the end of the chain ends the directory (`false`), and any other entry
    /// is an error.
    pub fn try_advance_cluster(&mut self, allocation_table_entry: AllocationTableEntry) -> (r:
        Result<bool, AllocationTableEntryTypeUnexpected>)
        ensures
            match allocation_table_entry {
                AllocationTableEntry::NextClusterNumber(n) => r == Ok::<
                    bool,
                    AllocationTableEntryTypeUnexpected,
                >(true) && *final(self) == (DirectoryFileCursor {
                    current_cluster_number: n,
                    current_cluster_offset: 0,
                    ..*old(self)
                }),
                AllocationTableEntry::EndOfFile => r == Ok::<
                    bool,
                    AllocationTableEntryTypeUnexpected,
                >(false) && *final(self) == *old(self),
                _ => r == Err::<bool, AllocationTableEntryTypeUnexpected>(
                    AllocationTableEntryTypeUnexpected,
                ) && *final(self) == *old(self),
            },
    {
        match allocation_table_entry {
            AllocationTableEntry::NextClusterNumber(next_cluster_number) => {
                self.current_cluster_number = next_cluster_number;
                self.current_cluster_offset = 0;
                Ok(true)
            },
            AllocationTableEntry::EndOfFile => Ok(false),
            _ => Err(AllocationTableEntryTypeUnexpected),
        }
    }
}

} // verus!
