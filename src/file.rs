//! The read cursor of an open file: maps a byte position to a cluster of the file's chain and
//! an offset inside it, and decides the chain walk that a seek needs.
use vstd::prelude::*;
use crate::allocation_table::AllocationTableEntry;

verus! {

/// A seek target, as the standard I/O traits give it.
#[derive(Clone, Copy, Debug, PartialEq, Eq, Structural)]
pub enum SeekFrom {
    Start(u64),
    End(i64),
    Current(i64),
}

/// Why a seek cannot be carried out.
#[derive(Clone, Copy, Debug, PartialEq, Eq, Structural)]
pub enum SeekError {
    /// The target position does not fit a 32-bit file position.
    SeekPositionBeyondLimits(u64),
    /// The target position is negative, or the relative arithmetic overflowed.
    SeekPositionImpossible(i64),
    /// The chain holds a free, reserved or bad entry where a link was expected.
    UnexpectedAllocationTableEntryEncountered,
}

/// Position and place in the cluster chain of an open file.
#[derive(Clone, Copy, Debug, PartialEq, Eq, Structural)]
pub struct FileCursor {
    pub data_region_base_address: u64,
    pub bytes_per_cluster: u32,
    pub first_cluster_number: u32,
    pub file_size: u32,
    pub current_position: u32,
    pub current_cluster_number: u32,
    pub current_cluster_offset: u32,
}

/// A seek in progress: the target, and the cluster and offset reached so far. The walk needs
/// the table entry of `cluster_number` while `cluster_offset` is at least a cluster and the
/// chain has not ended.
#[derive(Clone, Copy, Debug, PartialEq, Eq, Structural)]
pub struct SeekWalk {
    pub target_position: u32,
    pub cluster_number: u32,
    pub cluster_offset: u64,
    pub chain_ended: bool,
}

/// The smaller of `a` and `b`.
pub open spec fn min(a: int, b: int) -> int {
    if a <= b { a } else { b }
}

/// The absolute position that `pos` names for a file of `size` bytes at `current`.
pub open spec fn desired_position(pos: SeekFrom, current: int, size: int) -> Result<int, SeekError> {
    let target: Result<int, SeekError> = match pos {
        SeekFrom::Start(a) => Ok(a as int),
        SeekFrom::Current(o) => if current + o < 0 {
            Err(SeekError::SeekPositionImpossible((current + o) as i64))
        } else if current + o > i64::MAX {
            Err(SeekError::SeekPositionImpossible(o))
        } else {
            Ok(current + o)
        },
        SeekFrom::End(o) => if size + o < 0 {
            Err(SeekError::SeekPositionImpossible((size + o) as i64))
        } else if size + o > i64::MAX {
            Err(SeekError::SeekPositionImpossible(o))
        } else {
            Ok(size + o)
        },
    };
    match target {
        Err(e) => Err(e),
        Ok(t) => if t > u32::MAX {
            Err(SeekError::SeekPositionBeyondLimits(t as u64))
        } else {
            Ok(t)
        },
    }
}

impl FileCursor {
    /// A cursor is usable when its clusters are not empty and its offset lies within a cluster.
    pub open spec fn wf(self) -> bool {
        &&& self.bytes_per_cluster > 0
        &&& self.current_cluster_offset <= self.bytes_per_cluster
    }

    /// Whether the walk `w` still needs a table entry.
    pub open spec fn walk_needs_entry(self, w: SeekWalk) -> bool {
        !w.chain_ended && w.cluster_offset >= self.bytes_per_cluster
    }

    /// The walk that a seek to `pos` starts with: no walk at all when the target lies in the
    /// current cluster; from the current cluster when it lies ahead; from the first cluster,
    /// since chains only link forward, when it lies behind.
    pub open spec fn seek_walk_start(self, pos: SeekFrom) -> Result<SeekWalk, SeekError> {
        match desired_position(pos, self.current_position as int, self.file_size as int) {
            Err(e) => Err(e),
            Ok(t) => {
                let change = t - self.current_position;
                let new_offset = self.current_cluster_offset + change;
                if change == 0 || (0 <= new_offset < self.bytes_per_cluster) {
                    Ok(
                        SeekWalk {
                            target_position: t as u32,
                            cluster_number: self.current_cluster_number,
                            cluster_offset: new_offset as u64,
                            chain_ended: true,
                        },
                    )
                } else if change < 0 {
                    Ok(
                        SeekWalk {
                            target_position: t as u32,
                            cluster_number: self.first_cluster_number,
                            cluster_offset: t as u64,
                            chain_ended: false,
                        },
                    )
                } else {
                    Ok(
                        SeekWalk {
                            target_position: t as u32,
                            cluster_number: self.current_cluster_number,
                            cluster_offset: new_offset as u64,
                            chain_ended: false,
                        },
                    )
                }
            },
        }
    }

    /// One step of a walk, given the table entry of its cluster.
    pub open spec fn seek_walk_follow(self, w: SeekWalk, entry: AllocationTableEntry) -> Result<
        SeekWalk,
        SeekError,
    > {
        match entry {
            AllocationTableEntry::NextClusterNumber(n) => Ok(
                SeekWalk {
                    cluster_number: n,
                    cluster_offset: (w.cluster_offset - self.bytes_per_cluster) as u64,
                    ..w
                },
            ),
            AllocationTableEntry::EndOfFile => Ok(SeekWalk { chain_ended: true, ..w }),
            _ => Err(SeekError::UnexpectedAllocationTableEntryEncountered),
        }
    }

    /// The cursor at the end of the walk `w`: an offset past the chain's last cluster is
    /// clamped to that cluster's end.
    pub open spec fn seek_walk_finish(self, w: SeekWalk) -> FileCursor {
        FileCursor {
            current_position: w.target_position,
            current_cluster_number: w.cluster_number,
            current_cluster_offset: min(
                w.cluster_offset as int,
                self.bytes_per_cluster as int,
            ) as u32,
            ..self
        }
    }

    pub fn new(
        data_region_base_address: u64,
        bytes_per_cluster: u32,
        first_cluster_number: u32,
        file_size: u32,
    ) -> (r: Self)
        ensures
            r.data_region_base_address == data_region_base_address,
            r.bytes_per_cluster == bytes_per_cluster,
            r.first_cluster_number == first_cluster_number,
            r.file_size == file_size,
            r.current_position == 0,
            r.current_cluster_number == first_cluster_number,
            r.current_cluster_offset == 0,
    {
        Self {
            data_region_base_address,
            bytes_per_cluster,
            first_cluster_number,
            file_size,
            current_position: 0,
            current_cluster_number: first_cluster_number,
            current_cluster_offset: 0,
        }
    }

    /// The device address of the byte at the cursor; `None` when the cursor stands on no data
    /// cluster or the address does not fit 64 bits.
    pub fn current_address(&self) -> (r: Option<u64>)
        ensures
            ({
                let a = self.data_region_base_address + (self.current_cluster_number - 2)
                    * self.bytes_per_cluster + self.current_cluster_offset;
                if self.current_cluster_number >= 2 && a <= u64::MAX {
                    r == Some(a as u64)
                } else {
                    r is None
                }
            }),
    {
        if self.current_cluster_number < 2 {
            return None;
        }
        let cluster_index = (self.current_cluster_number - 2) as u64;
        assert(cluster_index * self.bytes_per_cluster <= u64::MAX) by (nonlinear_arith)
            requires
                cluster_index <= u32::MAX,
                self.bytes_per_cluster <= u32::MAX,
        ;
        let cluster_start = cluster_index * self.bytes_per_cluster as u64;
        match self.data_region_base_address.checked_add(cluster_start) {
            None => None,
            Some(a) => a.checked_add(self.current_cluster_offset as u64),
        }
    }

    /// How many bytes one read may take: no more than the buffer, the rest of the file, or the
    /// rest of the current cluster.
    pub fn resolve_max_read_size(&self, target_buffer_length: usize) -> (r: usize)
        ensures
            r == min(
                min(
                    min(target_buffer_length as int, u32::MAX as int),
                    if self.current_position <= self.file_size {
                        self.file_size - self.current_position
                    } else {
                        0
                    },
                ),
                if self.current_cluster_offset <= self.bytes_per_cluster {
                    self.bytes_per_cluster - self.current_cluster_offset
                } else {
                    0
                },
            ),
    {
        let buffer: u32 = if target_buffer_length as u64 > u32::MAX as u64 {
            u32::MAX
        } else {
            target_buffer_length as u32
        };
        let file_rest: u32 = if self.current_position <= self.file_size {
            self.file_size - self.current_position
        } else {
            0
        };
        let cluster_rest: u32 = if self.current_cluster_offset <= self.bytes_per_cluster {
            self.bytes_per_cluster - self.current_cluster_offset
        } else {
            0
        };
        let a = if buffer <= file_rest { buffer } else { file_rest };
        let b = if a <= cluster_rest { a } else { cluster_rest };
        b as usize
    }

    /// The absolute position that `pos` names.
    pub fn resolve_desired_position(&self, pos: SeekFrom) -> (r: Result<u32, SeekError>)
        ensures
            match desired_position(pos, self.current_position as int, self.file_size as int) {
                Ok(t) => r == Ok::<u32, SeekError>(t as u32),
                Err(e) => r == Err::<u32, SeekError>(e),
            },
    {
        let desired: u64 = match pos {
            SeekFrom::Start(a) => a,
            SeekFrom::Current(offset) => {
                match (self.current_position as i64).checked_add(offset) {
                    None => {
                        return Err(SeekError::SeekPositionImpossible(offset));
                    },
                    Some(t) => {
                        if t < 0 {
                            return Err(SeekError::SeekPositionImpossible(t));
                        }
                        t as u64
                    },
                }
            },
            SeekFrom::End(offset) => {
                match (self.file_size as i64).checked_add(offset) {
                    None => {
                        return Err(SeekError::SeekPositionImpossible(offset));
                    },
                    Some(t) => {
                        if t < 0 {
                            return Err(SeekError::SeekPositionImpossible(t));
                        }
                        t as u64
                    },
                }
            },
        };
        if desired > u32::MAX as u64 {
            Err(SeekError::SeekPositionBeyondLimits(desired))
        } else {
            Ok(desired as u32)
        }
    }
}

impl FileCursor {
    /// Starts a seek to `pos`.
    pub fn start_seek(&self, pos: SeekFrom) -> (r: Result<SeekWalk, SeekError>)
        requires
            self.wf(),
        ensures
            r == self.seek_walk_start(pos),
    {
        let desired_position = match self.resolve_desired_position(pos) {
            Ok(t) => t,
            Err(e) => {
                return Err(e);
            },
        };
        let relative_position_change: i64 = desired_position as i64 - self.current_position as i64;
        let new_cluster_offset: i64 = self.current_cluster_offset as i64 + relative_position_change;
        if relative_position_change == 0 || (0 <= new_cluster_offset && new_cluster_offset
            < self.bytes_per_cluster as i64) {
            Ok(
                SeekWalk {
                    target_position: desired_position,
                    cluster_number: self.current_cluster_number,
                    cluster_offset: new_cluster_offset as u64,
                    chain_ended: true,
                },
            )
        } else if relative_position_change < 0 {
            Ok(
                SeekWalk {
                    target_position: desired_position,
                    cluster_number: self.first_cluster_number,
                    cluster_offset: desired_position as u64,
                    chain_ended: false,
                },
            )
        } else {
            Ok(
                SeekWalk {
                    target_position: desired_position,
                    cluster_number: self.current_cluster_number,
                    cluster_offset: new_cluster_offset as u64,
                    chain_ended: false,
                },
            )
        }
    }

    /// Whether the walk still needs the table entry of `walk.cluster_number`.
    pub fn needs_entry(&self, walk: &SeekWalk) -> (r: bool)
        ensures
            r == self.walk_needs_entry(*walk),
    {
        !walk.chain_ended && walk.cluster_offset >= self.bytes_per_cluster as u64
    }

    /// Takes the table entry of the walk's cluster: a link moves one cluster on, the end of
    /// the chain stops the walk, and anything else is an error.
    pub fn follow(&self, walk: SeekWalk, entry: AllocationTableEntry) -> (r: Result<
        SeekWalk,
        SeekError,
    >)
        requires
            self.wf(),
            self.walk_needs_entry(walk),
        ensures
            r == self.seek_walk_follow(walk, entry),
            r matches Ok(w) ==> w.cluster_offset < walk.cluster_offset || w.chain_ended,
    {
        match entry {
            AllocationTableEntry::NextClusterNumber(next_cluster_number) => Ok(
                SeekWalk {
                    target_position: walk.target_position,
                    cluster_number: next_cluster_number,
                    cluster_offset: walk.cluster_offset - self.bytes_per_cluster as u64,
                    chain_ended: walk.chain_ended,
                },
            ),
            AllocationTableEntry::EndOfFile => Ok(
                SeekWalk {
                    target_position: walk.target_position,
                    cluster_number: walk.cluster_number,
                    cluster_offset: walk.cluster_offset,
                    chain_ended: true,
                },
            ),
            _ => Err(SeekError::UnexpectedAllocationTableEntryEncountered),
        }
    }

    /// Moves the cursor to where the finished walk ended and returns the new position.
    pub fn finish_seek(&mut self, walk: SeekWalk) -> (r: u64)
        requires
            old(self).wf(),
            !old(self).walk_needs_entry(walk),
        ensures
            *final(self) == old(self).seek_walk_finish(walk),
            final(self).wf(),
            r == walk.target_position,
    {
        let offset: u64 = if walk.cluster_offset < self.bytes_per_cluster as u64 {
            walk.cluster_offset
        } else {
            self.bytes_per_cluster as u64
        };
        self.current_cluster_number = walk.cluster_number;
        self.current_cluster_offset = offset as u32;
        self.current_position = walk.target_position;
        walk.target_position as u64
    }
}

/// Reading up to the end of a cluster and then one byte more costs exactly one table lookup:
/// the seek past the first read lands on the cluster boundary and needs the entry of the
/// current cluster once, and the seek past the one-byte read stays inside the next cluster.
pub proof fn lemma_cluster_boundary_single_lookup(c: FileCursor, n: u32, next_cluster: u32)
    requires
        c.wf(),
        c.bytes_per_cluster > 1,
        n > 0,
        c.current_cluster_offset + n == c.bytes_per_cluster,
        c.current_position + n + 1 <= u32::MAX,
    ensures
        ({
            let w = c.seek_walk_start(SeekFrom::Current(n as i64))->Ok_0;
            let w2 = c.seek_walk_follow(w, AllocationTableEntry::NextClusterNumber(next_cluster))->Ok_0;
            let c2 = c.seek_walk_finish(w2);
            let w3 = c2.seek_walk_start(SeekFrom::Current(1))->Ok_0;
            &&& c.seek_walk_start(SeekFrom::Current(n as i64)) is Ok
            &&& c.walk_needs_entry(w)
            &&& w.cluster_number == c.current_cluster_number
            &&& c.seek_walk_follow(w, AllocationTableEntry::NextClusterNumber(next_cluster)) is Ok
            &&& !c.walk_needs_entry(w2)
            &&& c2.current_cluster_number == next_cluster
            &&& c2.current_cluster_offset == 0
            &&& c2.current_position == c.current_position + n
            &&& c2.seek_walk_start(SeekFrom::Current(1)) is Ok
            &&& !c2.walk_needs_entry(w3)
            &&& c2.seek_walk_finish(w3).current_cluster_number == next_cluster
            &&& c2.seek_walk_finish(w3).current_cluster_offset == 1
        }),
{
}

/// Runs a walk to its end, taking each entry from `table`.
pub open spec fn drive_walk(
    c: FileCursor,
    w: SeekWalk,
    table: spec_fn(u32) -> AllocationTableEntry,
) -> Result<SeekWalk, SeekError>
    decreases w.cluster_offset,
{
    if !c.walk_needs_entry(w) || c.bytes_per_cluster == 0 {
        Ok(w)
    } else {
        match c.seek_walk_follow(w, table(w.cluster_number)) {
            Err(e) => Err(e),
            Ok(w2) => if w2.chain_ended || w2.cluster_offset >= w.cluster_offset {
                Ok(w2)
            } else {
                drive_walk(c, w2, table)
            },
        }
    }
}

/// Whether `table` links the clusters of `chain` in order and ends the chain at its last one.
pub open spec fn table_holds_chain(table: spec_fn(u32) -> AllocationTableEntry, chain: Seq<u32>) -> bool {
    &&& chain.len() > 0
    &&& forall|i: int|
        0 <= i < chain.len() - 1 ==> table(#[trigger] chain[i])
            == AllocationTableEntry::NextClusterNumber(chain[i + 1])
    &&& table(chain.last()) == AllocationTableEntry::EndOfFile
}

/// Whether the cursor stands where a forward walk along `chain` puts position `p`.
pub open spec fn at_chain_position(c: FileCursor, chain: Seq<u32>, p: int) -> bool {
    &&& c.current_position == p
    &&& 0 <= p < chain.len() * c.bytes_per_cluster
    &&& c.current_cluster_number == chain[p / (c.bytes_per_cluster as int)]
    &&& c.current_cluster_offset == p % (c.bytes_per_cluster as int)
}

proof fn lemma_walk_along_chain(
    c: FileCursor,
    w: SeekWalk,
    table: spec_fn(u32) -> AllocationTableEntry,
    chain: Seq<u32>,
    t: int,
    j: int,
)
    requires
        c.wf(),
        table_holds_chain(table, chain),
        0 <= t < chain.len() * c.bytes_per_cluster,
        0 <= j <= t / (c.bytes_per_cluster as int),
        w.target_position == t,
        w.cluster_number == chain[j],
        w.cluster_offset == t - j * c.bytes_per_cluster,
        !w.chain_ended,
    ensures
        drive_walk(c, w, table) matches Ok(r) && r.target_position == t && r.cluster_number
            == chain[t / (c.bytes_per_cluster as int)] && r.cluster_offset == t % (
        c.bytes_per_cluster as int) && !c.walk_needs_entry(r),
    decreases t / (c.bytes_per_cluster as int) - j,
{
    let bpc = c.bytes_per_cluster as int;
    let q = t / bpc;
    assert(t == q * bpc + t % bpc && 0 <= t % bpc < bpc) by (nonlinear_arith)
        requires
            bpc > 0,
            q == t / bpc,
    ;
    assert(q < chain.len()) by (nonlinear_arith)
        requires
            t == q * bpc + t % bpc,
            0 <= t % bpc,
            t < chain.len() * bpc,
            bpc > 0,
    ;
    if j == q {
        assert(t - j * bpc == t % bpc);
    } else {
        assert(t - j * bpc >= bpc) by (nonlinear_arith)
            requires
                j < q,
                t == q * bpc + t % bpc,
                0 <= t % bpc,
                bpc > 0,
        ;
        assert(j + 1 <= q);
        assert(table(chain[j]) == AllocationTableEntry::NextClusterNumber(chain[j + 1]));
        let w2 = c.seek_walk_follow(w, table(w.cluster_number))->Ok_0;
        assert(w2.cluster_offset == t - (j + 1) * bpc) by (nonlinear_arith)
            requires
                w2.cluster_offset == w.cluster_offset - bpc,
                w.cluster_offset == t - j * bpc,
        ;
        lemma_walk_along_chain(c, w2, table, chain, t, j + 1);
    }
}

/// Wherever along its chain the cursor stands, a seek to any position `t` of the chain,
/// driven by the table entries of the chain, ends on cluster `chain[t / bpc]` at offset
/// `t % bpc`: the place a forward walk from the start reaches, whichever way the seek went.
pub proof fn lemma_seek_reaches_chain_position(
    c: FileCursor,
    table: spec_fn(u32) -> AllocationTableEntry,
    chain: Seq<u32>,
    target: u32,
)
    requires
        c.wf(),
        table_holds_chain(table, chain),
        chain[0] == c.first_cluster_number,
        at_chain_position(c, chain, c.current_position as int),
        target < chain.len() * c.bytes_per_cluster,
    ensures
        c.seek_walk_start(SeekFrom::Start(target as u64)) matches Ok(w) && drive_walk(c, w, table) matches Ok(
            w2,
        ) && !c.walk_needs_entry(w2) && at_chain_position(c.seek_walk_finish(w2), chain, target as int),
{
    let t = target as int;
    let bpc = c.bytes_per_cluster as int;
    let p = c.current_position as int;
    let w = c.seek_walk_start(SeekFrom::Start(target as u64))->Ok_0;
    assert(p == (p / bpc) * bpc + p % bpc && 0 <= p % bpc < bpc) by (nonlinear_arith)
        requires
            bpc > 0,
    ;
    assert(t == (t / bpc) * bpc + t % bpc && 0 <= t % bpc < bpc) by (nonlinear_arith)
        requires
            bpc > 0,
    ;
    let change = t - p;
    let new_offset = c.current_cluster_offset + change;
    if change == 0 || (0 <= new_offset < bpc) {
        // The target lies in the current cluster.
        assert(t / bpc == p / bpc && t % bpc == new_offset) by (nonlinear_arith)
            requires
                new_offset == p % bpc + t - p,
                0 <= new_offset < bpc,
                p == (p / bpc) * bpc + p % bpc,
                t == (t / bpc) * bpc + t % bpc,
                0 <= t % bpc < bpc,
                0 <= p % bpc < bpc,
                bpc > 0,
        ;
    } else if change < 0 {
        assert(0 <= t / bpc) by (nonlinear_arith)
            requires
                bpc > 0,
                t >= 0,
        ;
        lemma_walk_along_chain(c, w, table, chain, t, 0);
    } else {
        let j = p / bpc;
        assert(j <= t / bpc) by (nonlinear_arith)
            requires
                p < t,
                bpc > 0,
                j == p / bpc,
        ;
        assert(new_offset == t - j * bpc);
        lemma_walk_along_chain(c, w, table, chain, t, j);
    }
}

} // verus!
