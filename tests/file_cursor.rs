use embedded_fat::allocation_table::AllocationTableEntry;
use embedded_fat::directory_cursor::{
    AllocationTableEntryTypeUnexpected, DirectoryFileCursor, DirectoryTableCursor,
};
use embedded_fat::file::{FileCursor, SeekError, SeekFrom};

const BYTES_PER_CLUSTER: u32 = 4;

/// An in-memory volume: a data region of eight clusters, numbered from 2, and a table.
struct Disk {
    data: Vec<u8>,
    table: Vec<AllocationTableEntry>,
    lookups: usize,
}

impl Disk {
    /// A file of `size` bytes stored in clusters 2, 5, 3 and 7, in that order.
    fn with_file() -> Disk {
        let mut table = vec![AllocationTableEntry::Free; 10];
        table[2] = AllocationTableEntry::NextClusterNumber(5);
        table[5] = AllocationTableEntry::NextClusterNumber(3);
        table[3] = AllocationTableEntry::NextClusterNumber(7);
        table[7] = AllocationTableEntry::EndOfFile;
        let mut data = vec![0u8; 8 * BYTES_PER_CLUSTER as usize];
        for (index, cluster) in [2usize, 5, 3, 7].iter().enumerate() {
            for offset in 0..BYTES_PER_CLUSTER as usize {
                data[(cluster - 2) * BYTES_PER_CLUSTER as usize + offset] =
                    (index * BYTES_PER_CLUSTER as usize + offset) as u8 + 100;
            }
        }
        Disk { data, table, lookups: 0 }
    }

    fn seek(&mut self, cursor: &mut FileCursor, pos: SeekFrom) -> Result<u64, SeekError> {
        let mut walk = cursor.start_seek(pos)?;
        while cursor.needs_entry(&walk) {
            self.lookups += 1;
            walk = cursor.follow(walk, self.table[walk.cluster_number as usize].clone())?;
        }
        Ok(cursor.finish_seek(walk))
    }

    fn read(&mut self, cursor: &mut FileCursor, buf: &mut [u8]) -> usize {
        let size = cursor.resolve_max_read_size(buf.len());
        if size == 0 {
            return 0;
        }
        let address = cursor.current_address().unwrap() as usize;
        buf[..size].copy_from_slice(&self.data[address..address + size]);
        self.seek(cursor, SeekFrom::Current(size as i64)).unwrap();
        size
    }
}

fn open(file_size: u32) -> FileCursor {
    FileCursor::new(0, BYTES_PER_CLUSTER, 2, file_size)
}

#[test]
fn reading_to_cluster_boundary_then_one_byte_costs_one_lookup() {
    let mut disk = Disk::with_file();
    let mut cursor = open(16);
    let mut buffer = [0u8; 4];
    assert_eq!(disk.read(&mut cursor, &mut buffer), 4);
    assert_eq!(buffer, [100, 101, 102, 103]);
    assert_eq!(disk.lookups, 1);
    let mut one = [0u8; 1];
    assert_eq!(disk.read(&mut cursor, &mut one), 1);
    assert_eq!(one, [104]);
    assert_eq!(disk.lookups, 1);
    assert_eq!(cursor.current_cluster_number, 5);
    assert_eq!(cursor.current_cluster_offset, 1);
}

#[test]
fn reads_never_cross_a_cluster_boundary() {
    let mut disk = Disk::with_file();
    let mut cursor = open(16);
    let mut buffer = [0u8; 10];
    assert_eq!(disk.read(&mut cursor, &mut buffer), 4);
    assert_eq!(disk.read(&mut cursor, &mut buffer[..3]), 3);
    assert_eq!(&buffer[..3], &[104, 105, 106]);
    assert_eq!(disk.read(&mut cursor, &mut buffer), 1);
}

#[test]
fn seeking_back_then_forward_reads_the_same_byte() {
    let mut disk = Disk::with_file();
    let mut cursor = open(16);
    let mut all = Vec::new();
    let mut buffer = [0u8; 16];
    loop {
        let size = disk.read(&mut cursor, &mut buffer);
        if size == 0 {
            break;
        }
        all.extend_from_slice(&buffer[..size]);
    }
    assert_eq!(all, (100..116).collect::<Vec<u8>>());

    for (back, forward) in [(1u64, 9u64), (0, 15), (6, 13), (14, 10)] {
        disk.seek(&mut cursor, SeekFrom::Start(back)).unwrap();
        let mut one = [0u8; 1];
        disk.read(&mut cursor, &mut one);
        assert_eq!(one[0], all[back as usize]);
        disk.seek(&mut cursor, SeekFrom::Start(forward)).unwrap();
        disk.read(&mut cursor, &mut one);
        assert_eq!(one[0], all[forward as usize]);
    }
    disk.seek(&mut cursor, SeekFrom::End(-3)).unwrap();
    let mut one = [0u8; 1];
    disk.read(&mut cursor, &mut one);
    assert_eq!(one[0], all[13]);
    disk.seek(&mut cursor, SeekFrom::Current(-10)).unwrap();
    disk.read(&mut cursor, &mut one);
    assert_eq!(one[0], all[4]);
}

#[test]
fn seek_within_cluster_needs_no_lookup() {
    let mut disk = Disk::with_file();
    let mut cursor = open(16);
    assert_eq!(disk.seek(&mut cursor, SeekFrom::Start(3)).unwrap(), 3);
    assert_eq!(disk.seek(&mut cursor, SeekFrom::Current(-2)).unwrap(), 1);
    assert_eq!(disk.lookups, 0);
}

#[test]
fn seek_position_errors() {
    let mut disk = Disk::with_file();
    let mut cursor = open(16);
    assert_eq!(
        disk.seek(&mut cursor, SeekFrom::Current(-1)),
        Err(SeekError::SeekPositionImpossible(-1))
    );
    assert_eq!(
        disk.seek(&mut cursor, SeekFrom::End(i64::MAX)),
        Err(SeekError::SeekPositionImpossible(i64::MAX))
    );
    assert_eq!(
        disk.seek(&mut cursor, SeekFrom::Start(1 << 40)),
        Err(SeekError::SeekPositionBeyondLimits(1 << 40))
    );
    assert_eq!(
        disk.seek(&mut cursor, SeekFrom::End(-17)),
        Err(SeekError::SeekPositionImpossible(-1))
    );
    assert_eq!(cursor.current_position, 0);
}

#[test]
fn broken_chain_is_reported() {
    let mut disk = Disk::with_file();
    disk.table[5] = AllocationTableEntry::BadSector;
    let mut cursor = open(16);
    assert_eq!(
        disk.seek(&mut cursor, SeekFrom::Start(9)),
        Err(SeekError::UnexpectedAllocationTableEntryEncountered)
    );
    assert_eq!(cursor.current_position, 0);
    assert_eq!(cursor.current_cluster_number, 2);
}

#[test]
fn seek_past_chain_end_clamps_to_last_cluster() {
    let mut disk = Disk::with_file();
    let mut cursor = open(16);
    assert_eq!(disk.seek(&mut cursor, SeekFrom::Start(100)).unwrap(), 100);
    assert_eq!(cursor.current_cluster_number, 7);
    assert_eq!(cursor.current_cluster_offset, BYTES_PER_CLUSTER);
    let mut buffer = [0u8; 4];
    assert_eq!(disk.read(&mut cursor, &mut buffer), 0);
}

#[test]
fn address_of_cursor_follows_cluster_layout() {
    let mut cursor = FileCursor::new(1000, 512, 4, 2048);
    assert_eq!(cursor.current_address(), Some(1000 + 2 * 512));
    cursor.current_cluster_offset = 17;
    assert_eq!(cursor.current_address(), Some(1000 + 2 * 512 + 17));
    let empty = FileCursor::new(1000, 512, 0, 0);
    assert_eq!(empty.current_address(), None);
    assert_eq!(empty.resolve_max_read_size(10), 0);
}

#[test]
fn table_cursor_walks_fixed_directory() {
    let mut cursor = DirectoryTableCursor::new(0x2600, 3);
    assert_eq!(cursor.current_address(), Some(0x2600));
    assert!(cursor.advance());
    assert_eq!(cursor.current_address(), Some(0x2620));
    assert!(cursor.advance());
    assert!(!cursor.advance());
    assert_eq!(cursor.current_address(), None);
    assert!(!cursor.advance());
    let mut empty = DirectoryTableCursor::new(0x2600, 0);
    assert_eq!(empty.current_address(), None);
    assert!(!empty.advance());
}

#[test]
fn file_cursor_follows_directory_chain() {
    let mut cursor = DirectoryFileCursor::new(0x4000, 64, 3);
    assert_eq!(cursor.current_address(), Some(0x4000 + 64));
    assert!(cursor.advance_offset());
    assert_eq!(cursor.current_address(), Some(0x4000 + 64 + 32));
    assert!(!cursor.advance_offset());
    assert!(cursor.is_exhausted());
    assert_eq!(cursor.try_advance_cluster(AllocationTableEntry::NextClusterNumber(9)), Ok(true));
    assert_eq!(cursor.current_address(), Some(0x4000 + 7 * 64));
    assert!(cursor.advance_offset());
    assert!(!cursor.advance_offset());
    assert_eq!(cursor.try_advance_cluster(AllocationTableEntry::EndOfFile), Ok(false));
    assert_eq!(cursor.current_address(), None);
    assert_eq!(
        cursor.try_advance_cluster(AllocationTableEntry::Free),
        Err(AllocationTableEntryTypeUnexpected)
    );
}
