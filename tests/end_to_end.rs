use embedded_fat::allocation_table::{AllocationTable, AllocationTableEntry, AllocationTableKind, PhysicalAllocationTableEntry};
use embedded_fat::bios_parameter_block::{has_boot_sector_signature, BiosParameterBlock};
use embedded_fat::directory_cursor::{DirectoryFileCursor, DirectoryTableCursor};
use embedded_fat::directory_entry::{DirectoryEntry, DirectoryEntryAttributes, LongNameDirectoryEntry, ShortNameDirectoryEntry, ATTRIBUTE_SUBDIRECTORY};
use embedded_fat::directory_item::{DirectoryItem, DirectoryItemAssembler, ItemStep};
use embedded_fat::encoding::{AsciiOnlyEncoder, Ucs2Character};
use embedded_fat::file::{FileCursor, SeekFrom};
use embedded_fat::file_name::ShortFileName;
use embedded_fat::path::{resolve_path_step, root_directory_of, PathStep, RootDirectory};
use embedded_fat::utils::{write_le_u16, write_le_u32};

struct Geometry {
    reserved: u16,
    root_entries: u16,
    total_sectors: u32,
    table_sectors: u32,
    fat32: bool,
}

const SECTOR: usize = 512;

fn short(name: &str, attributes: u8, cluster: u32, size: u32) -> ShortNameDirectoryEntry {
    ShortNameDirectoryEntry::new(
        ShortFileName::from_str(&AsciiOnlyEncoder, name).unwrap(),
        DirectoryEntryAttributes::from_bits_retain(attributes),
        cluster,
        size,
    )
}

fn long_records(name: &str, checksum: u8) -> Vec<LongNameDirectoryEntry> {
    let units: Vec<u16> = name.encode_utf16().collect();
    let count = (units.len() + 12) / 13;
    (1..=count)
        .rev()
        .map(|number| {
            let mut characters = [Ucs2Character::null(); 13];
            for (index, character) in characters.iter_mut().enumerate() {
                let position = (number - 1) * 13 + index;
                let unit = if position < units.len() {
                    units[position]
                } else if position == units.len() {
                    0
                } else {
                    0xFFFF
                };
                *character = Ucs2Character::from_u16(unit).unwrap();
            }
            let order = number as u8 | if number == count { 0x40 } else { 0 };
            LongNameDirectoryEntry::new(order, characters, checksum)
        })
        .collect()
}

/// Builds a volume with TEST.TXT, a file with a long name, and FOO/BAR.TXT.
fn build_image(g: &Geometry) -> Vec<u8> {
    let mut image = vec![0u8; g.total_sectors as usize * SECTOR];
    let mut boot = [0u8; 512];
    write_le_u16(&mut boot, 11, SECTOR as u16);
    boot[13] = 1;
    write_le_u16(&mut boot, 14, g.reserved);
    boot[16] = 1;
    write_le_u16(&mut boot, 17, g.root_entries);
    if g.fat32 {
        write_le_u32(&mut boot, 32, g.total_sectors);
        write_le_u32(&mut boot, 36, g.table_sectors);
        write_le_u32(&mut boot, 44, 2);
        write_le_u16(&mut boot, 48, 1);
    } else {
        write_le_u16(&mut boot, 19, g.total_sectors as u16);
        write_le_u16(&mut boot, 22, g.table_sectors as u16);
    }
    boot[21] = 0xF8;
    boot[510] = 0x55;
    boot[511] = 0xAA;
    image[..512].copy_from_slice(&boot);

    let block = BiosParameterBlock::from_boot_sector(&boot).unwrap();
    let kind = block.allocation_table_kind();
    let table = AllocationTable::new(kind, block.allocation_table_base_address() as u32);
    let data = block.data_region_base_address() as usize;
    let cluster_address = |cluster: u32| data + (cluster as usize - 2) * SECTOR;

    let first = if g.fat32 { 3 } else { 2 };
    let (test, long, foo, bar) = (first, first + 1, first + 2, first + 3);
    let mut set_entry = |image: &mut Vec<u8>, cluster: u32, value: u32| {
        let address = table.resolve_entry_address(cluster);
        let at = address.address as usize;
        let mut bytes = [0u8; 4];
        bytes.copy_from_slice(&image[at..at + 4]);
        PhysicalAllocationTableEntry::new(kind, value).unwrap().write(&mut bytes, address.is_nibble_offset);
        image[at..at + 4].copy_from_slice(&bytes);
    };
    let end = kind.end_of_chain_value();
    set_entry(&mut image, 0, kind.entry_mask() & 0xFFFF_FFF8);
    set_entry(&mut image, 1, kind.entry_mask());
    for cluster in [test, long, foo, bar] {
        set_entry(&mut image, cluster, end);
    }
    if g.fat32 {
        set_entry(&mut image, 2, end);
    }

    let long_short = short("LONG-F~1.TXT", 0, long, 9);
    let mut root: Vec<[u8; 32]> = Vec::new();
    for record in long_records("long-File.name.txt", long_short.name().checksum()) {
        let mut bytes = [0u8; 32];
        record.write(&mut bytes);
        root.push(bytes);
    }
    for entry in [long_short, short("TEST.TXT", 0, test, 5), short("FOO", ATTRIBUTE_SUBDIRECTORY, foo, 0)] {
        let mut bytes = [0u8; 32];
        entry.write(&mut bytes);
        root.push(bytes);
    }
    let root_address = if g.fat32 { cluster_address(2) } else { block.directory_table_base_address() as usize };
    for (index, record) in root.iter().enumerate() {
        image[root_address + index * 32..root_address + index * 32 + 32].copy_from_slice(record);
    }
    let mut bytes = [0u8; 32];
    short("BAR.TXT", 0, bar, 7).write(&mut bytes);
    image[cluster_address(foo)..cluster_address(foo) + 32].copy_from_slice(&bytes);

    for (cluster, content) in [(test, &b"test\n"[..]), (long, b"much wow\n"), (bar, b"redrum\n")] {
        image[cluster_address(cluster)..cluster_address(cluster) + content.len()].copy_from_slice(content);
    }
    image
}

struct Volume {
    image: Vec<u8>,
    block: BiosParameterBlock,
    table: AllocationTable,
}

enum Cursor {
    Table(DirectoryTableCursor),
    File(DirectoryFileCursor),
}

impl Volume {
    fn mount(image: Vec<u8>) -> Volume {
        let mut boot = [0u8; 512];
        boot.copy_from_slice(&image[..512]);
        assert!(has_boot_sector_signature(&boot));
        let block = BiosParameterBlock::from_boot_sector(&boot).unwrap();
        let table = AllocationTable::new(block.allocation_table_kind(), block.allocation_table_base_address() as u32);
        Volume { image, block, table }
    }

    fn entry(&self, cluster: u32) -> AllocationTableEntry {
        let address = self.table.resolve_entry_address(cluster);
        let at = address.address as usize;
        let mut bytes = [0u8; 4];
        let count = self.table.entry_byte_count();
        bytes[..count].copy_from_slice(&self.image[at..at + count]);
        self.table.entry_from_bytes(&bytes, address.is_nibble_offset)
    }

    fn record(&self, address: u64) -> DirectoryEntry {
        let mut bytes = [0u8; 32];
        bytes.copy_from_slice(&self.image[address as usize..address as usize + 32]);
        DirectoryEntry::from_bytes(&bytes).unwrap()
    }

    fn items(&self, mut cursor: Cursor) -> Vec<DirectoryItem> {
        let mut items = Vec::new();
        let mut assembler = DirectoryItemAssembler::new();
        loop {
            let address = match &cursor {
                Cursor::Table(c) => c.current_address(),
                Cursor::File(c) => c.current_address(),
            };
            let peeked = address.map(|a| Ok(self.record(a)));
            let (advance, done) = match assembler.step(peeked) {
                ItemStep::Continue => (true, false),
                ItemStep::Item(item) => {
                    items.push(item);
                    assembler = DirectoryItemAssembler::new();
                    (true, false)
                }
                ItemStep::End { advance } => (advance, true),
                other => panic!("unexpected step {other:?}"),
            };
            if advance {
                match &mut cursor {
                    Cursor::Table(c) => {
                        c.advance();
                    }
                    Cursor::File(c) => {
                        if !c.advance_offset() {
                            let entry = self.entry(c.current_cluster_number);
                            c.try_advance_cluster(entry).unwrap();
                        }
                    }
                }
            }
            if done {
                return items;
            }
        }
    }

    fn directory_at(&self, first_cluster_number: u32) -> Cursor {
        Cursor::File(DirectoryFileCursor::new(
            self.block.data_region_base_address(),
            self.block.bytes_per_cluster(),
            first_cluster_number,
        ))
    }

    fn open(&self, path: &str) -> Option<Vec<u8>> {
        let mut cursor = match root_directory_of(&self.block)? {
            RootDirectory::Table { start_address, entry_count } => {
                Cursor::Table(DirectoryTableCursor::new(start_address, entry_count))
            }
            RootDirectory::File { first_cluster_number } => self.directory_at(first_cluster_number),
        };
        let mut parts = path.split('/').peekable();
        while let Some(part) = parts.next() {
            let is_last = parts.peek().is_none();
            let mut next = None;
            for item in self.items(cursor) {
                match resolve_path_step(&AsciiOnlyEncoder, part, is_last, &item) {
                    PathStep::Skip => continue,
                    PathStep::Found => return item.is_file().then(|| self.read_all(&item)),
                    PathStep::NotFound => return None,
                    PathStep::Descend(first_cluster_number) => {
                        next = Some(first_cluster_number);
                        break;
                    }
                }
            }
            cursor = self.directory_at(next?);
        }
        None
    }

    fn read_all(&self, item: &DirectoryItem) -> Vec<u8> {
        let mut cursor = FileCursor::new(
            self.block.data_region_base_address(),
            self.block.bytes_per_cluster(),
            item.first_cluster_number(),
            item.file_size(),
        );
        let mut content = Vec::new();
        loop {
            let size = cursor.resolve_max_read_size(64);
            if size == 0 {
                return content;
            }
            let address = cursor.current_address().unwrap() as usize;
            content.extend_from_slice(&self.image[address..address + size]);
            let mut walk = cursor.start_seek(SeekFrom::Current(size as i64)).unwrap();
            while cursor.needs_entry(&walk) {
                walk = cursor.follow(walk, self.entry(walk.cluster_number)).unwrap();
            }
            cursor.finish_seek(walk);
        }
    }
}

fn verify_disk(geometry: Geometry, expected_kind: AllocationTableKind) {
    let volume = Volume::mount(build_image(&geometry));
    assert_eq!(volume.block.allocation_table_kind(), expected_kind);
    assert_eq!(volume.open("TEST.TXT").unwrap(), b"test\n");
    assert_eq!(volume.open("long-File.name.txt").unwrap(), b"much wow\n");
    assert_eq!(volume.open("long-file.name.txt").unwrap(), b"much wow\n");
    assert_eq!(volume.open("foo/bar.txt").unwrap(), b"redrum\n");
    assert!(volume.open("missing.txt").is_none());
    assert!(volume.open("foo").is_none());
}

#[test]
fn fat12() {
    let geometry = Geometry { reserved: 1, root_entries: 16, total_sectors: 64, table_sectors: 1, fat32: false };
    verify_disk(geometry, AllocationTableKind::Fat12);
}

#[test]
fn fat16() {
    let geometry = Geometry { reserved: 1, root_entries: 16, total_sectors: 4200, table_sectors: 17, fat32: false };
    verify_disk(geometry, AllocationTableKind::Fat16);
}

#[test]
fn fat32() {
    let geometry = Geometry { reserved: 32, root_entries: 0, total_sectors: 66200, table_sectors: 518, fat32: true };
    verify_disk(geometry, AllocationTableKind::Fat32);
}

#[test]
fn path_steps_follow_item_kind() {
    let file = DirectoryItem::new(short("BAR.TXT", 0, 9, 7), None);
    let directory = DirectoryItem::new(short("FOO", ATTRIBUTE_SUBDIRECTORY, 12, 0), None);
    assert_eq!(resolve_path_step(&AsciiOnlyEncoder, "bar.txt", true, &file), PathStep::Found);
    assert_eq!(resolve_path_step(&AsciiOnlyEncoder, "bar.txt", false, &file), PathStep::NotFound);
    assert_eq!(resolve_path_step(&AsciiOnlyEncoder, "baz.txt", true, &file), PathStep::Skip);
    assert_eq!(resolve_path_step(&AsciiOnlyEncoder, "foo", false, &directory), PathStep::Descend(12));
    assert_eq!(resolve_path_step(&AsciiOnlyEncoder, "foo", true, &directory), PathStep::Found);
}

#[test]
fn root_directory_follows_geometry() {
    let fat12 = Volume::mount(build_image(&Geometry {
        reserved: 1,
        root_entries: 16,
        total_sectors: 64,
        table_sectors: 1,
        fat32: false,
    }));
    assert_eq!(
        root_directory_of(&fat12.block),
        Some(RootDirectory::Table { start_address: 1024, entry_count: 16 })
    );
    let fat32 = Volume::mount(build_image(&Geometry {
        reserved: 32,
        root_entries: 0,
        total_sectors: 66200,
        table_sectors: 518,
        fat32: true,
    }));
    assert_eq!(root_directory_of(&fat32.block), Some(RootDirectory::File { first_cluster_number: 2 }));
}
