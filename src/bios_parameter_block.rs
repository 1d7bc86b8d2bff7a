//! The BIOS Parameter Block of the boot sector: a validating parse and the geometry derived
//! from it.
use vstd::prelude::*;
use crate::allocation_table::{AllocationTableKind, kind_for_cluster_count};
use crate::utils::{le_u16_at, le_u32_at, read_le_u16, read_le_u32};

verus! {

/// Size in bytes of one directory record.
pub const DIRECTORY_ENTRY_SIZE: usize = 32;

/// Which boot-sector field failed validation.
#[derive(Clone, Copy, Debug, PartialEq, Eq, Structural)]
pub enum BiosParameterBlockError {
    AllocationTableCountInvalid,
    AllocationTableTooSmall,
    BytesPerSectorInvalid,
    FilesystemVersionUnsupported,
    FsInfoSectorNumberInvalid,
    MediaTypeInvalid,
    ReservedSectorCountInvalid,
    RootDirectoryEntryCountInvalid,
    RootDirectoryFileClusterNumberInvalid,
    SectorsPerClusterInvalid,
    SectorsPerAllocationTable16BitInvalid,
    SectorsPerAllocationTableNotSet,
    TotalSectorCount16BitInvalid,
    TotalSectorCountNotSet,
    TotalSectorCountTooSmall,
}

/// The parsed geometry of a FAT volume.
#[derive(Clone, Copy, Debug, PartialEq, Eq, Structural)]
pub struct BiosParameterBlock {
    pub allocation_table_kind: AllocationTableKind,
    pub active_allocation_table_index: u8,
    pub allocation_table_mirroring_enabled: bool,
    pub bytes_per_sector: u16,
    pub sectors_per_cluster: u8,
    pub reserved_sector_count: u16,
    pub fs_info_sector_index: Option<u16>,
    pub allocation_table_count: u8,
    pub root_directory_entry_count: u16,
    pub root_directory_file_cluster_number: Option<u32>,
    pub last_cluster_number: u32,
    pub sectors_per_allocation_table: u32,
}

/// The 16-bit boot-sector field at `offset`.
pub open spec fn field_u16(b: Seq<u8>, offset: int) -> u16 {
    le_u16_at(b, offset) as u16
}

/// The 32-bit boot-sector field at `offset`.
pub open spec fn field_u32(b: Seq<u8>, offset: int) -> u32 {
    le_u32_at(b, offset) as u32
}

/// The sector sizes that FAT allows.
pub open spec fn valid_bytes_per_sector(v: u16) -> bool {
    v == 512 || v == 1024 || v == 2048 || v == 4096
}

/// The cluster sizes, in sectors, that FAT allows: powers of two up to 128.
pub open spec fn valid_sectors_per_cluster(v: u8) -> bool {
    v == 1 || v == 2 || v == 4 || v == 8 || v == 16 || v == 32 || v == 64 || v == 128
}

/// The media descriptor bytes that FAT allows.
pub open spec fn valid_media_type(v: u8) -> bool {
    v == 0xF0 || v >= 0xF8
}

/// Total sectors: the 16-bit field when it is set, else the 32-bit one.
pub open spec fn total_sectors_of(b: Seq<u8>) -> int {
    if field_u16(b, 19) > 0 { field_u16(b, 19) as int } else { field_u32(b, 32) as int }
}

/// Sectors per table: the 16-bit field when it is set, else the 32-bit one.
pub open spec fn table_sectors_of(b: Seq<u8>) -> int {
    if field_u16(b, 22) > 0 { field_u16(b, 22) as int } else { field_u32(b, 36) as int }
}

/// Sectors taken by the fixed root directory, rounded up.
pub open spec fn root_directory_sectors_of(b: Seq<u8>) -> int {
    (field_u16(b, 17) as int * 32 + field_u16(b, 11) as int - 1) / (field_u16(b, 11) as int)
}

/// Sectors taken by the reserved area, the tables and the root directory.
pub open spec fn used_sectors_of(b: Seq<u8>) -> int {
    field_u16(b, 14) as int + b[16] as int * table_sectors_of(b) + root_directory_sectors_of(b)
}

/// Sectors left for data after the reserved area, the tables and the root directory.
pub open spec fn data_sectors_of(b: Seq<u8>) -> int {
    total_sectors_of(b) - used_sectors_of(b)
}

/// Whole clusters in the data region.
pub open spec fn data_clusters_of(b: Seq<u8>) -> int {
    data_sectors_of(b) / (b[13] as int)
}

/// How many entries the allocation table holds, by its size in bytes.
pub open spec fn table_entry_capacity(kind: AllocationTableKind, table_bytes: int) -> int {
    match kind {
        AllocationTableKind::Fat12 => table_bytes * 3 / 2,
        AllocationTableKind::Fat16 => table_bytes / 2,
        AllocationTableKind::Fat32 => table_bytes / 4,
    }
}

/// The first field of the boot sector `b` that fails validation, in the order in which the
/// fields are checked.
pub open spec fn boot_sector_error(b: Seq<u8>) -> Option<BiosParameterBlockError> {
    let kind = kind_for_cluster_count(data_clusters_of(b));
    if !valid_bytes_per_sector(field_u16(b, 11)) {
        Some(BiosParameterBlockError::BytesPerSectorInvalid)
    } else if !valid_sectors_per_cluster(b[13]) {
        Some(BiosParameterBlockError::SectorsPerClusterInvalid)
    } else if field_u16(b, 14) == 0 {
        Some(BiosParameterBlockError::ReservedSectorCountInvalid)
    } else if b[16] == 0 {
        Some(BiosParameterBlockError::AllocationTableCountInvalid)
    } else if !valid_media_type(b[21]) {
        Some(BiosParameterBlockError::MediaTypeInvalid)
    } else if field_u16(b, 19) == 0 && field_u32(b, 32) == 0 {
        Some(BiosParameterBlockError::TotalSectorCountNotSet)
    } else if field_u16(b, 22) == 0 && field_u32(b, 36) == 0 {
        Some(BiosParameterBlockError::SectorsPerAllocationTableNotSet)
    } else if used_sectors_of(b) > total_sectors_of(b) {
        Some(BiosParameterBlockError::TotalSectorCountTooSmall)
    } else if kind == AllocationTableKind::Fat32 && field_u16(b, 17) != 0 {
        Some(BiosParameterBlockError::RootDirectoryEntryCountInvalid)
    } else if kind == AllocationTableKind::Fat32 && field_u16(b, 19) != 0 {
        Some(BiosParameterBlockError::TotalSectorCount16BitInvalid)
    } else if kind == AllocationTableKind::Fat32 && field_u16(b, 22) != 0 {
        Some(BiosParameterBlockError::SectorsPerAllocationTable16BitInvalid)
    } else if kind == AllocationTableKind::Fat32 && (b[42] != 0 || b[43] != 0) {
        Some(BiosParameterBlockError::FilesystemVersionUnsupported)
    } else if kind == AllocationTableKind::Fat32 && field_u32(b, 44) < 2 {
        Some(BiosParameterBlockError::RootDirectoryFileClusterNumberInvalid)
    } else if kind == AllocationTableKind::Fat32 && field_u16(b, 48) < 1 {
        Some(BiosParameterBlockError::FsInfoSectorNumberInvalid)
    } else if kind != AllocationTableKind::Fat32 && field_u16(b, 22) == 0 {
        Some(BiosParameterBlockError::SectorsPerAllocationTable16BitInvalid)
    } else if kind != AllocationTableKind::Fat32 && field_u16(b, 17) == 0 {
        Some(BiosParameterBlockError::RootDirectoryEntryCountInvalid)
    } else if table_entry_capacity(kind, table_sectors_of(b) * field_u16(b, 11) as int)
        < data_clusters_of(b) + 2 {
        Some(BiosParameterBlockError::AllocationTableTooSmall)
    } else {
        None
    }
}

/// The block that a valid boot sector `b` describes.
pub open spec fn boot_sector_block(b: Seq<u8>) -> BiosParameterBlock {
    let kind = kind_for_cluster_count(data_clusters_of(b));
    let is_fat32 = kind == AllocationTableKind::Fat32;
    BiosParameterBlock {
        allocation_table_kind: kind,
        active_allocation_table_index: if is_fat32 { (field_u16(b, 40) % 8) as u8 } else { 0 },
        allocation_table_mirroring_enabled: if is_fat32 {
            (field_u16(b, 40) / 128) % 2 == 1
        } else {
            true
        },
        bytes_per_sector: field_u16(b, 11),
        sectors_per_cluster: b[13],
        reserved_sector_count: field_u16(b, 14),
        fs_info_sector_index: if is_fat32 { Some(field_u16(b, 48)) } else { None },
        allocation_table_count: b[16],
        root_directory_entry_count: field_u16(b, 17),
        root_directory_file_cluster_number: if is_fat32 { Some(field_u32(b, 44)) } else { None },
        last_cluster_number: (data_clusters_of(b) + 1) as u32,
        sectors_per_allocation_table: table_sectors_of(b) as u32,
    }
}

/// Whether the boot sector ends in the 0x55 0xAA signature.
pub fn has_boot_sector_signature(bytes: &[u8; 512]) -> (r: bool)
    ensures
        r == (bytes@[510] == 0x55 && bytes@[511] == 0xAA),
{
    bytes[510] == 0x55 && bytes[511] == 0xAA
}

impl BiosParameterBlock {
    /// Parses and validates the boot sector; each invalid field gives its own error.
    #[verifier::rlimit(40)]
    pub fn from_boot_sector(bytes: &[u8; 512]) -> (r: Result<Self, BiosParameterBlockError>)
        ensures
            boot_sector_error(bytes@) is None <==> r is Ok,
            r is Ok ==> r->Ok_0 == boot_sector_block(bytes@),
            r is Err ==> boot_sector_error(bytes@) == Some(r->Err_0),
    {
        let b = Ghost(bytes@);
        let bytes_per_sector = read_le_u16(bytes, 11);
        if !(bytes_per_sector == 512 || bytes_per_sector == 1024 || bytes_per_sector == 2048
            || bytes_per_sector == 4096) {
            return Err(BiosParameterBlockError::BytesPerSectorInvalid);
        }
        let sectors_per_cluster = bytes[13];
        if !(sectors_per_cluster == 1 || sectors_per_cluster == 2 || sectors_per_cluster == 4
            || sectors_per_cluster == 8 || sectors_per_cluster == 16 || sectors_per_cluster == 32
            || sectors_per_cluster == 64 || sectors_per_cluster == 128) {
            return Err(BiosParameterBlockError::SectorsPerClusterInvalid);
        }
        let reserved_sector_count = read_le_u16(bytes, 14);
        if reserved_sector_count == 0 {
            return Err(BiosParameterBlockError::ReservedSectorCountInvalid);
        }
        let allocation_table_count = bytes[16];
        if allocation_table_count == 0 {
            return Err(BiosParameterBlockError::AllocationTableCountInvalid);
        }
        let root_directory_entry_count = read_le_u16(bytes, 17);
        let total_sector_count_16bit = read_le_u16(bytes, 19);
        if !(bytes[21] == 0xF0 || bytes[21] >= 0xF8) {
            return Err(BiosParameterBlockError::MediaTypeInvalid);
        }
        let sectors_per_allocation_table_16bit = read_le_u16(bytes, 22);

        let total_sector_count: u32 = if total_sector_count_16bit > 0 {
            total_sector_count_16bit as u32
        } else {
            let total_sector_count_32bit = read_le_u32(bytes, 32);
            if total_sector_count_32bit == 0 {
                return Err(BiosParameterBlockError::TotalSectorCountNotSet);
            }
            total_sector_count_32bit
        };
        let sectors_per_allocation_table: u32 = if sectors_per_allocation_table_16bit > 0 {
            sectors_per_allocation_table_16bit as u32
        } else {
            let sectors_per_allocation_table_32bit = read_le_u32(bytes, 36);
            if sectors_per_allocation_table_32bit == 0 {
                return Err(BiosParameterBlockError::SectorsPerAllocationTableNotSet);
            }
            sectors_per_allocation_table_32bit
        };
        assert(total_sector_count == total_sectors_of(b@));
        assert(sectors_per_allocation_table == table_sectors_of(b@));

        let root_directory_sectors: u64 = (root_directory_entry_count as u64
            * DIRECTORY_ENTRY_SIZE as u64 + bytes_per_sector as u64 - 1) / bytes_per_sector as u64;
        assert(root_directory_sectors <= 65535 * 32 + 4095) by (nonlinear_arith)
            requires
                root_directory_sectors as int == (root_directory_entry_count as int * 32
                    + bytes_per_sector as int - 1) / bytes_per_sector as int,
                bytes_per_sector >= 512,
                root_directory_entry_count <= 65535,
                bytes_per_sector <= 4096,
        ;
        assert(allocation_table_count as u64 * sectors_per_allocation_table as u64 <= 255
            * 0xFFFF_FFFFu64) by (nonlinear_arith)
            requires
                allocation_table_count <= 255,
                sectors_per_allocation_table <= 0xFFFF_FFFFu32,
        ;
        let used_sectors: u64 = reserved_sector_count as u64 + allocation_table_count as u64
            * sectors_per_allocation_table as u64 + root_directory_sectors;
        if used_sectors > total_sector_count as u64 {
            return Err(BiosParameterBlockError::TotalSectorCountTooSmall);
        }
        let data_sectors_count: u64 = total_sector_count as u64 - used_sectors;
        assert(data_sectors_count == data_sectors_of(b@));
        let data_cluster_count: u32 = (data_sectors_count / sectors_per_cluster as u64) as u32;
        assert(data_cluster_count == data_clusters_of(b@));

        let allocation_table_kind = AllocationTableKind::new(data_cluster_count);

        let mut active_allocation_table_index: u8 = 0;
        let mut allocation_table_mirroring_enabled = true;
        let mut root_directory_file_cluster_number: Option<u32> = None;
        let mut fs_info_sector_index: Option<u16> = None;

        if matches!(allocation_table_kind, AllocationTableKind::Fat32) {
            if root_directory_entry_count != 0 {
                return Err(BiosParameterBlockError::RootDirectoryEntryCountInvalid);
            }
            if total_sector_count_16bit != 0 {
                return Err(BiosParameterBlockError::TotalSectorCount16BitInvalid);
            }
            if sectors_per_allocation_table_16bit != 0 {
                return Err(BiosParameterBlockError::SectorsPerAllocationTable16BitInvalid);
            }
            let ext_flags = read_le_u16(bytes, 40);
            assert(ext_flags & 0b111u16 <= 7) by (bit_vector);
            active_allocation_table_index = (ext_flags & 0b111u16) as u8;
            allocation_table_mirroring_enabled = ext_flags & (1u16 << 7u16) > 0;
            assert(ext_flags & 0b111u16 == ext_flags % 8) by (bit_vector);
            assert((ext_flags & (1u16 << 7u16) > 0) == ((ext_flags / 128) % 2 == 1))
                by (bit_vector);
            if !(bytes[42] == 0 && bytes[43] == 0) {
                return Err(BiosParameterBlockError::FilesystemVersionUnsupported);
            }
            let root_cluster = read_le_u32(bytes, 44);
            if root_cluster < 2 {
                return Err(BiosParameterBlockError::RootDirectoryFileClusterNumberInvalid);
            }
            root_directory_file_cluster_number = Some(root_cluster);
            let fs_info = read_le_u16(bytes, 48);
            if fs_info < 1 {
                return Err(BiosParameterBlockError::FsInfoSectorNumberInvalid);
            }
            fs_info_sector_index = Some(fs_info);
        } else {
            if sectors_per_allocation_table_16bit == 0 {
                return Err(BiosParameterBlockError::SectorsPerAllocationTable16BitInvalid);
            }
            if root_directory_entry_count == 0 {
                return Err(BiosParameterBlockError::RootDirectoryEntryCountInvalid);
            }
        }

        let allocation_table_bytes: u64 = sectors_per_allocation_table as u64
            * bytes_per_sector as u64;
        let allocation_table_entry_count: u64 = match allocation_table_kind {
            AllocationTableKind::Fat12 => (allocation_table_bytes * 3) / 2,
            AllocationTableKind::Fat16 => allocation_table_bytes / 2,
            AllocationTableKind::Fat32 => allocation_table_bytes / 4,
        };
        if allocation_table_entry_count < data_cluster_count as u64 + 2 {
            return Err(BiosParameterBlockError::AllocationTableTooSmall);
        }

        Ok(Self {
            allocation_table_kind,
            active_allocation_table_index,
            allocation_table_mirroring_enabled,
            bytes_per_sector,
            sectors_per_cluster,
            reserved_sector_count,
            fs_info_sector_index,
            allocation_table_count,
            root_directory_entry_count,
            root_directory_file_cluster_number,
            last_cluster_number: data_cluster_count + 1,
            sectors_per_allocation_table,
        })
    }
}

/// A product of bounded naturals is bounded by the product of the bounds.
proof fn lemma_mul_le(a: int, b: int, x: int, y: int)
    requires
        0 <= a <= x,
        0 <= b <= y,
    ensures
        0 <= a * b <= x * y,
{
    assert(0 <= a * b <= x * y) by (nonlinear_arith)
        requires
            0 <= a <= x,
            0 <= b <= y,
    ;
}

impl BiosParameterBlock {
    /// Same as [`BiosParameterBlock::from_boot_sector`].
    pub fn new(boot_sector_bytes: &[u8; 512]) -> (r: Result<Self, BiosParameterBlockError>)
        ensures
            boot_sector_error(boot_sector_bytes@) is None <==> r is Ok,
            r is Ok ==> r->Ok_0 == boot_sector_block(boot_sector_bytes@),
            r is Err ==> boot_sector_error(boot_sector_bytes@) == Some(r->Err_0),
    {
        Self::from_boot_sector(boot_sector_bytes)
    }

    pub fn active_allocation_table_index(&self) -> (r: u8)
        ensures
            r == self.active_allocation_table_index,
    {
        self.active_allocation_table_index
    }

    pub fn allocation_table_kind(&self) -> (r: AllocationTableKind)
        ensures
            r == self.allocation_table_kind,
    {
        self.allocation_table_kind
    }

    pub fn allocation_table_mirroring_enabled(&self) -> (r: bool)
        ensures
            r == self.allocation_table_mirroring_enabled,
    {
        self.allocation_table_mirroring_enabled
    }

    pub fn allocation_table_count(&self) -> (r: u8)
        ensures
            r == self.allocation_table_count,
    {
        self.allocation_table_count
    }

    pub fn last_cluster_number(&self) -> (r: u32)
        ensures
            r == self.last_cluster_number,
    {
        self.last_cluster_number
    }

    pub fn root_directory_file_cluster_number(&self) -> (r: Option<u32>)
        ensures
            r == self.root_directory_file_cluster_number,
    {
        self.root_directory_file_cluster_number
    }

    pub fn directory_table_entry_count(&self) -> (r: u16)
        ensures
            r == self.root_directory_entry_count,
    {
        self.root_directory_entry_count
    }

    /// Bytes in one cluster.
    pub fn bytes_per_cluster(&self) -> (r: u32)
        ensures
            r == self.bytes_per_sector * self.sectors_per_cluster,
    {
        proof {
            lemma_mul_le(self.bytes_per_sector as int, self.sectors_per_cluster as int, 0xFFFF, 0xFF);
        }
        self.bytes_per_sector as u32 * self.sectors_per_cluster as u32
    }

    /// Device address of the first allocation table: just past the reserved sectors.
    pub fn allocation_table_base_address(&self) -> (r: u64)
        ensures
            r == self.bytes_per_sector * self.reserved_sector_count,
    {
        proof {
            lemma_mul_le(self.bytes_per_sector as int, self.reserved_sector_count as int, 0xFFFF, 0xFFFF);
        }
        self.bytes_per_sector as u64 * self.reserved_sector_count as u64
    }

    /// Size in bytes of one allocation table.
    pub fn allocation_table_size(&self) -> (r: u64)
        ensures
            r == self.sectors_per_allocation_table * self.bytes_per_sector,
    {
        proof {
            lemma_mul_le(
                self.sectors_per_allocation_table as int,
                self.bytes_per_sector as int,
                0xFFFF_FFFF,
                0xFFFF,
            );
        }
        self.sectors_per_allocation_table as u64 * self.bytes_per_sector as u64
    }

    /// Device address of the fixed root directory: just past every allocation table.
    pub fn directory_table_base_address(&self) -> (r: u64)
        ensures
            r == self.bytes_per_sector * self.reserved_sector_count + self.bytes_per_sector
                * self.sectors_per_allocation_table * self.allocation_table_count,
    {
        let table_size = self.allocation_table_size();
        assert(table_size <= 0xFFFF_FFFFu64 * 0xFFFFu64) by (nonlinear_arith)
            requires
                table_size == self.sectors_per_allocation_table * self.bytes_per_sector,
                self.bytes_per_sector <= 0xFFFF,
                self.sectors_per_allocation_table <= 0xFFFF_FFFFu32,
        ;
        proof {
            lemma_mul_le(table_size as int, self.allocation_table_count as int, (0xFFFF_FFFF * 0xFFFF) as int, 0xFF);
        }
        let tables: u64 = table_size * self.allocation_table_count as u64;
        assert(tables <= 0xFFFF_FFFFu64 * 0xFFFFu64 * 0xFFu64) by (nonlinear_arith)
            requires
                tables == table_size * self.allocation_table_count,
                table_size <= 0xFFFF_FFFFu64 * 0xFFFFu64,
                self.allocation_table_count <= 0xFF,
        ;
        assert(tables == self.bytes_per_sector * self.sectors_per_allocation_table
            * self.allocation_table_count) by (nonlinear_arith)
            requires
                tables == table_size * self.allocation_table_count,
                table_size == self.sectors_per_allocation_table * self.bytes_per_sector,
        ;
        let base = self.allocation_table_base_address();
        assert(base <= 0xFFFFu64 * 0xFFFFu64) by (nonlinear_arith)
            requires
                base == self.bytes_per_sector * self.reserved_sector_count,
                self.bytes_per_sector <= 0xFFFF,
                self.reserved_sector_count <= 0xFFFF,
        ;
        base + tables
    }

    /// Size in bytes of the fixed root directory.
    pub fn directory_table_size(&self) -> (r: u64)
        ensures
            r == self.root_directory_entry_count * 32,
    {
        self.root_directory_entry_count as u64 * DIRECTORY_ENTRY_SIZE as u64
    }

    /// Device address of the data region: just past the fixed root directory.
    pub fn data_region_base_address(&self) -> (r: u64)
        ensures
            r == self.bytes_per_sector * self.reserved_sector_count + self.bytes_per_sector
                * self.sectors_per_allocation_table * self.allocation_table_count
                + self.root_directory_entry_count * 32,
    {
        let directory_table = self.directory_table_base_address();
        assert(directory_table <= 0xFFFFu64 * 0xFFFFu64 + 0xFFFF_FFFFu64 * 0xFFFFu64 * 0xFFu64)
            by (nonlinear_arith)
            requires
                directory_table == self.bytes_per_sector * self.reserved_sector_count
                    + self.bytes_per_sector * self.sectors_per_allocation_table
                    * self.allocation_table_count,
                self.bytes_per_sector <= 0xFFFF,
                self.reserved_sector_count <= 0xFFFF,
                self.sectors_per_allocation_table <= 0xFFFF_FFFFu32,
                self.allocation_table_count <= 0xFF,
        ;
        directory_table + self.directory_table_size()
    }

    /// Device address of the FAT32 information sector, for FAT32 volumes.
    pub fn fs_info_base_address(&self) -> (r: Option<u64>)
        ensures
            r == (match self.fs_info_sector_index {
                Some(i) => Some((i * self.bytes_per_sector) as u64),
                None => None,
            }),
    {
        match self.fs_info_sector_index {
            Some(i) => {
                assert(i as u64 * self.bytes_per_sector as u64 <= 0xFFFFu64 * 0xFFFFu64)
                    by (nonlinear_arith)
                    requires
                        i <= 0xFFFF,
                        self.bytes_per_sector <= 0xFFFF,
                ;
                Some(i as u64 * self.bytes_per_sector as u64)
            },
            None => None,
        }
    }
}

impl BiosParameterBlockError {
    /// A human-readable description of the error.
    pub fn to_string(&self) -> (r: String)
        ensures
            r@.len() > 0,
    {
        match self {
            BiosParameterBlockError::AllocationTableCountInvalid => {
                proof {
                    reveal_strlit("BPB_NumFATs must not be zero");
                }
                "BPB_NumFATs must not be zero".to_owned()
            },
            BiosParameterBlockError::AllocationTableTooSmall => {
                proof {
                    reveal_strlit("the allocation table is too small to hold an entry for every data cluster");
                }
                "the allocation table is too small to hold an entry for every data cluster".to_owned()
            },
            BiosParameterBlockError::BytesPerSectorInvalid => {
                proof {
                    reveal_strlit("BPB_BytsPerSec must be 512, 1024, 2048 or 4096");
                }
                "BPB_BytsPerSec must be 512, 1024, 2048 or 4096".to_owned()
            },
            BiosParameterBlockError::FilesystemVersionUnsupported => {
                proof {
                    reveal_strlit("BPB_FSVer must be 0:0");
                }
                "BPB_FSVer must be 0:0".to_owned()
            },
            BiosParameterBlockError::FsInfoSectorNumberInvalid => {
                proof {
                    reveal_strlit("BPB_FSInfo must be at least 1");
                }
                "BPB_FSInfo must be at least 1".to_owned()
            },
            BiosParameterBlockError::MediaTypeInvalid => {
                proof {
                    reveal_strlit("BPB_Media must be 0xF0 or 0xF8 to 0xFF");
                }
                "BPB_Media must be 0xF0 or 0xF8 to 0xFF".to_owned()
            },
            BiosParameterBlockError::ReservedSectorCountInvalid => {
                proof {
                    reveal_strlit("BPB_RsvdSecCnt must not be zero");
                }
                "BPB_RsvdSecCnt must not be zero".to_owned()
            },
            BiosParameterBlockError::RootDirectoryEntryCountInvalid => {
                proof {
                    reveal_strlit("BPB_RootEntCnt must be zero on FAT32 and nonzero otherwise");
                }
                "BPB_RootEntCnt must be zero on FAT32 and nonzero otherwise".to_owned()
            },
            BiosParameterBlockError::RootDirectoryFileClusterNumberInvalid => {
                proof {
                    reveal_strlit("BPB_RootClus must be at least 2");
                }
                "BPB_RootClus must be at least 2".to_owned()
            },
            BiosParameterBlockError::SectorsPerClusterInvalid => {
                proof {
                    reveal_strlit("BPB_SecPerClus must be a power of two from 1 to 128");
                }
                "BPB_SecPerClus must be a power of two from 1 to 128".to_owned()
            },
            BiosParameterBlockError::SectorsPerAllocationTable16BitInvalid => {
                proof {
                    reveal_strlit("BPB_FATSz16 must be zero on FAT32 and nonzero otherwise");
                }
                "BPB_FATSz16 must be zero on FAT32 and nonzero otherwise".to_owned()
            },
            BiosParameterBlockError::SectorsPerAllocationTableNotSet => {
                proof {
                    reveal_strlit("BPB_FATSz16 or BPB_FATSz32 must be set");
                }
                "BPB_FATSz16 or BPB_FATSz32 must be set".to_owned()
            },
            BiosParameterBlockError::TotalSectorCount16BitInvalid => {
                proof {
                    reveal_strlit("BPB_TotSec16 must be zero on FAT32");
                }
                "BPB_TotSec16 must be zero on FAT32".to_owned()
            },
            BiosParameterBlockError::TotalSectorCountNotSet => {
                proof {
                    reveal_strlit("BPB_TotSec16 or BPB_TotSec32 must be set");
                }
                "BPB_TotSec16 or BPB_TotSec32 must be set".to_owned()
            },
            BiosParameterBlockError::TotalSectorCountTooSmall => {
                proof {
                    reveal_strlit(
                        "the reserved sectors, the tables and the root directory do not fit the volume",
                    );
                }
                "the reserved sectors, the tables and the root directory do not fit the volume".to_owned()
            },
        }
    }
}
} // verus!
