//! Resolution of `/`-separated paths: where the root directory lies, and what each item of a
//! directory means for the path component being looked up.
use vstd::prelude::*;
use crate::bios_parameter_block::BiosParameterBlock;
use crate::directory_entry::ATTRIBUTE_SUBDIRECTORY;
use crate::directory_item::{DirectoryItem, item_matches};
use crate::encoding::CodePageEncoder;

verus! {

/// What one directory item means for the path component being looked up.
#[derive(Clone, Copy, Debug, PartialEq, Eq, Structural)]
pub enum PathStep {
    /// The item does not answer to the component; look at the next one.
    Skip,
    /// The item answers to the last component: it is the target.
    Found,
    /// The item is a directory answering to an inner component: continue in the directory
    /// whose chain starts at this cluster.
    Descend(u32),
    /// The item answers to an inner component but is not a directory: the path names nothing.
    NotFound,
}

/// Where the root directory lies.
#[derive(Clone, Copy, Debug, PartialEq, Eq, Structural)]
pub enum RootDirectory {
    /// The fixed table of FAT12 and FAT16 volumes.
    Table { start_address: u64, entry_count: u16 },
    /// The cluster chain of FAT32 volumes.
    File { first_cluster_number: u32 },
}

/// The long name of an item as code units, if it has one.
pub open spec fn item_long_view(item: DirectoryItem) -> Option<Seq<u16>> {
    match item.long_name {
        Some(l) => Some(l@),
        None => None,
    }
}

/// Whether the item describes a subdirectory.
pub open spec fn item_is_directory(item: DirectoryItem) -> bool {
    item.short_directory_entry.attributes.bits & ATTRIBUTE_SUBDIRECTORY == ATTRIBUTE_SUBDIRECTORY
}

/// Decides on one item of the current directory while looking up `component`, the last one of
/// the path when `is_last` holds.
pub fn resolve_path_step<E: CodePageEncoder>(
    encoder: &E,
    component: &str,
    is_last: bool,
    item: &DirectoryItem,
) -> (r: PathStep)
    requires
        component@.len() < usize::MAX,
    ensures
        ({
            let matched = item_matches(
                encoder,
                item.short_directory_entry.name.bytes@,
                item_long_view(*item),
                component@,
            );
            &&& !matched ==> r == PathStep::Skip
            &&& matched && is_last ==> r == PathStep::Found
            &&& matched && !is_last && item_is_directory(*item) ==> r == PathStep::Descend(
                item.short_directory_entry.first_cluster_number,
            )
            &&& matched && !is_last && !item_is_directory(*item) ==> r == PathStep::NotFound
        }),
{
    if !item.is_match(encoder, component) {
        PathStep::Skip
    } else if is_last {
        PathStep::Found
    } else if item.is_directory() {
        PathStep::Descend(item.first_cluster_number())
    } else {
        PathStep::NotFound
    }
}

/// Where the root directory of the volume lies: the fixed table when the block gives it
/// entries, else the chain that starts at the FAT32 root cluster.
pub fn root_directory_of(bpb: &BiosParameterBlock) -> (r: Option<RootDirectory>)
    ensures
        bpb.root_directory_entry_count > 0 ==> r == Some(
            RootDirectory::Table {
                start_address: (bpb.bytes_per_sector * bpb.reserved_sector_count + bpb.bytes_per_sector
                    * bpb.sectors_per_allocation_table * bpb.allocation_table_count) as u64,
                entry_count: bpb.root_directory_entry_count,
            },
        ),
        bpb.root_directory_entry_count == 0 ==> (r is Some <==> bpb.root_directory_file_cluster_number
            is Some),
        bpb.root_directory_entry_count == 0 ==> (r matches Some(RootDirectory::File {
            first_cluster_number: c,
        }) ==> bpb.root_directory_file_cluster_number == Some(c)),
        r matches Some(RootDirectory::Table { .. }) ==> bpb.root_directory_entry_count > 0,
{
    let entry_count = bpb.directory_table_entry_count();
    if entry_count > 0 {
        Some(
            RootDirectory::Table {
                start_address: bpb.directory_table_base_address(),
                entry_count,
            },
        )
    } else {
        match bpb.root_directory_file_cluster_number() {
            Some(c) => Some(RootDirectory::File { first_cluster_number: c }),
            None => None,
        }
    }
}

} // verus!
