//! A read-oriented FAT12/16/32 filesystem engine with verified on-disk codecs.
pub mod utils;
pub mod allocation_table;
pub mod bios_parameter_block;
pub mod encoding;
pub mod file_name;
pub mod directory_entry;
pub mod directory_item;
pub mod file;
pub mod directory_cursor;
pub mod path;
