use embedded_fat::directory_entry::{
    ATTRIBUTE_LONG_NAME, ATTRIBUTE_SUBDIRECTORY, DirectoryEntry, DirectoryEntryAttributes,
    DirectoryEntryError, FreeDirectoryEntry, LONG_NAME_CHARACTERS_PER_ENTRY,
    LongNameDirectoryEntry, LongNameDirectoryEntryError, ShortNameDirectoryEntry,
    ShortNameDirectoryEntryError,
};
use embedded_fat::encoding::{AsciiOnlyEncoder, Ucs2Character};
use embedded_fat::file_name::ShortFileName;

const DIRECTORY_ENTRY_SIZE: usize = 32;

#[test]
fn free_all_following_parsed_correctly() {
    let mut data = [0x00; DIRECTORY_ENTRY_SIZE];
    data[0] = 0x00;
    let entry = DirectoryEntry::from_bytes(&data).expect("Ok should be returned");
    assert!(matches!(entry, DirectoryEntry::Free(FreeDirectoryEntry::AllFollowing)));
}

#[test]
fn free_current_only_parsed_correctly() {
    let mut data = [0x00; DIRECTORY_ENTRY_SIZE];
    data[0] = 0xE5;
    let entry = DirectoryEntry::from_bytes(&data).expect("Ok should be returned");
    assert!(matches!(entry, DirectoryEntry::Free(FreeDirectoryEntry::CurrentOnly)));
}

#[test]
fn short_name_parsed_correctly() {
    let short_name_entry = ShortNameDirectoryEntry::new(
        ShortFileName::from_str(&AsciiOnlyEncoder, "A").unwrap(),
        DirectoryEntryAttributes::empty(),
        2,
        0,
    );
    let mut data = [0x00; DIRECTORY_ENTRY_SIZE];
    short_name_entry.write(&mut data);
    let entry = DirectoryEntry::from_bytes(&data).expect("Ok should be returned");
    assert!(matches!(entry, DirectoryEntry::ShortName(_)), "ShortName entry should be returned");
}

#[test]
fn short_name_error_propagated() {
    let mut data = [0x00; DIRECTORY_ENTRY_SIZE];
    data[0] = 0x01;
    let error = DirectoryEntry::from_bytes(&data).expect_err("Err should be returned");
    assert!(matches!(error, DirectoryEntryError::ShortNameEntryInvalid(_)));
}

#[test]
fn long_name_parsed_correctly() {
    let mut ucs2_characters =
        [Ucs2Character::from_u16(0xFFFF).unwrap(); LONG_NAME_CHARACTERS_PER_ENTRY];
    ucs2_characters[0] = Ucs2Character::from_char('A').unwrap();
    ucs2_characters[1] = Ucs2Character::null();
    let long_name_entry = LongNameDirectoryEntry::new(0x01, ucs2_characters, 0x00);
    let mut data = [0x00; DIRECTORY_ENTRY_SIZE];
    long_name_entry.write(&mut data);
    let entry = DirectoryEntry::from_bytes(&data).expect("Ok should be returned");
    assert!(matches!(entry, DirectoryEntry::LongName(_)), "LongName entry should be returned");
}

#[test]
fn long_name_error_propagated() {
    let mut data = [0x00; DIRECTORY_ENTRY_SIZE];
    data[0] = 0x3F;
    data[11] = 0x0F;
    let error = DirectoryEntry::from_bytes(&data).expect_err("Err should be returned");
    assert!(matches!(error, DirectoryEntryError::LongNameEntryInvalid(_)));
}

#[test]
fn partial_long_name_attribute_is_a_short_name() {
    // Read-only alone does not make a long-name record.
    let mut data = [0x20; DIRECTORY_ENTRY_SIZE];
    data[0] = b'A';
    data[11] = 0x01;
    let entry = DirectoryEntry::from_bytes(&data).expect("Ok should be returned");
    assert!(matches!(entry, DirectoryEntry::ShortName(_)));
}

fn long_name_test_data() -> [u8; DIRECTORY_ENTRY_SIZE] {
    [
        // Order byte
        0x41,
        // Name stride 1
        0x66, 0x00, 0x6F, 0x00, 0x6F, 0x00, 0x6B, 0x71, 0x36, 0x21,
        // Attributes
        ATTRIBUTE_LONG_NAME,
        // Reserved
        0x00,
        // Short name checksum
        0x12,
        // Name stride 2
        0xCC, 0x18, 0x92, 0x5F, 0x99, 0xB2, 0xB3, 0xD4, 0x33, 0x60, 0x0C, 0xC3,
        // Reserved
        0x00, 0x00,
        // Name stride 3
        0x00, 0x00, 0xFF, 0xFF,
    ]
}

#[test]
fn long_name_parses_entry_correctly() {
    let data = long_name_test_data();
    let entry = LongNameDirectoryEntry::from_bytes(&data).expect("Ok should be returned");
    assert_eq!(entry.is_last_entry(), true);
    assert_eq!(entry.entry_number(), 1);
    assert_eq!(entry.short_name_checksum(), 0x12);
    let expected = [
        0x0066, 0x006F, 0x006F, 0x716B, 0x2136, 0x18CC, 0x5F92, 0xB299, 0xD4B3, 0x6033, 0xC30C,
        0x0000, 0xFFFF,
    ]
    .map(|codepoint| Ucs2Character::from_u16(codepoint).unwrap());
    assert_eq!(entry.ucs2_characters(), &expected);
}

#[test]
fn entry_number_zero_returns_err() {
    let mut data = long_name_test_data();
    data[0] = 0x00;
    let error = LongNameDirectoryEntry::from_bytes(&data).expect_err("Err should be returned");
    assert!(matches!(error, LongNameDirectoryEntryError::EntryNumberInvalid));
}

#[test]
fn entry_number_too_large_returns_err() {
    let mut data = long_name_test_data();
    data[0] = 0x3F;
    let error = LongNameDirectoryEntry::from_bytes(&data).expect_err("Err should be returned");
    assert!(matches!(error, LongNameDirectoryEntryError::EntryNumberInvalid));
}

#[test]
fn character_invalid_returns_err() {
    let mut data = long_name_test_data();
    data[3] = 0x00;
    data[4] = 0xD8;
    let error = LongNameDirectoryEntry::from_bytes(&data).expect_err("Err should be returned");
    assert!(matches!(
        error,
        LongNameDirectoryEntryError::NameCharacterInvalid { character: 0xD800, offset: 1 }
    ));
}

#[test]
fn long_name_roundtrips_correctly() {
    let data = long_name_test_data();
    let entry = LongNameDirectoryEntry::from_bytes(&data).expect("Ok should be returned");
    let mut result = [0x00; DIRECTORY_ENTRY_SIZE];
    entry.write(&mut result);
    assert_eq!(result, data, "Input and output bytes should match exactly");
}

fn short_name_test_data() -> [u8; DIRECTORY_ENTRY_SIZE] {
    [
        // Name
        0x46, 0x4F, 0x4F, 0x42, 0x41, 0x52, 0x20, 0x20, 0x54, 0x58, 0x54,
        // Attributes
        ATTRIBUTE_SUBDIRECTORY,
        // Reserved
        0x00,
        // Unparsed timestamps
        0x00, 0x00, 0x00, 0x00, 0x00, 0x00, 0x00,
        // First cluster high
        0x34, 0x12,
        // Unparsed timestamps
        0x00, 0x00, 0x00, 0x00,
        // First cluster low
        0x78, 0x56,
        // File size
        0xF1, 0xDE, 0xBC, 0x9A,
    ]
}

#[test]
fn short_name_parses_entry_correctly() {
    let data = short_name_test_data();
    let entry = ShortNameDirectoryEntry::from_bytes(&data).expect("Ok should be returned");
    assert_eq!(entry.name(), &ShortFileName::from_str(&AsciiOnlyEncoder, "foobar.txt").unwrap());
    assert_eq!(entry.is_directory(), true);
    assert_eq!(entry.first_cluster_number(), 0x12345678);
    assert_eq!(entry.file_size(), 0x9ABCDEF1);
}

#[test]
fn initial_byte_05_parsed_correctly() {
    let mut data = short_name_test_data();
    data[0] = 0x05;
    let entry = ShortNameDirectoryEntry::from_bytes(&data).expect("Ok should be returned");
    assert_eq!(entry.name().bytes()[0], 0xE5, "First byte of name should be 0xE5");
}

#[test]
fn short_name_roundtrips_correctly() {
    let data = short_name_test_data();
    let entry = ShortNameDirectoryEntry::from_bytes(&data).expect("Ok should be returned");
    let mut result = [0x00; DIRECTORY_ENTRY_SIZE];
    entry.write(&mut result);
    assert_eq!(result, data, "Input and output bytes should match exactly");
}

#[test]
fn initial_byte_05_roundtrips_correctly() {
    let mut data = short_name_test_data();
    data[0] = 0x05;
    let entry = ShortNameDirectoryEntry::from_bytes(&data).expect("Ok should be returned");
    let mut result = [0x00; DIRECTORY_ENTRY_SIZE];
    entry.write(&mut result);
    assert_eq!(result, data, "Input and output bytes should match exactly");
}

#[test]
fn short_name_checksum_survives_write_and_parse() {
    for name in ["FOO.BAR", "foo", "PICKLE.A", "prettybg.big"] {
        let short_name = ShortFileName::from_str(&AsciiOnlyEncoder, name).unwrap();
        let entry =
            ShortNameDirectoryEntry::new(short_name, DirectoryEntryAttributes::empty(), 9, 100);
        let mut data = [0xAB; DIRECTORY_ENTRY_SIZE];
        entry.write(&mut data);
        let parsed = ShortNameDirectoryEntry::from_bytes(&data).unwrap();
        assert_eq!(parsed.name().checksum(), short_name.checksum());
        assert_eq!(parsed.first_cluster_number(), 9);
        assert_eq!(parsed.file_size(), 100);
    }
}

#[test]
fn short_name_invalid_byte_reports_offset() {
    let mut data = short_name_test_data();
    data[4] = b'*';
    let error = ShortNameDirectoryEntry::from_bytes(&data).expect_err("Err should be returned");
    assert_eq!(error, ShortNameDirectoryEntryError::NameCharacterInvalid { character: b'*', offset: 4 });
}

