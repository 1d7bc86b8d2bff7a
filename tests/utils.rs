use embedded_fat::utils::{read_le_u16, read_le_u32, write_le_u16, write_le_u32};

#[test]
fn utils_exact_size_input_read_correctly() {
    let input = [0x12, 0x34];
    assert_eq!(read_le_u16(&input, 0), 0x3412, "Correct value should be returned");

    let input = [0x12, 0x34, 0x56, 0x78];
    assert_eq!(read_le_u32(&input, 0), 0x78563412, "Correct value should be returned");
}

#[test]
fn utils_oversized_input_read_correctly() {
    let input = [0x12, 0x34, 0x56, 0x78];
    assert_eq!(read_le_u16(&input, 0), 0x3412, "Correct value should be returned");

    let input = [0x12, 0x34, 0x56, 0x78, 0x9A, 0xBC, 0xDE, 0xF1];
    assert_eq!(read_le_u32(&input, 0), 0x78563412, "Correct value should be returned");
}

#[test]
fn utils_offset_input_read_correctly() {
    let input = [0x12, 0x34, 0x56];
    assert_eq!(read_le_u16(&input, 1), 0x5634, "Correct value should be returned");

    let input = [0x12, 0x34, 0x56, 0x78, 0x9A];
    assert_eq!(read_le_u32(&input, 1), 0x9A785634, "Correct value should be returned");
}

#[test]
fn utils_exact_size_output_written_correctly() {
    let mut output = [0xFF; 2];
    write_le_u16(&mut output, 0, 0x3412);
    assert_eq!(output, [0x12, 0x34], "Correct value should be written");

    let mut output = [0xFF; 4];
    write_le_u32(&mut output, 0, 0x78563412);
    assert_eq!(output, [0x12, 0x34, 0x56, 0x78], "Correct value should be written");
}

#[test]
fn utils_oversized_output_written_correctly() {
    let mut output = [0xFF; 4];
    write_le_u16(&mut output, 0, 0x3412);
    assert_eq!(output, [0x12, 0x34, 0xFF, 0xFF], "Correct value should be written");

    let mut output = [0xFF; 8];
    write_le_u32(&mut output, 0, 0x78563412);
    assert_eq!(
        output,
        [0x12, 0x34, 0x56, 0x78, 0xFF, 0xFF, 0xFF, 0xFF],
        "Correct value should be written"
    );
}

#[test]
fn utils_offset_output_written_correctly() {
    let mut output = [0xFF; 3];
    write_le_u16(&mut output, 1, 0x3412);
    assert_eq!(output, [0xFF, 0x12, 0x34], "Correct value should be written");

    let mut output = [0xFF; 5];
    write_le_u32(&mut output, 1, 0x78563412);
    assert_eq!(output, [0xFF, 0x12, 0x34, 0x56, 0x78], "Correct value should be written");
}

#[test]
fn round_trip_of_extreme_values() {
    let mut output = [0u8; 6];
    write_le_u16(&mut output, 4, 0xFFFF);
    write_le_u32(&mut output, 0, 0x8000_0001);
    assert_eq!(read_le_u16(&output, 4), 0xFFFF);
    assert_eq!(read_le_u32(&output, 0), 0x8000_0001);
}
