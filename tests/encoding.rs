use embedded_fat::encoding::{
    fold_character, fold_with_lowercase, AsciiOnlyEncoder, CharacterEncodingError, CodePageEncoder,
    Ucs2Character,
};

#[test]
fn ascii_characters_encodable() {
    let ascii_only_encoder = AsciiOnlyEncoder;
    for codepoint in 0x00..=0x7F {
        let character = char::from_u32(codepoint as u32).unwrap();
        let result = ascii_only_encoder.encode(character).expect("Ok should be returned");
        assert_eq!(result, codepoint);
    }
}

#[test]
fn non_ascii_characters_not_encodable() {
    let ascii_only_encoder = AsciiOnlyEncoder;
    let values = "к·’ж”€гЃ·лј§жЂЎк–џзЏ§вЉ¤е·¬й‰—кЏџећ‰й‹¶еЇ§";
    for value in values.chars() {
        let result = ascii_only_encoder.encode(value);
        assert_eq!(result, Err(CharacterEncodingError(value)));
    }
}

#[test]
fn ascii_characters_uppercased() {
    assert_eq!(AsciiOnlyEncoder.uppercase('a'), 'A');
    assert_eq!(AsciiOnlyEncoder.uppercase('z'), 'Z');
    assert_eq!(AsciiOnlyEncoder.uppercase('1'), '1');
}

#[test]
fn non_ascii_characters_not_modified() {
    assert_eq!(AsciiOnlyEncoder.uppercase('\u{101}'), '\u{101}');
}

#[test]
fn equals_zero() {
    assert_eq!(Ucs2Character::null().to_u16(), 0);
}

const VALID_RANGES: [(u16, u16); 2] = [(0x0000, 0xD7FF), (0xE000, 0xFFFF)];

#[test]
fn non_reserved_codepoints_valid() {
    for (start, end) in VALID_RANGES {
        for codepoint in start..=end {
            let result = Ucs2Character::from_u16(codepoint).expect("Some should be returned");
            assert_eq!(result.to_u16(), codepoint);
        }
    }
}

#[test]
fn reserved_codepoints_invalid() {
    for codepoint in 0xD800..=0xDFFF {
        assert!(Ucs2Character::from_u16(codepoint).is_none(), "None should be returned");
    }
}

#[test]
fn basic_multilingual_plane_characters_valid() {
    for (start, end) in VALID_RANGES {
        for codepoint in start..=end {
            let character = char::from_u32(codepoint as u32).unwrap();
            let result = Ucs2Character::from_char(character).expect("Some should be returned");
            assert_eq!(result.to_u16(), codepoint);
            assert_eq!(result.to_char(), character);
        }
    }
}

#[test]
fn non_bmp_character_invalid() {
    for codepoint in 0x01_0000..=0x10_FFFF {
        let character = char::from_u32(codepoint as u32).unwrap();
        assert!(Ucs2Character::from_char(character).is_none(), "None should be returned");
    }
}

#[test]
fn same_case_values_are_equal() {
    for (start, end) in VALID_RANGES {
        for codepoint in start..=end {
            let first = Ucs2Character::from_u16(codepoint).unwrap();
            let second = Ucs2Character::from_u16(codepoint).unwrap();
            assert!(first.eq_ignore_case(&first));
            assert!(first.eq_ignore_case(&second));
            assert!(second.eq_ignore_case(&first));
        }
    }
}

#[test]
fn same_character_difference_case_are_equal() {
    let first = Ucs2Character::from_char('a').unwrap();
    let second = Ucs2Character::from_char('A').unwrap();
    assert!(first.eq_ignore_case(&second));
    assert!(second.eq_ignore_case(&first));
}

#[test]
fn different_characters_are_not_equal() {
    let first = Ucs2Character::from_char('A').unwrap();
    let second = Ucs2Character::from_char('B').unwrap();
    assert!(!first.eq_ignore_case(&second));
    assert!(!second.eq_ignore_case(&first));
}

#[test]
fn ucs2_character_produces_non_empty_value() {
    let value = Ucs2Character::null();
    assert!(!value.to_string().is_empty(), "Display implementation should be non-empty");
    assert_eq!(Ucs2Character::from_char('é').unwrap().to_string(), "é");
}

#[test]
fn folding_uses_single_character_lowercase() {
    assert_eq!(fold_character(0x0041), 0x0061);
    assert_eq!(fold_character(0x0061), 0x0061);
    assert_eq!(fold_character(0x1E9E), 0x00DF);
    assert_eq!(fold_character(0x0391), 0x03B1);
    // U+0130 lower-cases to two characters and keeps its own form.
    assert_eq!(fold_character(0x0130), 0x0130);
    assert_eq!(fold_character(0xD800), 0xD800);
}

#[test]
fn folding_from_given_lowercase() {
    assert_eq!(fold_with_lowercase(0x41, (Some('a'), None)), 0x61);
    assert_eq!(fold_with_lowercase(0x130, (Some('i'), Some('\u{307}'))), 0x130);
    assert_eq!(fold_with_lowercase(0x42, (Some('\u{10400}'), None)), 0x42);
    assert_eq!(fold_with_lowercase(0x43, (None, None)), 0x43);
}
