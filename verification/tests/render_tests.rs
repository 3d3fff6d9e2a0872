use get_last_error::decode_utf16_lossy;
use get_last_error::hex_literal_chars;
use get_last_error::render_message;
use get_last_error::trim_whitespace;
use get_last_error::REPLACEMENT;

fn units_of(s: &str) -> Vec<u16> {
    s.encode_utf16().collect()
}

fn string_of(chars: &[char]) -> String {
    chars.iter().collect()
}

#[test]
fn unknown_code_renders_as_hex() {
    let out = render_message(0xFFFF_FFFF, &Vec::new());
    assert_eq!(string_of(&out), "0xFFFFFFFF");
}

#[test]
fn hex_fallback_is_zero_padded() {
    assert_eq!(string_of(&render_message(5, &Vec::new())), "0x00000005");
    assert_eq!(string_of(&render_message(0, &Vec::new())), "0x00000000");
    assert_eq!(string_of(&render_message(0x01234ABC, &Vec::new())), "0x01234ABC");
    assert_eq!(string_of(&render_message(0xDEADBEEF, &Vec::new())), "0xDEADBEEF");
}

#[test]
fn hex_literal_matches_format() {
    for code in [0u32, 1, 5, 0xABC, 0x01234ABC, 0x8000_0000, 0xFFFF_FFFF] {
        assert_eq!(string_of(&hex_literal_chars(code)), format!("{:#010X}", code));
    }
}

#[test]
fn success_message_is_trimmed() {
    let units = units_of("The operation completed successfully.\r\n");
    let out = render_message(0, &units);
    let text = string_of(&out);
    assert_eq!(text, "The operation completed successfully.");
    assert!(!text.is_empty());
    assert_eq!(text.trim(), text);
    assert!(!text.starts_with("0x"));
}

#[test]
fn leading_and_trailing_whitespace_is_trimmed() {
    let units = units_of(" \t Access is denied. \r\n");
    assert_eq!(string_of(&render_message(5, &units)), "Access is denied.");
}

#[test]
fn all_whitespace_message_renders_empty() {
    let units = units_of(" \r\n\t\u{00A0}\u{3000} ");
    let out = render_message(0, &units);
    assert_eq!(out, Vec::<char>::new());
}

#[test]
fn interior_whitespace_is_kept() {
    let units = units_of("  a b  ");
    assert_eq!(string_of(&render_message(0, &units)), "a b");
}

#[test]
fn surrogate_pair_decodes_to_supplementary_character() {
    let units: Vec<u16> = vec![0xD83D, 0xDE00];
    let out = decode_utf16_lossy(&units);
    assert_eq!(out, vec!['\u{1F600}']);
    assert_eq!(string_of(&render_message(0, &units)), "\u{1F600}");
}

#[test]
fn lone_high_surrogate_becomes_replacement() {
    let units: Vec<u16> = vec![0x48, 0xD800, 0x49];
    assert_eq!(decode_utf16_lossy(&units), vec!['H', REPLACEMENT, 'I']);
}

#[test]
fn lone_low_surrogate_becomes_replacement() {
    let units: Vec<u16> = vec![0xDC00];
    assert_eq!(decode_utf16_lossy(&units), vec![REPLACEMENT]);
    assert_eq!(render_message(7, &units), vec![REPLACEMENT]);
}

#[test]
fn high_surrogate_before_pair_becomes_one_replacement() {
    let units: Vec<u16> = vec![0xD800, 0xD800, 0xDC00];
    assert_eq!(decode_utf16_lossy(&units), vec![REPLACEMENT, '\u{10000}']);
}

#[test]
fn decode_matches_std_utf16_decoding() {
    let samples: Vec<Vec<u16>> = vec![
        units_of("The operation completed successfully.\r\n"),
        vec![0xD83D, 0xDE00, 0x20, 0xD800, 0xDC00, 0xDFFF, 0xDBFF],
        vec![0x0000, 0xFFFF, 0xD7FF, 0xE000],
        Vec::new(),
    ];
    for units in samples {
        let expected: Vec<char> = char::decode_utf16(units.iter().copied())
            .map(|r| r.unwrap_or(REPLACEMENT))
            .collect();
        assert_eq!(decode_utf16_lossy(&units), expected);
    }
}

#[test]
fn trim_whitespace_drops_only_the_edges() {
    let chars: Vec<char> = vec![' ', '\t', 'a', ' ', 'b', '\u{2028}', '\r', '\n'];
    assert_eq!(trim_whitespace(&chars), vec!['a', ' ', 'b']);
    assert_eq!(trim_whitespace(&Vec::new()), Vec::<char>::new());
    assert_eq!(trim_whitespace(&vec!['a']), vec!['a']);
    assert_eq!(trim_whitespace(&vec![' ']), Vec::<char>::new());
}

#[test]
fn full_buffer_renders_without_truncation_or_overflow() {
    let units: Vec<u16> = vec![0x61; 1024];
    let out = render_message(0, &units);
    assert_eq!(out.len(), 1024);
    assert!(out.iter().all(|&c| c == 'a'));

    let mut padded: Vec<u16> = vec![0x20];
    padded.extend(vec![0x62; 1022]);
    padded.push(0x20);
    assert_eq!(padded.len(), 1024);
    let out = render_message(0, &padded);
    assert_eq!(out.len(), 1022);
    assert!(out.iter().all(|&c| c == 'b'));
}
