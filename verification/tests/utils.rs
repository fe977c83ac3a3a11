use auto_esj::text::{decimal_string, parse_integer, same_text, to_chars, trimmed};
use auto_esj::utils::{clean_input, get_executable_name};

#[test]
fn executable_name_by_platform() {
    assert_eq!(get_executable_name("encryptor/encryptor", true), "encryptor/encryptor.exe");
    assert_eq!(get_executable_name("encryptor/encryptor", false), "encryptor/encryptor");
    assert_eq!(get_executable_name("", true), ".exe");
}

#[test]
fn input_is_trimmed_and_unquoted() {
    assert_eq!(clean_input("  \"C:\\books\\a b.txt\"  \n"), "C:\\books\\a b.txt");
    assert_eq!(clean_input("plain"), "plain");
    assert_eq!(clean_input("\"\"quoted\"\"\""), "quoted");
    assert_eq!(clean_input(" \" inner spaces stay \" "), " inner spaces stay ");
    assert_eq!(clean_input("a\"b"), "a\"b");
    assert_eq!(clean_input("\"\""), "");
    assert_eq!(clean_input("   "), "");
    assert_eq!(clean_input(""), "");
}

#[test]
fn cleaning_agrees_with_the_standard_library() {
    for line in ["  x ", "\"x\"", " \"\" ", "\t\"a\" \"b\"\r\n", "\u{3000}\"y\"\u{3000}"] {
        assert_eq!(clean_input(line), line.trim().trim_matches('"'));
    }
}

#[test]
fn trimming_agrees_with_the_standard_library() {
    for line in ["", " ", "a", " a", "a ", "\t a b \r\n", "\u{a0}x\u{2003}", "\u{200b}x", "\u{85}\u{1680}z\u{2028}\u{2029}"] {
        assert_eq!(trimmed(line), line.trim());
    }
}

#[test]
fn decimal_text() {
    assert_eq!(decimal_string(0), "0");
    assert_eq!(decimal_string(7), "7");
    assert_eq!(decimal_string(10), "10");
    assert_eq!(decimal_string(1234567890), "1234567890");
    assert_eq!(decimal_string(usize::MAX), usize::MAX.to_string());
}

#[test]
fn integers_are_read_as_the_standard_library_reads_them() {
    for text in [
        "0", "-0", "+0", "7", "-7", "+7", "007", "", "-", "+", "+-1", "--1", " 1", "1 ", "1a", "٣",
        "9223372036854775807", "9223372036854775808", "-9223372036854775808", "-9223372036854775809",
        "99999999999999999999999", "-99999999999999999999999",
    ] {
        assert_eq!(parse_integer(text), text.parse::<i64>().ok(), "reading {:?}", text);
    }
}

#[test]
fn texts_are_compared_by_their_characters() {
    assert!(same_text("", ""));
    assert!(same_text("章", "章"));
    assert!(!same_text("a", "b"));
    assert!(!same_text("a", "ab"));
    assert_eq!(to_chars("a章b"), vec!['a', '章', 'b']);
}

fn has_white_space_property(c: char) -> bool {
    matches!(
        c as u32,
        0x09..=0x0D | 0x20 | 0x85 | 0xA0 | 0x1680 | 0x2000..=0x200A | 0x2028 | 0x2029 | 0x202F | 0x205F | 0x3000
    )
}

#[test]
fn every_character_is_trimmed_exactly_if_it_is_whitespace() {
    let mut buffer = [0u8; 4];
    for code in 0..=0x10FFFFu32 {
        if let Some(c) = char::from_u32(code) {
            let text: &str = c.encode_utf8(&mut buffer);
            assert_eq!(trimmed(text).is_empty(), has_white_space_property(c), "U+{:04X}", code);
        }
    }
}
