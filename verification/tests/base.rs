use chron::app_error::AppError;
use chron::config::ChronConfig;
use chron::location::normalize_location;
use chron::objectid::{objectid_to_timestamp, HexError, ObjectIdError};
use chron::text::{
    chars_of, contains, i64_to_string, is_whitespace, joined, parse_i64, strip_prefix,
};
use chron::timestamp::Timestamp;
use unicode_normalization::UnicodeNormalization;

#[test]
fn locations_are_lowered_and_normalized() {
    assert_eq!(normalize_location("Ballpark"), "ballpark");
    assert_eq!(normalize_location("ＡＢＣ"), "abc");
    assert_eq!(normalize_location("ﬁeld №1"), "field No1");
    assert_eq!(normalize_location("É"), "é");
    assert_eq!(normalize_location("e\u{301}"), "\u{e9}");
    assert_eq!(normalize_location(""), "");
}

#[test]
fn lower_case_comes_before_normalization() {
    // U+210C has no lower case of its own, and is a capital once it is normalized.
    assert_eq!(normalize_location("\u{210c}"), "H");
}

#[test]
fn locations_are_in_normal_form() {
    for c in '\0'..=char::MAX {
        for tail in ["", "\u{301}", "\u{323}\u{307}", "\u{11a8}"] {
            let location = normalize_location(&format!("{c}{tail}"));
            assert_eq!(location.nfkc().to_string(), location);
        }
    }
}

#[test]
fn ascii_locations_are_only_lowered() {
    for a in '\0'..='\u{7f}' {
        for b in '\0'..='\u{7f}' {
            let text = format!("{a}{b}");
            assert_eq!(normalize_location(&text), text.to_ascii_lowercase());
        }
    }
    assert_eq!(normalize_location("Main St. 12 @[`{"), "main st. 12 @[`{");
}

#[test]
fn equivalent_spellings_share_a_location() {
    assert_eq!(normalize_location("\u{212b}NGSTRÖM"), normalize_location("a\u{30a}ngstro\u{308}m"));
    assert_eq!(normalize_location("ｐａｒｋ"), normalize_location("PARK"));
}

#[test]
fn objectid_gives_its_second() {
    assert_eq!(
        objectid_to_timestamp("6805db0fac48194de3cd42d1"),
        Ok(Timestamp { unix_seconds: 0x6805db0f, nanosecond: 0, offset_seconds: 0 })
    );
    assert_eq!(
        objectid_to_timestamp("ffffffff0000000000000000"),
        Ok(Timestamp { unix_seconds: 4294967295, nanosecond: 0, offset_seconds: 0 })
    );
    assert_eq!(
        objectid_to_timestamp("000000000000000000000000"),
        Ok(Timestamp { unix_seconds: 0, nanosecond: 0, offset_seconds: 0 })
    );
}

#[test]
fn objectid_case_and_tail_do_not_matter() {
    assert_eq!(
        objectid_to_timestamp("6805DB0FAC48194DE3CD42D1"),
        objectid_to_timestamp("6805db0f0000000000000000")
    );
}

#[test]
fn objectids_sort_by_time() {
    let earlier = objectid_to_timestamp("6805db0fac48194de3cd42d1").unwrap();
    let later = objectid_to_timestamp("6846ba011b7a53d888cdef49").unwrap();
    assert!(earlier.unix_seconds < later.unix_seconds);
}

#[test]
fn objectid_of_another_length_is_refused() {
    assert_eq!(objectid_to_timestamp(""), Err(ObjectIdError::NotAnObjectId));
    assert_eq!(objectid_to_timestamp("6805db0fac48194de3cd42d"), Err(ObjectIdError::NotAnObjectId));
    assert_eq!(
        objectid_to_timestamp("6805db0fac48194de3cd42d1a"),
        Err(ObjectIdError::NotAnObjectId)
    );
    // 24 characters, but 25 bytes.
    assert_eq!(objectid_to_timestamp("é805db0fac48194de3cd42d1"), Err(ObjectIdError::NotAnObjectId));
}

#[test]
fn objectid_with_another_character_is_refused() {
    assert_eq!(
        objectid_to_timestamp("6805db0gac48194de3cd42dz"),
        Err(ObjectIdError::Hex(HexError::InvalidHexCharacter { c: 'g', index: 7 }))
    );
    // 23 characters in 24 bytes: the byte is reported, not the character.
    assert_eq!(
        objectid_to_timestamp("é05db0fac48194de3cd42d1"),
        Err(ObjectIdError::Hex(HexError::InvalidHexCharacter { c: '\u{c3}', index: 0 }))
    );
}

#[test]
fn objectid_errors_are_told_in_words() {
    assert_eq!(objectid_to_timestamp("").unwrap_err().message(), "not a valid objectid");
    assert_eq!(
        objectid_to_timestamp("6805db0gac48194de3cd42dz").unwrap_err().message(),
        "Invalid character 'g' at position 7"
    );
    assert_eq!(
        objectid_to_timestamp("6805db0fac4\n194de3cd42dz").unwrap_err().message(),
        "Invalid character '\\n' at position 11"
    );
    assert_eq!(ObjectIdError::Hex(HexError::OddLength).message(), "Odd number of digits");
    assert_eq!(ObjectIdError::Hex(HexError::InvalidStringLength).message(), "Invalid string length");
    assert_eq!(ObjectIdError::OutOfRange.message(), "timestamp was not in range");
}

#[test]
fn white_space_is_that_of_unicode() {
    for c in '\0'..=char::MAX {
        assert_eq!(is_whitespace(c), c.is_whitespace());
    }
}

#[test]
fn integers_are_read() {
    let texts = [
        "", "+", "-", "0", "-0", "+7", "007", "12a", "a12", " 1", "1 ", "--1", "+-1", "\u{661}",
        "9223372036854775807", "9223372036854775808", "-9223372036854775808",
        "-9223372036854775809", "+9223372036854775807", "18446744073709551616",
        "99999999999999999999999999999999999999999999", "00000000000000000000000000000000000000005",
        "99999999999999999999x",
    ];
    for text in texts {
        assert_eq!(parse_i64(text), text.parse::<i64>().ok());
    }
    assert_eq!(parse_i64("-42"), Some(-42));
}

#[test]
fn integers_are_written() {
    for n in [0, 7, 10, 1000, -1, -10, 909, i64::MAX, i64::MIN] {
        assert_eq!(i64_to_string(n), n.to_string());
        assert_eq!(parse_i64(&i64_to_string(n)), Some(n));
    }
    assert_eq!(i64_to_string(-205), "-205");
}

#[test]
fn spans_ignore_the_offset() {
    let before = Timestamp { unix_seconds: 10, nanosecond: 999_999_999, offset_seconds: 3600 };
    let after = Timestamp { unix_seconds: 12, nanosecond: 1, offset_seconds: 0 };
    assert_eq!(after.since(&before).nanoseconds, 1_000_000_002);
    assert_eq!(before.since(&after).nanoseconds, -1_000_000_002);
    assert_eq!(before.since(&before).nanoseconds, 0);
}

#[test]
fn failed_requests_are_server_errors() {
    let error = AppError("no such entity".to_string());
    assert_eq!(error.into_response(), (500, "no such entity".to_string()));
}

#[test]
fn configuration_keeps_what_it_is_told() {
    let config = ChronConfig {
        database_uri: "postgres://localhost/chron".to_string(),
        export_path: None,
        jitter: false,
    };
    assert_eq!(config.clone(), config);
}

#[test]
fn texts_are_searched_and_split() {
    assert!(contains("A was Recomposed into B", " was Recomposed into "));
    assert!(!contains("A was recomposed into B", " was Recomposed into "));
    assert!(contains("anything", ""));
    assert!(contains("", ""));
    assert!(!contains("", "a"));
    assert!(contains("aab", "ab"));
    assert_eq!(strip_prefix("SuperstarDay12", "SuperstarDay"), Some("12"));
    assert_eq!(strip_prefix("Superstar", "SuperstarDay"), None);
    assert_eq!(joined("añ", "b"), "añb");
    assert_eq!(chars_of("añ"), vec!['a', 'ñ']);
}
