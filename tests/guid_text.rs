use guid::{literal_accessor, literal_constant, Guid, GuidLayout, ParseGuidError, ParseGuidErrorKind};
use guid::text::is_ignored_char;

#[test]
fn from_str_test() {
    let guid: Guid = "01020304-0506-0708-090a-0b0d0e0f1011".parse().unwrap();
    assert_eq!(
        guid,
        Guid {
            data1: 0x01020304,
            data2: 0x0506,
            data3: 0x0708,
            data4: [0x09, 0x0a, 0x0b, 0x0d, 0x0e, 0x0f, 0x10, 0x11],
        },
    );
    assert_eq!("01020304-0506-0708-090a-0b0d0e0f1011", guid.to_string());
    println!("{}", guid.to_string());
    let guid = " 1020304-0506-0708-090a-0b0d0e0f1011"
        .parse::<Guid>()
        .expect_err("It should be error:Invalid length");

    match guid.kind() {
        ParseGuidErrorKind::InvalidLenError => {}
        other => panic!("expected a length error, got {:?}", other),
    }
}

fn sample() -> Guid {
    Guid {
        data1: 0x72631e54,
        data2: 0x78a4,
        data3: 0x11d0,
        data4: [0xbc, 0xf7, 0x00, 0xaa, 0x00, 0xb7, 0xb3, 0x2a],
    }
}

#[test]
fn parse_canonical_example() {
    let g = Guid::parse("01020304-0506-0708-090a-0b0d0e0f1011").unwrap();
    assert_eq!(g.data1, 0x01020304);
    assert_eq!(g.data2, 0x0506);
    assert_eq!(g.data3, 0x0708);
    assert_eq!(g.data4, [0x09, 0x0a, 0x0b, 0x0d, 0x0e, 0x0f, 0x10, 0x11]);
    assert_eq!(g.to_string(), "01020304-0506-0708-090a-0b0d0e0f1011");
}

#[test]
fn parse_leading_space_is_length_error() {
    let e = Guid::parse(" 1020304-0506-0708-090a-0b0d0e0f1011").unwrap_err();
    assert_eq!(*e.kind(), ParseGuidErrorKind::InvalidLenError);
}

#[test]
fn parse_non_hex_character_is_digit_error() {
    let e = Guid::parse("01020304-0x06-0708-090a-0b0d0e0f1011").unwrap_err();
    assert_eq!(*e.kind(), ParseGuidErrorKind::InvalidHexDigit(10));
}

#[test]
fn parse_wrong_length_with_bad_digit_reports_length() {
    let e = Guid::parse("0102030x-0506-0708-090a-0b0d0e0f10").unwrap_err();
    assert_eq!(*e.kind(), ParseGuidErrorKind::InvalidLenError);
}

#[test]
fn parse_reports_first_bad_character() {
    let e = Guid::parse("\"0102030g-0506-0708-090a-0b0d0e0f101z\"").unwrap_err();
    assert_eq!(*e.kind(), ParseGuidErrorKind::InvalidHexDigit(8));
}

#[test]
fn parse_empty_text() {
    let e = Guid::parse("").unwrap_err();
    assert_eq!(*e.kind(), ParseGuidErrorKind::InvalidLenError);
}

#[test]
fn parse_too_long() {
    let e = Guid::parse("72631e54-78a4-11d0-bcf7-00aa00b7b32a0").unwrap_err();
    assert_eq!(*e.kind(), ParseGuidErrorKind::InvalidLenError);
}

#[test]
fn parse_accepts_quotes_spaces_bare_and_upper_case() {
    let expected = sample();
    assert_eq!(Guid::parse("\"72631e54-78a4-11d0-bcf7-00aa00b7b32a\"").unwrap(), expected);
    assert_eq!(Guid::parse("72631e5478a411d0bcf700aa00b7b32a").unwrap(), expected);
    assert_eq!(Guid::parse("72631E54-78A4-11D0-BCF7-00AA00B7B32A").unwrap(), expected);
    assert_eq!(Guid::parse(" 72631e54 78a4\t11d0-bcf7-00aa00b7b32a\n").unwrap(), expected);
}

#[test]
fn format_round_trip() {
    let values = [
        sample(),
        Guid { data1: 0, data2: 0, data3: 0, data4: [0; 8] },
        Guid { data1: u32::MAX, data2: u16::MAX, data3: u16::MAX, data4: [0xff; 8] },
        Guid { data1: 0x0000_00a0, data2: 0x000b, data3: 0x0c00, data4: [1, 2, 3, 4, 5, 6, 7, 8] },
    ];
    for g in values.iter() {
        assert_eq!(Guid::parse(&g.to_string()).unwrap(), *g);
    }
}

#[test]
fn format_shape() {
    let g = Guid { data1: 0xABCDEF01, data2: 0xFEDC, data3: 0x0A0B, data4: [0xFF, 0xEE, 0, 1, 0xAB, 0xCD, 0xEF, 0x10] };
    let text = g.to_string();
    assert_eq!(text, "abcdef01-fedc-0a0b-ffee-0001abcdef10");
    assert_eq!(text.chars().count(), 36);
    for (i, c) in text.chars().enumerate() {
        if i == 8 || i == 13 || i == 18 || i == 23 {
            assert_eq!(c, '-');
        } else {
            assert!(c.is_ascii_digit() || ('a'..='f').contains(&c));
        }
    }
    assert!(!text.contains('{') && !text.contains('}'));
    assert_eq!(text, g.to_string());
}

#[test]
fn format_pads_with_zeros() {
    let g = Guid { data1: 1, data2: 2, data3: 3, data4: [0, 0, 0, 0, 0, 0, 0, 4] };
    assert_eq!(g.to_string(), "00000001-0002-0003-0000-000000000004");
}

#[test]
fn literal_constant_matches_runtime_parse() {
    let literal = "72631e54-78a4-11d0-bcf7-00aa00b7b32a";
    let emitted = literal_constant(literal).unwrap();
    assert_eq!(
        emitted,
        "Guid { data1: 0x72631e54, data2: 0x78a4, data3: 0x11d0, data4: [0xbc, 0xf7, 0x00, 0xaa, 0x00, 0xb7, 0xb3, 0x2a] }"
    );
    let compiled = Guid { data1: 0x72631e54, data2: 0x78a4, data3: 0x11d0, data4: [0xbc, 0xf7, 0x00, 0xaa, 0x00, 0xb7, 0xb3, 0x2a] };
    assert_eq!(compiled, Guid::parse(literal).unwrap());
}

#[test]
fn literal_constant_refuses_bad_literal() {
    let e = literal_constant("01020304-0x06-0708-090a-0b0d0e0f1011").unwrap_err();
    assert_eq!(*e.kind(), ParseGuidErrorKind::InvalidHexDigit(10));
    let e = literal_constant("0102").unwrap_err();
    assert_eq!(*e.kind(), ParseGuidErrorKind::InvalidLenError);
}

#[test]
fn literal_accessor_emits_impl() {
    let item = literal_accessor("Widget", "\"01020304-0506-0708-090a-0b0d0e0f1011\"").unwrap();
    assert_eq!(
        item,
        "impl Widget {\n    pub fn guid() -> Guid {\n        Guid { data1: 0x01020304, data2: 0x0506, data3: 0x0708, data4: [0x09, 0x0a, 0x0b, 0x0d, 0x0e, 0x0f, 0x10, 0x11] }\n    }\n}\n"
    );
    let e = literal_accessor("Widget", "nope").unwrap_err();
    assert_eq!(*e.kind(), ParseGuidErrorKind::InvalidLenError);
}

#[test]
fn constant_expression_of_value() {
    let g = Guid { data1: 0x1, data2: 0xa, data3: 0xbeef, data4: [0, 1, 2, 3, 4, 5, 6, 0xff] };
    assert_eq!(
        g.constant_expression(),
        "Guid { data1: 0x00000001, data2: 0x000a, data3: 0xbeef, data4: [0x00, 0x01, 0x02, 0x03, 0x04, 0x05, 0x06, 0xff] }"
    );
}

#[test]
fn byte_form_and_layout() {
    let g = sample();
    let bytes = g.to_be_bytes();
    assert_eq!(bytes, [0x72, 0x63, 0x1e, 0x54, 0x78, 0xa4, 0x11, 0xd0, 0xbc, 0xf7, 0x00, 0xaa, 0x00, 0xb7, 0xb3, 0x2a]);
    assert_eq!(Guid::from_be_bytes(&bytes), g);
    assert_eq!(GuidLayout::data1(), 0..4);
    assert_eq!(GuidLayout::data2(), 4..6);
    assert_eq!(GuidLayout::data3(), 6..8);
    assert_eq!(GuidLayout::data4(), 8..16);
}

#[test]
fn equality_looks_at_every_byte() {
    let a = sample();
    let mut b = sample();
    b.data4[7] = 0x2b;
    assert!(a != b);
    assert!(a == sample());
}

#[test]
fn error_messages() {
    let e = ParseGuidError::default();
    assert_eq!(*e.kind(), ParseGuidErrorKind::InvalidLenError);
    assert_eq!(e.to_string(), "Error while parsing Guid string: Invalid Length");
    assert_eq!(ParseGuidErrorKind::InvalidHexDigit(3).to_string(), "Invalid Hex Digit");
    assert_eq!(ParseGuidErrorKind::SliceConversion.to_string(), "Invalid Slice Conversion");
    let e = ParseGuidError::new(ParseGuidErrorKind::InvalidHexDigit(2));
    assert_eq!(e.to_string(), "Error while parsing Guid string: Invalid Hex Digit");
}

#[test]
fn parse_passes_over_unicode_white_space() {
    let expected = sample();
    assert_eq!(Guid::parse("72631e54\u{a0}78a4\u{b}11d0\u{3000}bcf7-00aa00b7b32a\u{2029}").unwrap(), expected);
    assert_eq!("\u{85}72631e54-78a4-11d0-bcf7-00aa00b7b32a".parse::<Guid>().unwrap(), expected);
}

#[test]
fn str_parse_reports_digit_error() {
    let e = "01020304-0x06-0708-090a-0b0d0e0f1011".parse::<Guid>().unwrap_err();
    assert_eq!(*e.kind(), ParseGuidErrorKind::InvalidHexDigit(10));
}

#[test]
fn ignored_characters_match_std_white_space() {
    for code in 0u32..=0x10FFFF {
        if let Some(c) = char::from_u32(code) {
            assert_eq!(is_ignored_char(c), c.is_whitespace() || c == '"' || c == '-', "{:?}", c);
        }
    }
}
