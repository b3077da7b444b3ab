use macprox::text::{chars_of, parse_u16, render_decimal, trim, white_space};

#[test]
fn trim_cuts_white_space_at_both_ends_only() {
    assert_eq!(trim("  example.com \t\n"), "example.com");
    assert_eq!(trim("a b"), "a b");
    assert_eq!(trim(" a  b "), "a  b");
    assert_eq!(trim("bob"), "bob");
}

#[test]
fn trim_of_white_space_alone_is_empty() {
    assert_eq!(trim(""), "");
    assert_eq!(trim(" "), "");
    assert_eq!(trim(" \t\r\n "), "");
}

#[test]
fn trim_knows_white_space_beyond_ascii() {
    assert_eq!(trim("\u{a0}host\u{3000}"), "host");
    assert_eq!(trim("\u{2003}h\u{e9}te\u{2028}"), "h\u{e9}te");
    assert_eq!(trim("\u{200b}x"), "\u{200b}x");
}

#[test]
fn trim_agrees_with_the_standard_library() {
    let samples = [
        "", " ", "x", " x", "x ", "\tx\ty\t", "\u{85}a\u{1680}", "\u{180e}a", "\u{feff}a ",
        "\u{202f}\u{205f}z\u{2029}", "\u{b}\u{c}q",
    ];
    for sample in samples {
        assert_eq!(trim(sample), sample.trim());
    }
}

#[test]
fn white_space_agrees_with_the_standard_library() {
    let mut code: u32 = 0;
    while code <= 0x3100 {
        if let Some(c) = char::from_u32(code) {
            assert_eq!(white_space(c), c.is_whitespace(), "code point {:x}", code);
        }
        code += 1;
    }
    assert!(!white_space('\u{10ffff}'));
}

#[test]
fn chars_of_keeps_every_character_in_order() {
    assert_eq!(chars_of(""), Vec::<char>::new());
    assert_eq!(chars_of("a\u{e9}\u{1f600}z"), vec!['a', '\u{e9}', '\u{1f600}', 'z']);
}

#[test]
fn render_decimal_writes_plain_digits() {
    assert_eq!(render_decimal(0), "0");
    assert_eq!(render_decimal(7), "7");
    assert_eq!(render_decimal(10), "10");
    assert_eq!(render_decimal(22), "22");
    assert_eq!(render_decimal(65535), "65535");
    assert_eq!(render_decimal(4294967295), "4294967295");
}

#[test]
fn parse_u16_reads_digits_with_an_optional_plus() {
    assert_eq!(parse_u16("0"), Some(0));
    assert_eq!(parse_u16("22"), Some(22));
    assert_eq!(parse_u16("+22"), Some(22));
    assert_eq!(parse_u16("0022"), Some(22));
    assert_eq!(parse_u16("65535"), Some(65535));
}

#[test]
fn parse_u16_turns_down_everything_else() {
    assert_eq!(parse_u16(""), None);
    assert_eq!(parse_u16("+"), None);
    assert_eq!(parse_u16("-1"), None);
    assert_eq!(parse_u16("-0"), None);
    assert_eq!(parse_u16("++1"), None);
    assert_eq!(parse_u16("abc"), None);
    assert_eq!(parse_u16("22a"), None);
    assert_eq!(parse_u16(" 22"), None);
    assert_eq!(parse_u16("2 2"), None);
    assert_eq!(parse_u16("65536"), None);
    assert_eq!(parse_u16("99999999999999999999999"), None);
    assert_eq!(parse_u16("\u{662}\u{662}"), None);
}

#[test]
fn parse_u16_agrees_with_the_standard_library() {
    let samples = [
        "", "+", "-", "0", "+0", "-0", "1", "22", "022", "+022", "65535", "65536", "70000",
        "1e3", "0x16", "2_2", " 1", "1 ", "+-1", "١٢",
    ];
    for sample in samples {
        assert_eq!(parse_u16(sample), sample.parse::<u16>().ok(), "text {:?}", sample);
    }
}

#[test]
fn every_port_is_read_back_from_its_own_digits() {
    let mut n: u32 = 0;
    while n <= 65535 {
        assert_eq!(parse_u16(&render_decimal(n)), Some(n as u16));
        n += 257;
    }
    assert_eq!(parse_u16(&render_decimal(65535)), Some(65535));
}
