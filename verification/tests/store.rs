use xhacklight::number::NumberError;
use xhacklight::store::{clamp_brightness, is_space, parse_brightness, render_brightness, ParseError};

#[test]
fn is_space_is_the_unicode_white_space() {
    let mut code: u32 = 0;
    while code <= 0x10FFFF {
        if let Some(c) = char::from_u32(code) {
            assert_eq!(is_space(c), c.is_whitespace(), "on U+{:04X}", code);
        }
        code += 1;
    }
}

#[test]
fn parse_brightness_reads_the_number() {
    assert_eq!(parse_brightness("1500"), Ok(1500));
    assert_eq!(parse_brightness("0"), Ok(0));
    assert_eq!(parse_brightness("60000"), Ok(60000));
}

#[test]
fn parse_brightness_takes_white_space_around_the_number() {
    assert_eq!(parse_brightness("1500\n"), Ok(1500));
    assert_eq!(parse_brightness("  1500  "), Ok(1500));
    assert_eq!(parse_brightness("\t\r\n 42 \u{a0}\u{3000}"), Ok(42));
    assert_eq!(parse_brightness("\u{2003}7"), Ok(7));
}

#[test]
fn parse_brightness_does_not_hold_the_value_to_the_bound() {
    assert_eq!(parse_brightness("60001\n"), Ok(60001));
    assert_eq!(parse_brightness("4294967295"), Ok(u32::MAX));
}

#[test]
fn parse_brightness_gives_back_the_content_it_refuses() {
    assert_eq!(
        parse_brightness("15 00\n"),
        Err(ParseError { text: String::from("15 00\n"), cause: NumberError::InvalidDigit })
    );
    assert_eq!(
        parse_brightness(""),
        Err(ParseError { text: String::new(), cause: NumberError::Empty })
    );
    assert_eq!(
        parse_brightness(" \n"),
        Err(ParseError { text: String::from(" \n"), cause: NumberError::Empty })
    );
    assert_eq!(
        parse_brightness("-1\n"),
        Err(ParseError { text: String::from("-1\n"), cause: NumberError::InvalidDigit })
    );
    assert_eq!(
        parse_brightness(" 4294967296 "),
        Err(ParseError { text: String::from(" 4294967296 "), cause: NumberError::TooLarge })
    );
}

#[test]
fn parse_brightness_agrees_with_trim_and_parse() {
    let samples: Vec<&str> = vec![
        "", " ", "\n", "1", " 1", "1 ", " 1 ", "1\n", "\n1\n", "1 2", " + ", "+3\n", "- 3",
        "\u{85}9\u{85}", "\u{1680}9", "9\u{2028}\u{2029}", "\u{200b}9", "9\u{feff}", "x", " x ",
        "4294967295\n", "4294967296\n", "\u{202f}\u{205f}12\u{2000}\u{200a}", "\u{b}\u{c}8",
    ];
    for content in samples {
        let expected: Option<u32> = content.trim().parse::<u32>().ok();
        assert_eq!(parse_brightness(content).ok(), expected, "on {:?}", content);
    }
}

#[test]
fn parse_error_message_holds_the_content() {
    let error: ParseError = parse_brightness("bright\n").unwrap_err();
    assert_eq!(error.message(), "could not parse bright\n as a number");
    assert_eq!(error.cause, NumberError::InvalidDigit);
}

#[test]
fn clamp_brightness_holds_to_the_upper_bound() {
    assert_eq!(clamp_brightness(0), 0);
    assert_eq!(clamp_brightness(59999), 59999);
    assert_eq!(clamp_brightness(60000), 60000);
    assert_eq!(clamp_brightness(60001), 60000);
    assert_eq!(clamp_brightness(u32::MAX), 60000);
}

#[test]
fn render_brightness_writes_the_clamped_value() {
    assert_eq!(render_brightness(0), "0");
    assert_eq!(render_brightness(500), "500");
    assert_eq!(render_brightness(60000), "60000");
    assert_eq!(render_brightness(60001), "60000");
    assert_eq!(render_brightness(64000), "60000");
    assert_eq!(render_brightness(999999), "60000");
    assert_eq!(render_brightness(u32::MAX), "60000");
}

#[test]
fn written_values_within_the_bound_read_back() {
    for v in 0..=60000u32 {
        assert_eq!(parse_brightness(&render_brightness(v)), Ok(v));
    }
}

#[test]
fn written_values_beyond_the_bound_read_back_as_the_bound() {
    for v in 60001..=70000u32 {
        assert_eq!(parse_brightness(&render_brightness(v)), Ok(60000));
    }
    assert_eq!(parse_brightness(&render_brightness(u32::MAX)), Ok(60000));
}
