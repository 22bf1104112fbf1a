use isoad16a_a4::literal::is_decimal_literal;
use isoad16a_a4::Reading;

/// What the standard decimal parser says of the text.
fn parses(text: &[u8]) -> bool {
    match std::str::from_utf8(text) {
        Ok(s) => s.parse::<f32>().is_ok(),
        Err(_) => false,
    }
}

/// Calls `check` on every string of `len` bytes over `alphabet`.
fn for_every_string(alphabet: &[u8], len: usize, check: &mut dyn FnMut(&[u8])) {
    let mut digits = vec![0usize; len];
    let mut text = vec![alphabet[0]; len];
    loop {
        check(&text);
        let mut at = 0;
        loop {
            if at == len {
                return;
            }
            digits[at] += 1;
            if digits[at] < alphabet.len() {
                text[at] = alphabet[digits[at]];
                break;
            }
            digits[at] = 0;
            text[at] = alphabet[0];
            at += 1;
        }
    }
}

#[test]
fn plain_literals_are_accepted() {
    for text in [
        "+1.2345", "-9.9999", "+04.123", "0000000", "1234567", "12.3456", ".123456", "123456.",
        "+.12345", "-12345.", "1", "0.5", "+0", "-0.0",
    ] {
        assert!(is_decimal_literal(text.as_bytes()), "{}", text);
        assert!(parses(text.as_bytes()), "{}", text);
    }
}

#[test]
fn literals_with_an_exponent_are_accepted() {
    for text in ["1e5", "1E5", "1.5e-3", "+1.e+10", ".5E2", "1.2e+03", "-1e-005", "12e0034"] {
        assert!(is_decimal_literal(text.as_bytes()), "{}", text);
        assert!(parses(text.as_bytes()), "{}", text);
    }
}

#[test]
fn text_that_is_no_literal_is_refused() {
    for text in [
        "", "+", "-", ".", "+.", "-.", "e5", ".e5", "1e", "1e+", "1e-", "1.2.3", "1..2", "++1",
        "+-1", "1+", "1-2", "1e5.0", "1e5e5", " 1.2345", "1.2345 ", "1 .2345", "abcdefg", "1,5",
        "1_000", "0x10", "1f", "\t1.5", "1.5\r", "1.5\n",
    ] {
        assert!(!is_decimal_literal(text.as_bytes()), "{:?}", text);
        assert!(!parses(text.as_bytes()), "{:?}", text);
    }
}

#[test]
fn bytes_that_are_no_text_are_refused() {
    assert!(!is_decimal_literal(&[0xff]));
    assert!(!is_decimal_literal(&[b'1', 0x80, b'2']));
    assert!(!is_decimal_literal(&[b'+', b'1', b'.', 0xc3, 0xa9, b'1', b'2']));
    assert!(!is_decimal_literal(&[0x00, b'1']));
}

#[test]
fn the_words_for_no_number_are_no_literals() {
    for text in ["inf", "+inf", "-inf", "nan", "NaN", "+nan", "infinity", "-Infinity", "INF"] {
        assert!(!is_decimal_literal(text.as_bytes()), "{}", text);
        assert_ne!(text.len(), 7);
    }
}

#[test]
fn agrees_with_the_decimal_parser_on_fields_of_signs_points_and_digits() {
    let mut seen = 0u32;
    let mut accepted = 0u32;
    for_every_string(b"+-.eE09", 7, &mut |text| {
        seen += 1;
        let ok = is_decimal_literal(text);
        if ok {
            accepted += 1;
        }
        assert_eq!(ok, parses(text), "{:?}", std::str::from_utf8(text));
    });
    assert_eq!(seen, 823_543);
    assert!(accepted > 0);
}

#[test]
fn agrees_with_the_decimal_parser_on_fields_with_letters_and_blanks() {
    let mut seen = 0u32;
    for_every_string(b"1.+ inaf", 7, &mut |text| {
        seen += 1;
        assert_eq!(is_decimal_literal(text), parses(text), "{:?}", std::str::from_utf8(text));
    });
    assert_eq!(seen, 2_097_152);
}

#[test]
fn agrees_with_the_decimal_parser_on_fields_with_the_letters_of_infinity() {
    for_every_string(b"infty-I", 7, &mut |text| {
        assert_eq!(is_decimal_literal(text), parses(text), "{:?}", std::str::from_utf8(text));
        assert!(!is_decimal_literal(text));
    });
}

#[test]
fn agrees_with_the_decimal_parser_on_short_text_of_signs_points_and_digits() {
    for len in 0..=6 {
        for_every_string(b"+-.eE5\r ", len, &mut |text| {
            assert_eq!(is_decimal_literal(text), parses(text), "{:?}", std::str::from_utf8(text));
        });
    }
}

#[test]
fn reading_keeps_the_text_of_a_literal() {
    let reading = Reading::from_bytes(b"+1.2345").unwrap();
    assert_eq!(reading.as_bytes(), b"+1.2345");
    let value: f32 = std::str::from_utf8(reading.as_bytes()).unwrap().parse().unwrap();
    assert_eq!(value, 1.2345);
}

#[test]
fn reading_refuses_what_is_no_field() {
    assert_eq!(Reading::from_bytes(b" 1.2345"), None);
    assert_eq!(Reading::from_bytes(b"abcdefg"), None);
    assert_eq!(Reading::from_bytes(b"+1.234"), None);
    assert_eq!(Reading::from_bytes(b"+1.23456"), None);
    assert_eq!(Reading::from_bytes(b""), None);
    assert_eq!(Reading::from_bytes(b"1.5"), None);
}

#[test]
fn readings_with_the_same_text_are_equal() {
    let a = Reading::from_bytes(b"-9.9999").unwrap();
    let b = Reading::from_bytes(b"-9.9999").unwrap();
    let c = Reading::from_bytes(b"+9.9999").unwrap();
    assert_eq!(a, b);
    assert_ne!(a, c);
}

/// A sequence of numbers that looks random and is the same on every run.
struct Dice(u64);

impl Dice {
    fn roll(&mut self, sides: usize) -> usize {
        self.0 = self.0.wrapping_mul(6364136223846793005).wrapping_add(1442695040888963407);
        ((self.0 >> 33) as usize) % sides
    }
}

#[test]
fn agrees_with_the_decimal_parser_on_fields_drawn_from_all_digits() {
    let alphabet = b"0123456789+-.eE";
    let mut dice = Dice(16);
    let mut accepted = 0u32;
    for _ in 0..1_000_000 {
        let mut text = [0u8; 7];
        for byte in text.iter_mut() {
            *byte = alphabet[dice.roll(alphabet.len())];
        }
        let ok = is_decimal_literal(&text);
        if ok {
            accepted += 1;
        }
        assert_eq!(ok, parses(&text), "{:?}", std::str::from_utf8(&text));
    }
    assert!(accepted > 1000);
}

#[test]
fn agrees_with_the_decimal_parser_on_fields_drawn_from_all_bytes() {
    let mut dice = Dice(7);
    for _ in 0..1_000_000 {
        let mut text = [0u8; 7];
        for byte in text.iter_mut() {
            *byte = if dice.roll(4) == 0 { dice.roll(256) as u8 } else { b'0' + dice.roll(10) as u8 };
        }
        assert_eq!(is_decimal_literal(&text), parses(&text), "{:?}", text);
    }
}
