use rsinit::text::{
    chars_of, contains_chars, find, find_last, parse_u64, same_chars, split_lines, string_of,
    to_decimal, to_hex,
};
use rsinit::util::NumberError;

fn chars(s: &str) -> Vec<char> {
    s.chars().collect()
}

#[test]
fn strings_and_characters_convert_both_ways() {
    assert_eq!(chars_of("a\u{e9}\u{1f600}z"), vec!['a', '\u{e9}', '\u{1f600}', 'z']);
    assert_eq!(string_of(&['a', '\u{e9}', '\u{1f600}', 'z']), "a\u{e9}\u{1f600}z");
    assert_eq!(string_of(&[]), "");
}

#[test]
fn find_gives_the_first_and_find_last_the_last() {
    let s = chars("a,b,c");
    assert_eq!(find(&s, ','), Some(1));
    assert_eq!(find_last(&s, ','), Some(3));
    assert_eq!(find(&s, ';'), None);
    assert_eq!(find_last(&s, ';'), None);
    assert_eq!(find(&[], ','), None);
}

#[test]
fn contains_chars_finds_a_run() {
    assert!(contains_chars(&chars("cache=loose,trans=usbg"), &chars("trans=usbg")));
    assert!(contains_chars(&chars("trans=usbg"), &chars("trans=usbg")));
    assert!(contains_chars(&chars("abc"), &[]));
    assert!(!contains_chars(&chars("trans=usb"), &chars("trans=usbg")));
    assert!(!contains_chars(&chars("trans=virtio,usbg"), &chars("trans=usbg")));
    assert!(same_chars(&chars("abc"), &chars("abc")));
    assert!(!same_chars(&chars("abc"), &chars("abd")));
    assert!(!same_chars(&chars("abc"), &chars("ab")));
}

#[test]
fn lines_are_split_as_std_splits_them() {
    for text in [
        "",
        "\n",
        "a",
        "a\n",
        "a\nb",
        "a\n\nb\n",
        "a\r\nb\r\n",
        "a\rb\n",
        "a\r",
        "\r\n",
        "\r\r\n",
        "x=1\ny=2\r\n\r\nz",
    ] {
        let expected: Vec<Vec<char>> = text.lines().map(chars).collect();
        assert_eq!(split_lines(&chars(text)), expected, "for {text:?}");
    }
}

#[test]
fn numbers_are_written_in_decimal_and_hexadecimal() {
    for n in [0u64, 1, 9, 10, 15, 16, 255, 256, 4096, 1234567890, u64::MAX] {
        assert_eq!(string_of(&to_decimal(n)), format!("{n}"));
        assert_eq!(string_of(&to_hex(n)), format!("{n:x}"));
    }
}

#[test]
fn numbers_are_read_as_std_reads_them() {
    for text in [
        "",
        "+",
        "-",
        "0",
        "00042",
        "+17",
        "-17",
        "++1",
        "12a",
        "a12",
        " 12",
        "12 ",
        "18446744073709551615",
        "18446744073709551616",
        "99999999999999999999",
        "99999999999999999999x",
        "1844674407370955161x",
        "184467440737095516150",
        "\u{663}",
    ] {
        let expected = text.parse::<u64>().map_err(|e| e.to_string());
        let got = parse_u64(&chars(text)).map_err(|e| e.message().to_string());
        assert_eq!(got, expected, "for {text:?}");
    }
    assert_eq!(parse_u64(&chars("")), Err(NumberError::Empty));
    assert_eq!(parse_u64(&chars("1x")), Err(NumberError::InvalidDigit));
    assert_eq!(
        parse_u64(&chars("18446744073709551616")),
        Err(NumberError::Overflow)
    );
    assert_eq!(parse_u64(&chars("2048")), Ok(2048));
}
