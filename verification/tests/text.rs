use hxdown::text::{chars_of, format_decimal, format_zero_padded, str_contains};

#[test]
fn decimal_renders_like_display() {
    for n in [0i32, 7, 10, 42, 1234567, -1, -305, i32::MAX, i32::MIN] {
        assert_eq!(format_decimal(n), format!("{}", n));
    }
}

#[test]
fn zero_padding_renders_like_format() {
    for n in [0i32, 5, 12, 999999, 1234567, -5, -12345, -123456, i32::MIN, i32::MAX] {
        assert_eq!(format_zero_padded(n, 6), format!("{:06}", n));
    }
    assert_eq!(format_zero_padded(5, 6), "000005");
    assert_eq!(format_zero_padded(-5, 6), "-00005");
    assert_eq!(format_zero_padded(1234567, 6), "1234567");
    assert_eq!(format_zero_padded(3, 0), "3");
}

#[test]
fn zero_padding_reads_back() {
    for n in [0i32, 1, 99, 123456, -42, i32::MIN] {
        let s = format_zero_padded(n, 6);
        assert_eq!(s.parse::<i32>().unwrap(), n);
    }
}

#[test]
fn substring_search() {
    assert!(str_contains("https://e-hentai.org/g/1/", "e-hentai.org"));
    assert!(str_contains("abc", ""));
    assert!(str_contains("abc", "abc"));
    assert!(!str_contains("ab", "abc"));
    assert!(!str_contains("https://nhentai.net/g/1/", "e-hentai.org"));
    assert!(str_contains("aab", "ab"));
}

#[test]
fn chars_round_trip() {
    let s = "héllo, 世界";
    let v = chars_of(s);
    assert_eq!(v.len(), 9);
    assert_eq!(v.iter().collect::<String>(), s);
}
