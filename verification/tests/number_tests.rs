use recipe::number::parse_i32;
use recipe::text::{ends_with, format_i32, format_u64, text_lt};

#[test]
fn parse_i32_agrees_with_std() {
    let samples = [
        "", "0", "7", "42", "+5", "-5", "-0", "+0", "0007", "-", "+", "+-1", "-+1", "1a", "a1",
        " 1", "1 ", "2147483647", "2147483648", "-2147483648", "-2147483649",
        "99999999999999999999", "-99", "12.5", "１２", "--1", "00000000000000000000001",
    ];
    for s in samples.iter() {
        assert_eq!(parse_i32(s), s.parse::<i32>().ok(), "input {:?}", s);
    }
}

#[test]
fn parse_reads_back_rendered_numbers() {
    let values = [0i32, 1, -1, 9, 10, -10, 123456, i32::MAX, i32::MIN, -2147483647];
    for v in values.iter() {
        let text = format_i32(*v);
        assert_eq!(text, v.to_string());
        assert_eq!(parse_i32(&text), Some(*v));
    }
}

#[test]
fn format_u64_matches_display() {
    for v in [0u64, 5, 10, 99, 100, 1234567890, u64::MAX].iter() {
        assert_eq!(format_u64(*v), v.to_string());
    }
}

#[test]
fn ends_with_matches_std() {
    let cases = [("photo.jpg", ".jpg"), ("photo.JPG", ".jpg"), ("jpg", ".jpg"), ("", ""), ("a", ""), ("é.png", ".png"), ("x.png", "x.png.")];
    for (s, t) in cases.iter() {
        assert_eq!(ends_with(s, t), s.ends_with(t), "{:?} {:?}", s, t);
    }
}

#[test]
fn text_order_matches_string_order() {
    let words = ["", "a", "b", "ab", "abc", "B", "Z", "z", "é", "e", "img10.jpg", "img2.jpg", "zz"];
    for a in words.iter() {
        for b in words.iter() {
            assert_eq!(text_lt(a, b), a < b, "{:?} < {:?}", a, b);
        }
    }
}
