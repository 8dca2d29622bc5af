use mx_gestures::text::{hex, parse_u8, push_decimal, push_hex_byte};

#[test]
fn hex_joins_bytes_with_spaces() {
    assert_eq!(hex(&[]), "");
    assert_eq!(hex(&[0x0a]), "0a");
    assert_eq!(hex(&[0x10, 0xff, 0x00, 0x8f]), "10 ff 00 8f");
    assert_eq!(mx_gestures::hidpp::hex(&[0x11, 0x01]), "11 01");
}

#[test]
fn push_helpers() {
    let mut s = String::from("x");
    push_hex_byte(&mut s, 0xC3);
    assert_eq!(s, "xc3");
    let mut d = String::new();
    push_decimal(&mut d, 1204);
    assert_eq!(d, "1204");
    let mut e = String::new();
    push_decimal(&mut e, 4_000_000_000);
    assert_eq!(e, "4000000000");
}

#[test]
fn parse_u8_like_std() {
    for t in ["0", "9", "10", "255", "256", "+4", "+", "", "-0", "4a", "0004", "1000", "++1", "٣"] {
        assert_eq!(parse_u8(t), t.parse::<u8>().ok(), "input {t:?}");
    }
}

#[test]
fn hex_distinguishes_bytes() {
    let samples: [&[u8]; 6] = [&[], &[0], &[0, 0], &[0x01, 0x00], &[0x10], &[0xab, 0xcd, 0xef]];
    for a in samples {
        for b in samples {
            assert_eq!(hex(a) == hex(b), a == b);
        }
        let back: Vec<u8> = if a.is_empty() {
            Vec::new()
        } else {
            hex(a).split(' ').map(|t| u8::from_str_radix(t, 16).unwrap()).collect()
        };
        assert_eq!(back, a.to_vec());
    }
}
