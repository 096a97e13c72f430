use crust::text::{push_binary, push_decimal, push_decimal_pad2, push_signed_decimal};

#[test]
fn decimal_rendering() {
    for n in [0u64, 7, 10, 99, 100, 408_000, u64::MAX] {
        let mut s = String::from(">");
        push_decimal(&mut s, n);
        assert_eq!(s, format!(">{}", n));
    }
}

#[test]
fn padded_decimal_rendering() {
    for n in [0u64, 5, 9, 10, 59, 1193, 123_456] {
        let mut s = String::new();
        push_decimal_pad2(&mut s, n);
        assert_eq!(s, format!("{:02}", n));
    }
}

#[test]
fn signed_decimal_rendering() {
    for n in [0i32, 1, -1, 42, -42, i32::MAX, i32::MIN] {
        let mut s = String::new();
        push_signed_decimal(&mut s, n);
        assert_eq!(s, format!("{}", n));
    }
}

#[test]
fn binary_rendering() {
    for b in [0u8, 1, 0x80, 0x87, 0xff] {
        let mut s = String::new();
        push_binary(&mut s, b as u64, 8);
        assert_eq!(s, format!("{:08b}", b));
    }
    let mut s = String::new();
    push_binary(&mut s, 5, 0);
    assert_eq!(s, "");
}
