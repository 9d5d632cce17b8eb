//! The U29 variable-length integer codec: round trips, known vectors, and
//! truncation errors.

use flash_lso::types::AmfError;
use flash_lso::u29::{read_int, write_int_bytes};

fn round_trip(i: i32) {
    let mut buf: Vec<u8> = Vec::new();
    write_int_bytes(&mut buf, i);
    let (back, used) = read_int(&buf, 0).unwrap();
    assert_eq!(back, i);
    assert_eq!(used, buf.len());
}

#[test]
fn u29_round_trip_extremes() {
    round_trip(0);
    round_trip(1);
    round_trip(-1);
    round_trip(0x7f);
    round_trip(0x80);
    round_trip(0x3fff);
    round_trip(0x4000);
    round_trip(0x1fffff);
    round_trip(0x200000);
    round_trip(0x0fff_ffff);
    round_trip(-0x1000_0000);
    round_trip(2097280);
    round_trip(-268435455);
}

#[test]
fn u29_round_trip_sweep() {
    let mut i: i32 = -0x1000_0000;
    while i < 0x0fff_ffff {
        round_trip(i);
        i = i.wrapping_add(0x0013_57b1);
    }
}

#[test]
fn u29_one_byte_forms() {
    for i in 0..0x80i32 {
        let mut buf: Vec<u8> = Vec::new();
        write_int_bytes(&mut buf, i);
        assert_eq!(buf, vec![i as u8]);
    }
}

#[test]
fn u29_known_two_and_three_byte_forms() {
    let mut buf: Vec<u8> = Vec::new();
    write_int_bytes(&mut buf, 0x80);
    assert_eq!(buf, vec![0x81, 0x00]);
    let mut buf: Vec<u8> = Vec::new();
    write_int_bytes(&mut buf, 0x4000);
    assert_eq!(buf, vec![0x81, 0x80, 0x00]);
}

#[test]
fn u29_truncated_input() {
    assert_eq!(read_int(&vec![], 0), Err(AmfError::TruncatedInput));
    assert_eq!(read_int(&vec![0x80], 0), Err(AmfError::TruncatedInput));
    assert_eq!(read_int(&vec![0x80, 0x80], 0), Err(AmfError::TruncatedInput));
    assert_eq!(read_int(&vec![0x80, 0x80, 0x80], 0), Err(AmfError::TruncatedInput));
    assert_eq!(read_int(&vec![0x2b], 1), Err(AmfError::TruncatedInput));
}

#[test]
fn u29_read_at_position() {
    let buf = vec![0x00u8, 0x2b, 0x80, 0xc0, 0x80, 0x80];
    let (a, p) = read_int(&buf, 1).unwrap();
    assert_eq!(a, 0x2b);
    assert_eq!(p, 2);
    let (b, q) = read_int(&buf, 2).unwrap();
    assert_eq!(b, 2097280);
    assert_eq!(q, 6);
}
