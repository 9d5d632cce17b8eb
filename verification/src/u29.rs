//! The AMF3 29-bit variable-length integer (U29): the big-endian base-128
//! form shared by the integer value type and every length-or-reference
//! prefix, with its decoder and the round-trip proof.

use vstd::prelude::*;
use crate::types::AmfError;

verus! {

/// The unsigned 29-bit image of a signed integer: negative values gain
/// `2^29`, and anything outside the 29-bit range is reduced modulo `2^29`.
pub open spec fn u29_norm(i: i32) -> u32 {
    ((i as int) % 0x2000_0000) as u32
}

/// The wire bytes of an unsigned 29-bit word: one to three bytes of seven
/// payload bits each with a continuation bit, except the four-byte form whose
/// last byte carries all eight low bits.
pub open spec fn u29_bytes(w: u32) -> Seq<u8>
    recommends
        w < 0x2000_0000,
{
    if w > 0x1fffff {
        seq![
            ((w >> 22) | 0x80) as u8,
            ((w >> 15) | 0x80) as u8,
            ((w >> 8) | 0x80) as u8,
            w as u8,
        ]
    } else if w > 0x3fff {
        seq![((w >> 14) | 0x80) as u8, ((w >> 7) | 0x80) as u8, (w & 0x7f) as u8]
    } else if w > 0x7f {
        seq![((w >> 7) | 0x80) as u8, (w & 0x7f) as u8]
    } else {
        seq![(w & 0x7f) as u8]
    }
}

/// The encoding of a signed integer: its 29-bit image on the wire.
pub open spec fn u29_enc(i: i32) -> Seq<u8> {
    u29_bytes(u29_norm(i))
}

/// Decoding of a U29 starting at `pos`: the unsigned word and the position
/// after it, or nothing when the input ends inside the integer.
pub open spec fn u29_dec(s: Seq<u8>, pos: int) -> Option<(u32, int)> {
    if !(0 <= pos < s.len()) {
        None
    } else {
        let b0 = s[pos];
        if b0 < 0x80 {
            Some((b0 as u32, pos + 1))
        } else if !(pos + 1 < s.len()) {
            None
        } else {
            let v0 = (b0 & 0x7f) as u32;
            let b1 = s[pos + 1];
            if b1 < 0x80 {
                Some(((v0 << 7) | (b1 as u32), pos + 2))
            } else if !(pos + 2 < s.len()) {
                None
            } else {
                let v1 = (v0 << 7) | ((b1 & 0x7f) as u32);
                let b2 = s[pos + 2];
                if b2 < 0x80 {
                    Some(((v1 << 7) | (b2 as u32), pos + 3))
                } else if !(pos + 3 < s.len()) {
                    None
                } else {
                    let v2 = (v1 << 7) | ((b2 & 0x7f) as u32);
                    let b3 = s[pos + 3];
                    Some(((v2 << 8) | (b3 as u32), pos + 4))
                }
            }
        }
    }
}

/// The signed reading of an unsigned 29-bit word: words at or above `2^28`
/// are negative.
pub open spec fn u29_to_i32(w: u32) -> i32
    recommends
        w < 0x2000_0000,
{
    if w >= 0x1000_0000 {
        (w as int - 0x2000_0000) as i32
    } else {
        w as i32
    }
}

/// Appends the U29 form of the word `w` to `out`.
pub fn write_u29_word(out: &mut Vec<u8>, w: u32)
    requires
        w < 0x2000_0000,
    ensures
        final(out)@ == old(out)@ + u29_bytes(w),
{
    if w > 0x1fffff {
        out.push(((w >> 22) | 0x80) as u8);
        out.push(((w >> 15) | 0x80) as u8);
        out.push(((w >> 8) | 0x80) as u8);
        out.push(w as u8);
    } else if w > 0x3fff {
        out.push(((w >> 14) | 0x80) as u8);
        out.push(((w >> 7) | 0x80) as u8);
        out.push((w & 0x7f) as u8);
    } else if w > 0x7f {
        out.push(((w >> 7) | 0x80) as u8);
        out.push((w & 0x7f) as u8);
    } else {
        out.push((w & 0x7f) as u8);
    }
    assert(out@ =~= old(out)@ + u29_bytes(w));
}

/// Appends the U29 form of the signed integer `i` to `out`.
pub fn write_int_bytes(out: &mut Vec<u8>, i: i32)
    ensures
        final(out)@ == old(out)@ + u29_enc(i),
{
    let m: i64 = (i as i64) + 0x8000_0000i64;
    let n: u32 = (m % 0x2000_0000i64) as u32;
    proof {
        vstd::arithmetic::div_mod::lemma_mod_multiples_vanish(4, i as int, 0x2000_0000);
        assert(m as int == 0x2000_0000 * 4 + i as int);
        assert(n == u29_norm(i));
    }
    write_u29_word(out, n);
}

/// Reads one U29 from `data` at `pos`, widening it back to the signed 29-bit
/// range, and returns it with the position after it.  Fails with
/// `TruncatedInput` exactly when the input ends inside the integer.
pub fn read_int(data: &Vec<u8>, pos: usize) -> (r: Result<(i32, usize), AmfError>)
    ensures
        match u29_dec(data@, pos as int) {
            Some((w, p)) => r == Ok::<(i32, usize), AmfError>((u29_to_i32(w), p as usize)),
            None => r == Err::<(i32, usize), AmfError>(AmfError::TruncatedInput),
        },
{
    if pos >= data.len() {
        return Err(AmfError::TruncatedInput);
    }
    let b0 = data[pos];
    if b0 < 0x80 {
        return Ok((b0 as i32, pos + 1));
    }
    if pos + 1 >= data.len() {
        return Err(AmfError::TruncatedInput);
    }
    let v0: u32 = (b0 & 0x7f) as u32;
    assert(v0 < 0x80) by (bit_vector)
        requires
            v0 == (b0 & 0x7f) as u32,
    ;
    let b1 = data[pos + 1];
    if b1 < 0x80 {
        let w: u32 = (v0 << 7) | (b1 as u32);
        assert(w < 0x1000_0000) by (bit_vector)
            requires
                v0 < 0x80,
                w == (v0 << 7) | (b1 as u32),
        ;
        return Ok((w as i32, pos + 2));
    }
    if pos + 2 >= data.len() {
        return Err(AmfError::TruncatedInput);
    }
    let v1: u32 = (v0 << 7) | ((b1 & 0x7f) as u32);
    assert(v1 < 0x4000) by (bit_vector)
        requires
            v0 < 0x80,
            v1 == (v0 << 7) | ((b1 & 0x7f) as u32),
    ;
    let b2 = data[pos + 2];
    if b2 < 0x80 {
        let w: u32 = (v1 << 7) | (b2 as u32);
        assert(w < 0x1000_0000) by (bit_vector)
            requires
                v1 < 0x4000,
                w == (v1 << 7) | (b2 as u32),
        ;
        return Ok((w as i32, pos + 3));
    }
    if pos + 3 >= data.len() {
        return Err(AmfError::TruncatedInput);
    }
    let v2: u32 = (v1 << 7) | ((b2 & 0x7f) as u32);
    assert(v2 < 0x20_0000) by (bit_vector)
        requires
            v1 < 0x4000,
            v2 == (v1 << 7) | ((b2 & 0x7f) as u32),
    ;
    let b3 = data[pos + 3];
    let w: u32 = (v2 << 8) | (b3 as u32);
    assert(w < 0x2000_0000) by (bit_vector)
        requires
            v2 < 0x20_0000,
            w == (v2 << 8) | (b3 as u32),
    ;
    let signed: i32 = if w >= 0x1000_0000 {
        (w as i64 - 0x2000_0000i64) as i32
    } else {
        w as i32
    };
    Ok((signed, pos + 4))
}

/// Round trip: decoding an encoded 29-bit signed integer gives the integer
/// back, consuming exactly the bytes the encoder wrote.
pub proof fn lemma_u29_round_trip(i: i32)
    requires
        -0x1000_0000 <= i < 0x1000_0000,
    ensures
        u29_dec(u29_enc(i), 0) == Some((u29_norm(i), u29_enc(i).len() as int)),
        u29_to_i32(u29_norm(i)) == i,
{
    let n = u29_norm(i);
    assert(n < 0x2000_0000);
    if i >= 0 {
        assert(n == i);
    } else {
        assert((i as int) % 0x2000_0000 == i + 0x2000_0000);
        assert(n == i + 0x2000_0000);
        assert(n >= 0x1000_0000);
    }
    let bytes = u29_bytes(n);
    if n > 0x1fffff {
        let b0 = ((n >> 22) | 0x80) as u8;
        let b1 = ((n >> 15) | 0x80) as u8;
        let b2 = ((n >> 8) | 0x80) as u8;
        let b3 = n as u8;
        assert(bytes == seq![b0, b1, b2, b3]);
        assert(b0 >= 0x80 && b1 >= 0x80 && b2 >= 0x80) by (bit_vector)
            requires
                b0 == ((n >> 22) | 0x80) as u8,
                b1 == ((n >> 15) | 0x80) as u8,
                b2 == ((n >> 8) | 0x80) as u8,
        ;
        let v0 = (b0 & 0x7f) as u32;
        let v1 = (v0 << 7) | ((b1 & 0x7f) as u32);
        let v2 = (v1 << 7) | ((b2 & 0x7f) as u32);
        let w = (v2 << 8) | (b3 as u32);
        assert(w == n) by (bit_vector)
            requires
                n < 0x2000_0000u32,
                b0 == ((n >> 22) | 0x80) as u8,
                b1 == ((n >> 15) | 0x80) as u8,
                b2 == ((n >> 8) | 0x80) as u8,
                b3 == n as u8,
                v0 == (b0 & 0x7f) as u32,
                v1 == (v0 << 7) | ((b1 & 0x7f) as u32),
                v2 == (v1 << 7) | ((b2 & 0x7f) as u32),
                w == (v2 << 8) | (b3 as u32),
        ;
    } else if n > 0x3fff {
        let b0 = ((n >> 14) | 0x80) as u8;
        let b1 = ((n >> 7) | 0x80) as u8;
        let b2 = (n & 0x7f) as u8;
        assert(bytes == seq![b0, b1, b2]);
        assert(b0 >= 0x80 && b1 >= 0x80 && b2 < 0x80) by (bit_vector)
            requires
                b0 == ((n >> 14) | 0x80) as u8,
                b1 == ((n >> 7) | 0x80) as u8,
                b2 == (n & 0x7f) as u8,
        ;
        let v0 = (b0 & 0x7f) as u32;
        let v1 = (v0 << 7) | ((b1 & 0x7f) as u32);
        let w = (v1 << 7) | (b2 as u32);
        assert(w == n) by (bit_vector)
            requires
                0x3fffu32 < n < 0x20_0000u32,
                b0 == ((n >> 14) | 0x80) as u8,
                b1 == ((n >> 7) | 0x80) as u8,
                b2 == (n & 0x7f) as u8,
                v0 == (b0 & 0x7f) as u32,
                v1 == (v0 << 7) | ((b1 & 0x7f) as u32),
                w == (v1 << 7) | (b2 as u32),
        ;
    } else if n > 0x7f {
        let b0 = ((n >> 7) | 0x80) as u8;
        let b1 = (n & 0x7f) as u8;
        assert(bytes == seq![b0, b1]);
        assert(b0 >= 0x80 && b1 < 0x80) by (bit_vector)
            requires
                b0 == ((n >> 7) | 0x80) as u8,
                b1 == (n & 0x7f) as u8,
        ;
        let v0 = (b0 & 0x7f) as u32;
        let w = (v0 << 7) | (b1 as u32);
        assert(w == n) by (bit_vector)
            requires
                0x7fu32 < n < 0x4000u32,
                b0 == ((n >> 7) | 0x80) as u8,
                b1 == (n & 0x7f) as u8,
                v0 == (b0 & 0x7f) as u32,
                w == (v0 << 7) | (b1 as u32),
        ;
    } else {
        let b0 = (n & 0x7f) as u8;
        assert(bytes == seq![b0]);
        assert(b0 < 0x80 && b0 as u32 == n) by (bit_vector)
            requires
                n <= 0x7fu32,
                b0 == (n & 0x7f) as u8,
        ;
    }
}

} // verus!
