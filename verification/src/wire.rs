//! Fixed-width big-endian wire forms shared by both engines.

use vstd::prelude::*;

verus! {

/// The two big-endian bytes of a 16-bit word.
pub open spec fn be_u16_bytes(x: u16) -> Seq<u8> {
    seq![(x >> 8) as u8, x as u8]
}

/// The four big-endian bytes of a 32-bit word.
pub open spec fn be_u32_bytes(x: u32) -> Seq<u8> {
    seq![(x >> 24) as u8, (x >> 16) as u8, (x >> 8) as u8, x as u8]
}

/// The eight big-endian bytes of a 64-bit word.
pub open spec fn be_u64_bytes(x: u64) -> Seq<u8> {
    seq![
        (x >> 56) as u8,
        (x >> 48) as u8,
        (x >> 40) as u8,
        (x >> 32) as u8,
        (x >> 24) as u8,
        (x >> 16) as u8,
        (x >> 8) as u8,
        x as u8,
    ]
}

/// The two's-complement 32-bit image of a signed integer.
pub open spec fn i32_bits(x: i32) -> u32 {
    if x >= 0 {
        x as u32
    } else {
        ((x as int) + 0x1_0000_0000) as u32
    }
}

/// The four big-endian bytes of a signed 32-bit integer.
pub open spec fn be_i32_bytes(x: i32) -> Seq<u8> {
    be_u32_bytes(i32_bits(x))
}

/// The concatenated big-endian forms of a sequence of signed integers.
pub open spec fn be_i32_seq(items: Seq<i32>) -> Seq<u8>
    decreases items.len(),
{
    if items.len() == 0 {
        seq![]
    } else {
        be_i32_seq(items.drop_last()) + be_i32_bytes(items.last())
    }
}

/// The concatenated big-endian forms of a sequence of unsigned integers.
pub open spec fn be_u32_seq(items: Seq<u32>) -> Seq<u8>
    decreases items.len(),
{
    if items.len() == 0 {
        seq![]
    } else {
        be_u32_seq(items.drop_last()) + be_u32_bytes(items.last())
    }
}

/// The concatenated big-endian forms of a sequence of 64-bit words.
pub open spec fn be_u64_seq(items: Seq<u64>) -> Seq<u8>
    decreases items.len(),
{
    if items.len() == 0 {
        seq![]
    } else {
        be_u64_seq(items.drop_last()) + be_u64_bytes(items.last())
    }
}

/// The single byte of a boolean flag.
pub open spec fn flag_byte(b: bool) -> u8 {
    if b {
        1
    } else {
        0
    }
}

/// Appends the two big-endian bytes of `x` to `out`.
pub fn write_be_u16(out: &mut Vec<u8>, x: u16)
    ensures
        final(out)@ == old(out)@ + be_u16_bytes(x),
{
    out.push((x >> 8) as u8);
    out.push(x as u8);
    assert(out@ =~= old(out)@ + be_u16_bytes(x));
}

/// Appends the four big-endian bytes of `x` to `out`.
pub fn write_be_u32(out: &mut Vec<u8>, x: u32)
    ensures
        final(out)@ == old(out)@ + be_u32_bytes(x),
{
    out.push((x >> 24) as u8);
    out.push((x >> 16) as u8);
    out.push((x >> 8) as u8);
    out.push(x as u8);
    assert(out@ =~= old(out)@ + be_u32_bytes(x));
}

/// Appends the eight big-endian bytes of `x` to `out`.
pub fn write_be_u64(out: &mut Vec<u8>, x: u64)
    ensures
        final(out)@ == old(out)@ + be_u64_bytes(x),
{
    out.push((x >> 56) as u8);
    out.push((x >> 48) as u8);
    out.push((x >> 40) as u8);
    out.push((x >> 32) as u8);
    out.push((x >> 24) as u8);
    out.push((x >> 16) as u8);
    out.push((x >> 8) as u8);
    out.push(x as u8);
    assert(out@ =~= old(out)@ + be_u64_bytes(x));
}

/// Appends the four big-endian two's-complement bytes of `x` to `out`.
pub fn write_be_i32(out: &mut Vec<u8>, x: i32)
    ensures
        final(out)@ == old(out)@ + be_i32_bytes(x),
{
    let u: u32 = if x >= 0 {
        x as u32
    } else {
        ((x as i64) + 0x1_0000_0000i64) as u32
    };
    assert(u == i32_bits(x));
    write_be_u32(out, u);
}

/// Appends the raw bytes of `s` to `out`.
pub fn write_slice(out: &mut Vec<u8>, s: &Vec<u8>)
    ensures
        final(out)@ == old(out)@ + s@,
{
    let n = s.len();
    let mut i: usize = 0;
    while i < n
        invariant
            n == s.len(),
            0 <= i <= n,
            out@ == old(out)@ + s@.subrange(0, i as int),
        decreases n - i,
    {
        out.push(s[i]);
        assert(out@ =~= old(out)@ + s@.subrange(0, i + 1));
        i = i + 1;
    }
    assert(out@ =~= old(out)@ + s@);
}

/// Appends the big-endian forms of all items to `out`.
pub fn write_be_i32_seq(out: &mut Vec<u8>, items: &Vec<i32>)
    ensures
        final(out)@ == old(out)@ + be_i32_seq(items@),
{
    let n = items.len();
    let mut i: usize = 0;
    while i < n
        invariant
            n == items.len(),
            0 <= i <= n,
            out@ == old(out)@ + be_i32_seq(items@.subrange(0, i as int)),
        decreases n - i,
    {
        write_be_i32(out, items[i]);
        proof {
            let pre = items@.subrange(0, i + 1);
            assert(pre.drop_last() =~= items@.subrange(0, i as int));
            assert(pre.last() == items@[i as int]);
            assert(out@ =~= old(out)@ + be_i32_seq(pre));
        }
        i = i + 1;
    }
    assert(items@.subrange(0, n as int) =~= items@);
}

/// Appends the big-endian forms of all items to `out`.
pub fn write_be_u32_seq(out: &mut Vec<u8>, items: &Vec<u32>)
    ensures
        final(out)@ == old(out)@ + be_u32_seq(items@),
{
    let n = items.len();
    let mut i: usize = 0;
    while i < n
        invariant
            n == items.len(),
            0 <= i <= n,
            out@ == old(out)@ + be_u32_seq(items@.subrange(0, i as int)),
        decreases n - i,
    {
        write_be_u32(out, items[i]);
        proof {
            let pre = items@.subrange(0, i + 1);
            assert(pre.drop_last() =~= items@.subrange(0, i as int));
            assert(pre.last() == items@[i as int]);
            assert(out@ =~= old(out)@ + be_u32_seq(pre));
        }
        i = i + 1;
    }
    assert(items@.subrange(0, n as int) =~= items@);
}

/// Appends the big-endian forms of all items to `out`.
pub fn write_be_u64_seq(out: &mut Vec<u8>, items: &Vec<u64>)
    ensures
        final(out)@ == old(out)@ + be_u64_seq(items@),
{
    let n = items.len();
    let mut i: usize = 0;
    while i < n
        invariant
            n == items.len(),
            0 <= i <= n,
            out@ == old(out)@ + be_u64_seq(items@.subrange(0, i as int)),
        decreases n - i,
    {
        write_be_u64(out, items[i]);
        proof {
            let pre = items@.subrange(0, i + 1);
            assert(pre.drop_last() =~= items@.subrange(0, i as int));
            assert(pre.last() == items@[i as int]);
            assert(out@ =~= old(out)@ + be_u64_seq(pre));
        }
        i = i + 1;
    }
    assert(items@.subrange(0, n as int) =~= items@);
}

} // verus!
