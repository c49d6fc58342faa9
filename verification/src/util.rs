//! Small pure helpers: binary-coded-decimal conversion, memory-segment
//! comparison for the deduplicated memory dump, and hexadecimal rendering
//! of the dump lines.

use vstd::prelude::*;

verus! {

/// Converts a binary-coded-decimal byte (one decimal digit per nibble)
/// to its binary value.
pub fn bcd_to_binary(bcd: u8) -> (r: u8)
    ensures
        r == (bcd / 16) * 10 + bcd % 16,
{
    proof {
        assert(((bcd & 0xf0) >> 4) == bcd / 16) by (bit_vector);
        assert((bcd & 0x0f) == bcd % 16) by (bit_vector);
        assert(bcd / 16 <= 15 && bcd % 16 <= 15);
    }
    ((bcd & 0xf0) >> 4) * 10 + (bcd & 0x0f)
}

/// Whether two consecutive four-word memory segments hold the same words.
/// The first segment of a dump never counts as a repeat.
pub fn identical_segments(previous: &Vec<i32>, new: &Vec<i32>, n: usize) -> (r: bool)
    requires
        previous@.len() == 4,
        new@.len() == 4,
    ensures
        r == (n != 0 && previous@ == new@),
{
    if n == 0 {
        proof {
            assert(!(n != 0 && previous@ == new@));
        }
        return false;
    }
    let eq = previous[0] == new[0] && previous[1] == new[1] && previous[2] == new[2]
        && previous[3] == new[3];
    proof {
        if eq {
            assert(previous@ =~= new@);
        } else {
            assert(previous@ != new@);
        }
    }
    eq
}

/// The character of one hexadecimal digit, lowercase.
pub open spec fn hex_digit(n: u8) -> u8
    recommends
        n < 16,
{
    if n < 10 {
        (48 + n) as u8
    } else {
        (87 + n) as u8
    }
}

/// The eight hexadecimal digits of a 32-bit value, most significant first.
pub open spec fn spec_hex32(v: u32) -> Seq<u8> {
    seq![
        hex_digit(((v >> 28) & 0xf) as u8),
        hex_digit(((v >> 24) & 0xf) as u8),
        hex_digit(((v >> 20) & 0xf) as u8),
        hex_digit(((v >> 16) & 0xf) as u8),
        hex_digit(((v >> 12) & 0xf) as u8),
        hex_digit(((v >> 8) & 0xf) as u8),
        hex_digit(((v >> 4) & 0xf) as u8),
        hex_digit((v & 0xf) as u8),
    ]
}

fn hex_char(n: u8) -> (r: u8)
    requires
        n < 16,
    ensures
        r == hex_digit(n),
{
    if n < 10 {
        48 + n
    } else {
        87 + n
    }
}

/// Appends the eight hex digits of `v` to `out`.
fn append_hex32(out: &mut Vec<u8>, v: u32)
    ensures
        final(out)@ == old(out)@ + spec_hex32(v),
{
    proof {
        assert((v >> 28) & 0xf < 16 && (v >> 24) & 0xf < 16 && (v >> 20) & 0xf < 16 && (v >> 16)
            & 0xf < 16 && (v >> 12) & 0xf < 16 && (v >> 8) & 0xf < 16 && (v >> 4) & 0xf < 16 && v
            & 0xf < 16) by (bit_vector);
    }
    out.push(hex_char(((v >> 28) & 0xf) as u8));
    out.push(hex_char(((v >> 24) & 0xf) as u8));
    out.push(hex_char(((v >> 20) & 0xf) as u8));
    out.push(hex_char(((v >> 16) & 0xf) as u8));
    out.push(hex_char(((v >> 12) & 0xf) as u8));
    out.push(hex_char(((v >> 8) & 0xf) as u8));
    out.push(hex_char(((v >> 4) & 0xf) as u8));
    out.push(hex_char((v & 0xf) as u8));
    proof {
        assert(final(out)@ =~= old(out)@ + spec_hex32(v));
    }
}

/// The eight hex digits of a 32-bit value as bytes, most significant first.
pub fn hex32(v: u32) -> (r: Vec<u8>)
    ensures
        r@ == spec_hex32(v),
{
    let mut out: Vec<u8> = Vec::new();
    append_hex32(&mut out, v);
    proof {
        assert(out@ =~= spec_hex32(v));
    }
    out
}

/// One rendered line of a memory dump: the address, a separator, and the
/// four words at it, all in zero-padded hexadecimal, ending in a newline.
pub open spec fn spec_mem_line(addr: u32, w0: u32, w1: u32, w2: u32, w3: u32) -> Seq<u8> {
    seq![48u8, 120u8] + spec_hex32(addr) + seq![32u8, 32u8, 32u8, 124u8, 32u8, 32u8, 32u8]
        + spec_hex32(w0) + seq![32u8, 32u8] + spec_hex32(w1) + seq![32u8, 32u8] + spec_hex32(w2)
        + seq![32u8, 32u8] + spec_hex32(w3) + seq![32u8, 32u8, 10u8]
}

/// Renders one line of a memory dump from an address and the four words
/// read at it.
pub fn format_mem_line(addr: u32, words: &Vec<u32>) -> (r: Vec<u8>)
    requires
        words@.len() == 4,
    ensures
        r@ == spec_mem_line(addr, words@[0], words@[1], words@[2], words@[3]),
{
    let mut out: Vec<u8> = Vec::new();
    out.push(48);
    out.push(120);
    append_hex32(&mut out, addr);
    out.push(32);
    out.push(32);
    out.push(32);
    out.push(124);
    out.push(32);
    out.push(32);
    out.push(32);
    append_hex32(&mut out, words[0]);
    out.push(32);
    out.push(32);
    append_hex32(&mut out, words[1]);
    out.push(32);
    out.push(32);
    append_hex32(&mut out, words[2]);
    out.push(32);
    out.push(32);
    append_hex32(&mut out, words[3]);
    out.push(32);
    out.push(32);
    out.push(10);
    proof {
        assert(out@ =~= spec_mem_line(addr, words@[0], words@[1], words@[2], words@[3]));
    }
    out
}

} // verus!
