//! Pictures as Windows takes them on its clipboard.

use crate::text::{chars_of, string_of};
use vstd::prelude::*;

verus! {

/// The bytes of the header before the pixels.
pub const HEADER_BYTES: usize = 124;

/// How many bytes a picture takes once it is decoded, four for each pixel; nothing where there are
/// too many to count.
pub fn estimate_decoded_rgba_bytes(width: u32, height: u32) -> (r: Option<u64>)
    ensures
        r == (if width as int * height as int * 4 <= u64::MAX {
            Some((width as int * height as int * 4) as u64)
        } else {
            None
        }),
{
    assert(width as int * height as int <= u64::MAX) by (nonlinear_arith)
        requires
            0 <= width <= u32::MAX,
            0 <= height <= u32::MAX,
    ;
    (width as u64 * height as u64).checked_mul(4)
}

/// A number in two bytes, the lowest first.
pub open spec fn le16(v: u16) -> Seq<u8> {
    seq![(v % 256) as u8, (v / 256) as u8]
}

/// A number in four bytes, the lowest first.
pub open spec fn le32(v: u32) -> Seq<u8> {
    seq![
        (v % 256) as u8,
        (v / 256 % 256) as u8,
        (v / 65536 % 256) as u8,
        (v / 16777216) as u8,
    ]
}

/// So many zero bytes.
pub open spec fn zeros(n: nat) -> Seq<u8> {
    Seq::new(n, |i: int| 0u8)
}

/// The header of a picture: its own size, width, height (from the bottom up), one plane, thirty-two
/// bits for each pixel, which masks tell apart, the pixels' size, and the colour space of Windows.
pub open spec fn header(width: u32, height: u32, image_size: u32) -> Seq<u8> {
    le32(124) + le32(width) + le32(height) + le16(1) + le16(32) + le32(3) + le32(image_size)
        + zeros(16) + le32(0x00FF_0000) + le32(0x0000_FF00) + le32(0x0000_00FF) + le32(
        0xFF00_0000,
    ) + le32(0x5769_6E20) + zeros(64)
}

/// Where the byte `k` of the clipboard's pixels stands in those of the picture: rows from the bottom
/// up, blue before green before red.
pub open spec fn source_of(k: int, width: int, height: int) -> int {
    let row_bytes = 4 * width;
    let row = k / row_bytes;
    let in_row = k % row_bytes;
    let channel = in_row % 4;
    let swapped = if channel == 0 {
        2
    } else if channel == 2 {
        0
    } else {
        channel
    };
    (height - 1 - row) * row_bytes + (in_row - channel + swapped)
}

/// The clipboard's pixels.
pub open spec fn pixels(rgba: Seq<u8>, width: u32, height: u32) -> Seq<u8> {
    Seq::new(rgba.len(), |k: int| rgba[source_of(k, width as int, height as int)])
}

fn push_le16(out: &mut Vec<u8>, v: u16)
    ensures
        final(out)@ == old(out)@ + le16(v),
{
    let ghost start = out@;
    out.push((v % 256) as u8);
    out.push((v / 256) as u8);
    assert(out@ =~= start + le16(v));
}

fn push_le32(out: &mut Vec<u8>, v: u32)
    ensures
        final(out)@ == old(out)@ + le32(v),
{
    let ghost start = out@;
    out.push((v % 256) as u8);
    out.push((v / 256 % 256) as u8);
    out.push((v / 65536 % 256) as u8);
    out.push((v / 16777216) as u8);
    assert(out@ =~= start + le32(v));
}

fn push_zeros(out: &mut Vec<u8>, n: usize)
    ensures
        final(out)@ == old(out)@ + zeros(n as nat),
{
    let ghost start = out@;
    assert(out@ =~= start + zeros(0));
    for i in 0..n
        invariant
            out@ == start + zeros(i as nat),
    {
        out.push(0);
        assert(out@ =~= start + zeros((i + 1) as nat));
    }
}

/// A picture for the clipboard: the header, and then the pixels. There is none for a picture whose
/// pixels' size does not fit into the header.
pub fn dib_v5(rgba: &[u8], width: u32, height: u32) -> (r: Result<Vec<u8>, String>)
    requires
        rgba@.len() == width as int * height as int * 4,
    ensures
        match r {
            Ok(out) => {
                &&& rgba@.len() <= u32::MAX
                &&& out@ == header(width, height, rgba@.len() as u32) + pixels(
                    rgba@,
                    width,
                    height,
                )
            },
            Err(e) => rgba@.len() > u32::MAX && e@ == "Clipboard image too large"@,
        },
{
    if rgba.len() > 0xFFFF_FFFF {
        return Err(string_of(&chars_of("Clipboard image too large")));
    }
    let mut out: Vec<u8> = Vec::new();
    push_le32(&mut out, 124);
    push_le32(&mut out, width);
    push_le32(&mut out, height);
    push_le16(&mut out, 1);
    push_le16(&mut out, 32);
    push_le32(&mut out, 3);
    push_le32(&mut out, rgba.len() as u32);
    push_zeros(&mut out, 16);
    push_le32(&mut out, 0x00FF_0000);
    push_le32(&mut out, 0x0000_FF00);
    push_le32(&mut out, 0x0000_00FF);
    push_le32(&mut out, 0xFF00_0000);
    push_le32(&mut out, 0x5769_6E20);
    push_zeros(&mut out, 64);
    let ghost head = header(width, height, rgba@.len() as u32);
    assert(out@ =~= head);
    let ghost want = pixels(rgba@, width, height);
    assert(out@ =~= head + want.take(0));
    let mut k: u64 = 0;
    let len: u64 = rgba.len() as u64;
    let row_bytes: u64 = 4 * width as u64;
    while k < len
        invariant
            k <= len,
            len == rgba@.len(),
            len <= u32::MAX,
            len == width as int * height as int * 4,
            row_bytes == 4 * width,
            want == pixels(rgba@, width, height),
            out@ == head + want.take(k as int),
        decreases len - k,
    {
        proof {
            lemma_source(k as int, width as int, height as int);
        }
        let row: u64 = k / row_bytes;
        let in_row: u64 = k % row_bytes;
        let channel: u64 = in_row % 4;
        let swapped: u64 = if channel == 0 {
            2
        } else if channel == 2 {
            0
        } else {
            channel
        };
        let row_start: u64 = (height as u64 - 1 - row) * row_bytes;
        let source: u64 = row_start + (in_row - channel + swapped);
        assert(source == source_of(k as int, width as int, height as int));
        out.push(rgba[source as usize]);
        k = k + 1;
        assert(out@ =~= head + want.take(k as int));
    }
    assert(want.take(len as int) =~= want);
    Ok(out)
}

/// Every byte of the clipboard's pixels comes from the picture.
proof fn lemma_source(k: int, width: int, height: int)
    requires
        0 <= k < width * height * 4,
        0 <= width <= u32::MAX,
        0 <= height <= u32::MAX,
    ensures
        width > 0,
        0 <= k / (4 * width) < height,
        0 <= k % (4 * width) < 4 * width,
        0 <= k % (4 * width) - (k % (4 * width)) % 4,
        k % (4 * width) - (k % (4 * width)) % 4 + 3 < 4 * width,
        0 <= (height - 1 - k / (4 * width)) * (4 * width) <= (height - 1) * (4 * width),
        (height - 1 - k / (4 * width)) * (4 * width) + 4 * width <= width * height * 4,
        0 <= source_of(k, width, height) < width * height * 4,
{
    assert(width > 0) by (nonlinear_arith)
        requires
            0 <= k < width * height * 4,
            0 <= width,
    ;
    let row_bytes = 4 * width;
    let row = k / row_bytes;
    let in_row = k % row_bytes;
    vstd::arithmetic::div_mod::lemma_fundamental_div_mod(k, row_bytes);
    assert(0 <= row < height && 0 <= in_row < row_bytes) by (nonlinear_arith)
        requires
            row_bytes == 4 * width,
            row_bytes > 0,
            row == k / row_bytes,
            in_row == k % row_bytes,
            k == row_bytes * row + in_row,
            0 <= k < width * height * 4,
    ;
    assert(in_row - in_row % 4 + 3 < row_bytes);
    let up = height - 1 - row;
    assert(0 <= up * row_bytes <= (height - 1) * row_bytes) by (nonlinear_arith)
        requires
            0 <= up <= height - 1,
            row_bytes > 0,
    ;
    assert((height - 1) * row_bytes + row_bytes == width * height * 4) by (nonlinear_arith)
        requires
            row_bytes == 4 * width,
    ;
}

/// A picture on the clipboard is its header and its pixels, no byte more.
pub proof fn law_header_size(width: u32, height: u32, image_size: u32)
    ensures
        header(width, height, image_size).len() == HEADER_BYTES,
{
}

/// Turning a picture's rows over and exchanging red and blue twice gives the picture back.
pub proof fn law_exchange_twice(rgba: Seq<u8>, width: u32, height: u32)
    requires
        rgba.len() == width as int * height as int * 4,
    ensures
        pixels(pixels(rgba, width, height), width, height) == rgba,
{
    let w = width as int;
    let h = height as int;
    let once = pixels(rgba, width, height);
    assert forall|k: int| 0 <= k < rgba.len() implies pixels(once, width, height)[k]
        == rgba[k] by {
        lemma_source(k, w, h);
        let s = source_of(k, w, h);
        lemma_source(s, w, h);
        let row_bytes = 4 * w;
        let row = k / row_bytes;
        let in_row = k % row_bytes;
        let channel = in_row % 4;
        let swapped = if channel == 0 {
            2
        } else if channel == 2 {
            0
        } else {
            channel
        };
        let in_row2 = in_row - channel + swapped;
        let up = h - 1 - row;
        vstd::arithmetic::div_mod::lemma_fundamental_div_mod(k, row_bytes);
        vstd::arithmetic::div_mod::lemma_fundamental_div_mod_converse(
            s,
            row_bytes,
            up,
            in_row2,
        );
        assert(s / row_bytes == up);
        assert(s % row_bytes == in_row2);
        assert(in_row2 % 4 == swapped);
        assert(source_of(s, w, h) == row * row_bytes + in_row);
        assert(row * row_bytes == row_bytes * row) by (nonlinear_arith);
    }
    assert(pixels(once, width, height) =~= rgba);
}

} // verus!
