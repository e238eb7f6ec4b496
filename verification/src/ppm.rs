//! The binary portable pixmap encoding of a frame.
//!
//! An image is the two-letter magic word of the binary pixmap, the width and
//! the height in decimal, the largest channel value `255`, each followed by
//! one byte of white space, and then three bytes for every pixel, row after
//! row. This is where colors are clamped: each channel level is brought into
//! the range of a byte as it is written.

use vstd::prelude::*;
use crate::frame::{clamp_channel, clamped, Frame, FrameView, Rgb};

verus! {

/// The decimal digits of `n` in ASCII, most significant first, without
/// leading zeros.
pub open spec fn decimal(n: nat) -> Seq<u8>
    decreases n,
{
    if n < 10 {
        seq![(48 + n) as u8]
    } else {
        decimal(n / 10).push((48 + n % 10) as u8)
    }
}

/// The number that a sequence of ASCII digits stands for.
pub open spec fn decimal_value(digits: Seq<u8>) -> nat
    decreases digits.len(),
{
    if digits.len() == 0 {
        0
    } else {
        (10 * decimal_value(digits.drop_last()) + (digits.last() - 48)) as nat
    }
}

/// The header of a `width` by `height` image: the magic word, a line feed,
/// the width, a space, the height, a line feed, `255`, a line feed.
pub open spec fn header(width: nat, height: nat) -> Seq<u8> {
    seq![0x50u8, 0x36u8, 0x0au8] + decimal(width) + seq![0x20u8] + decimal(height)
        + seq![0x0au8, 0x32u8, 0x35u8, 0x35u8, 0x0au8]
}

/// The byte of one channel of a color, red, green, blue for 0, 1, 2: the
/// channel's level, clamped to the displayable range.
pub open spec fn channel(color: Rgb, c: int) -> u8 {
    if c == 0 {
        clamped(color.r)
    } else if c == 1 {
        clamped(color.g)
    } else {
        clamped(color.b)
    }
}

/// The pixel data of an image: byte `k` is channel `k % 3` of pixel `k / 3`.
pub open spec fn body(pixels: Seq<Rgb>) -> Seq<u8> {
    Seq::new(3 * pixels.len(), |k: int| channel(pixels[k / 3], k % 3))
}

/// The whole encoding of a frame.
pub open spec fn encoding(frame: FrameView) -> Seq<u8> {
    header(frame.width, frame.height) + body(frame.pixels)
}

/// The digits of a number are ASCII digits and stand for that number.
pub proof fn lemma_decimal_round_trip(n: nat)
    ensures
        decimal(n).len() >= 1,
        forall|i: int| 0 <= i < decimal(n).len() ==> 48 <= #[trigger] decimal(n)[i] <= 57,
        decimal_value(decimal(n)) == n,
    decreases n,
{
    if n < 10 {
        let d = decimal(n);
        assert(d.drop_last().len() == 0);
        assert(decimal_value(d.drop_last()) == 0);
        assert(d.last() == (48 + n) as u8);
    } else {
        lemma_decimal_round_trip(n / 10);
        let d = decimal(n);
        assert(d.drop_last() =~= decimal(n / 10));
        assert(d.last() == (48 + n % 10) as u8);
    }
}

/// Appends the decimal digits of `n` to `out`.
fn push_decimal(out: &mut Vec<u8>, n: usize)
    ensures
        final(out)@ == old(out)@ + decimal(n as nat),
    decreases n,
{
    if n < 10 {
        out.push(48u8 + n as u8);
        assert(final(out)@ =~= old(out)@ + decimal(n as nat));
    } else {
        push_decimal(out, n / 10);
        out.push(48u8 + (n % 10) as u8);
        assert(out@ =~= old(out)@ + decimal(n as nat));
    }
}

/// The header of a `width` by `height` image.
pub fn encode_header(width: usize, height: usize) -> (bytes: Vec<u8>)
    ensures
        bytes@ == header(width as nat, height as nat),
{
    let mut bytes: Vec<u8> = Vec::new();
    bytes.push(0x50u8);
    bytes.push(0x36u8);
    bytes.push(0x0au8);
    push_decimal(&mut bytes, width);
    bytes.push(0x20u8);
    push_decimal(&mut bytes, height);
    bytes.push(0x0au8);
    bytes.push(0x32u8);
    bytes.push(0x35u8);
    bytes.push(0x35u8);
    bytes.push(0x0au8);
    assert(bytes@ =~= header(width as nat, height as nat));
    bytes
}

/// Encodes a frame: the header, then the clamped channels of every pixel in
/// row-major order.
pub fn encode(frame: &Frame) -> (bytes: Vec<u8>)
    requires
        frame@.wf(),
    ensures
        bytes@ == encoding(frame@),
{
    let mut bytes = encode_header(frame.width(), frame.height());
    let pixels = frame.pixels();
    let ghost head = bytes@;
    let mut i: usize = 0;
    while i < pixels.len()
        invariant
            i <= pixels@.len(),
            bytes@ == head + body(pixels@.take(i as int)),
        decreases pixels.len() - i,
    {
        let color = pixels[i];
        let ghost before = bytes@;
        let r: u8 = clamp_channel(color.r);
        let g: u8 = clamp_channel(color.g);
        let b: u8 = clamp_channel(color.b);
        bytes.push(r);
        bytes.push(g);
        bytes.push(b);
        proof {
            let shorter = pixels@.take(i as int);
            let longer = pixels@.take(i + 1);
            assert(longer =~= shorter.push(color));
            assert(body(longer) =~= body(shorter) + seq![r, g, b]);
            assert(bytes@ =~= before + seq![r, g, b]);
        }
        i += 1;
    }
    proof {
        assert(pixels@.take(i as int) =~= pixels@);
    }
    bytes
}

} // verus!
