//! Colours, and their way to an image file.

use crate::interval::Interval;
use crate::scalar::faithful;
use crate::scalar::from_i32_of;
use crate::scalar::ratio;
use crate::scalar::ratio_of;
use crate::scalar::to_i32_of;
use crate::scalar::total;
use crate::scalar::Scalar;
use crate::vec3::sqrt_of;
use crate::vec3::Sqrt;
use crate::vec3::Vec3;
use vstd::prelude::*;
use vstd::std_specs::ops::DivSpec;
use vstd::std_specs::ops::MulSpec;

verus! {

/// Red, green and blue, each from nothing at zero to full at one.
pub type Color<T> = Vec3<T>;

/// The digit that stands for `d`.
pub open spec fn spec_digit(d: int) -> u8 {
    (48 + d) as u8
}

/// The number `n` written in the decimal system, without leading zeros.
pub open spec fn spec_decimal(n: nat) -> Seq<u8>
    decreases n,
{
    if n < 10 {
        seq![spec_digit(n as int)]
    } else {
        spec_decimal(n / 10).push(spec_digit((n % 10) as int))
    }
}

/// Appends `n` in the decimal system to `out`.
pub fn push_decimal(out: &mut Vec<u8>, n: u32)
    ensures
        final(out)@ == old(out)@ + spec_decimal(n as nat),
    decreases n,
{
    if n >= 10 {
        push_decimal(out, n / 10);
    }
    let digit: u8 = 48 + (n % 10) as u8;
    out.push(digit);
    proof {
        assert(final(out)@ =~= old(out)@ + spec_decimal(n as nat));
    }
}

/// The number that a text of digits stands for in the decimal system.
pub open spec fn spec_number(text: Seq<u8>) -> nat
    decreases text.len(),
{
    if text.len() == 0 {
        0
    } else {
        (spec_number(text.drop_last()) * 10 + (text.last() - 48)) as nat
    }
}

/// A number written in the decimal system reads back as itself.
pub proof fn lemma_decimal_reads_back(n: nat)
    ensures
        spec_number(spec_decimal(n)) == n,
    decreases n,
{
    if n < 10 {
        assert(spec_decimal(n).drop_last() =~= Seq::<u8>::empty());
        assert(spec_number(Seq::<u8>::empty()) == 0);
    } else {
        lemma_decimal_reads_back(n / 10);
        assert(spec_decimal(n).drop_last() =~= spec_decimal(n / 10));
    }
}

/// A number written in the decimal system holds digits only, and at least
/// one.
pub proof fn lemma_decimal_is_digits(n: nat)
    ensures
        spec_decimal(n).len() >= 1,
        forall|i: int| 0 <= i < spec_decimal(n).len() ==> 48 <= #[trigger] spec_decimal(n)[i] <= 57,
    decreases n,
{
    if n >= 10 {
        lemma_decimal_is_digits(n / 10);
    }
}

/// The value a sum of `samples` samples stands for in one channel, on the
/// scale of a byte: the mean, its square root for the display's gamma,
/// held between nothing and just under one, times 256, cut to a whole
/// number, and kept within what a byte can say.
pub open spec fn spec_channel<T: Scalar>(sum: T, samples: u16) -> u8 {
    let scale = from_i32_of::<T>(1).div_spec(from_i32_of::<T>(samples as i32));
    let intensity = Interval { min: from_i32_of::<T>(0), max: ratio_of::<T>(999, 1000) };
    let level = to_i32_of(
        from_i32_of::<T>(256).mul_spec(intensity.spec_clamp(sqrt_of(sum.mul_spec(scale)))),
    );
    if level < 0 {
        0
    } else if level > 255 {
        255
    } else {
        level as u8
    }
}

/// Brings the sum of `samples` samples of one channel to the scale of a
/// byte.
pub fn channel<T: Scalar>(sum: T, samples: u16) -> (r: u8)
    requires
        total::<T>(),
    ensures
        faithful::<T>() ==> r == spec_channel(sum, samples),
{
    let scale = T::from_i32(1) / T::from_i32(samples as i32);
    let intensity = Interval::new(T::from_i32(0), ratio(999, 1000));
    let level = (T::from_i32(256) * intensity.clamp((sum * scale).sqrt())).to_i32();
    if level < 0 {
        0
    } else if level > 255 {
        255
    } else {
        level as u8
    }
}

/// The line of an image file for one pixel: its three channels in the
/// decimal system, a blank between them and a line feed at the end.
pub open spec fn spec_pixel_line<T: Scalar>(pixel_color: Color<T>, samples: u16) -> Seq<u8> {
    spec_decimal(spec_channel(pixel_color.x, samples) as nat).push(32) + spec_decimal(
        spec_channel(pixel_color.y, samples) as nat,
    ).push(32) + spec_decimal(spec_channel(pixel_color.z, samples) as nat).push(10)
}

/// Appends the line for one pixel, whose colour is the sum of
/// `samples_per_pixel` samples, to `out`.
pub fn write_color<T: Scalar>(out: &mut Vec<u8>, pixel_color: Color<T>, samples_per_pixel: u16)
    requires
        total::<T>(),
    ensures
        final(out)@.len() > old(out)@.len(),
        old(out)@.is_prefix_of(final(out)@),
        faithful::<T>() ==> final(out)@ == old(out)@ + spec_pixel_line(
            pixel_color,
            samples_per_pixel,
        ),
{
    let r = channel(pixel_color.x, samples_per_pixel);
    let g = channel(pixel_color.y, samples_per_pixel);
    let b = channel(pixel_color.z, samples_per_pixel);
    push_decimal(out, r as u32);
    out.push(32);
    push_decimal(out, g as u32);
    out.push(32);
    push_decimal(out, b as u32);
    out.push(10);
    proof {
        assert(final(out)@ =~= old(out)@ + (spec_decimal(r as nat).push(32) + spec_decimal(
            g as nat,
        ).push(32) + spec_decimal(b as nat).push(10)));
    }
}

/// The head of an image file in the plain PPM format: the format's name,
/// the width and height, and the highest channel value, a line each.
pub open spec fn spec_header(width: u16, height: u16) -> Seq<u8> {
    seq![80u8, 51u8, 10u8] + spec_decimal(width as nat).push(32) + spec_decimal(
        height as nat,
    ).push(10) + seq![50u8, 53u8, 53u8, 10u8]
}

/// Appends the head of an image file to `out`.
pub fn write_header(out: &mut Vec<u8>, width: u16, height: u16)
    ensures
        final(out)@ == old(out)@ + spec_header(width, height),
{
    out.push(80);
    out.push(51);
    out.push(10);
    push_decimal(out, width as u32);
    out.push(32);
    push_decimal(out, height as u32);
    out.push(10);
    out.push(50);
    out.push(53);
    out.push(53);
    out.push(10);
    proof {
        assert(final(out)@ =~= old(out)@ + spec_header(width, height));
    }
}

/// The number of lines that end in `text`: its line feeds.
pub open spec fn spec_lines(text: Seq<u8>) -> nat
    decreases text.len(),
{
    if text.len() == 0 {
        0
    } else {
        spec_lines(text.drop_last()) + if text.last() == 10u8 {
            1nat
        } else {
            0nat
        }
    }
}

/// The lines of two texts add up when the texts are joined.
pub proof fn lemma_lines_add(a: Seq<u8>, b: Seq<u8>)
    ensures
        spec_lines(a + b) == spec_lines(a) + spec_lines(b),
    decreases b.len(),
{
    if b.len() == 0 {
        assert(a + b =~= a);
    } else {
        lemma_lines_add(a, b.drop_last());
        assert((a + b).drop_last() =~= a + b.drop_last());
        assert((a + b).last() == b.last());
    }
}

/// A text of digits holds no line feed.
pub proof fn lemma_decimal_is_no_line(n: nat)
    ensures
        spec_lines(spec_decimal(n)) == 0,
    decreases n,
{
    if n < 10 {
        assert(spec_decimal(n) =~= Seq::<u8>::empty().push(spec_digit(n as int)));
        lemma_lines_push(Seq::<u8>::empty(), spec_digit(n as int));
    } else {
        lemma_decimal_is_no_line(n / 10);
        lemma_lines_push(spec_decimal(n / 10), spec_digit((n % 10) as int));
    }
}

/// A text with one more byte has one more line where the byte is a line
/// feed, and as many where it is not.
pub proof fn lemma_lines_push(text: Seq<u8>, byte: u8)
    ensures
        spec_lines(text.push(byte)) == spec_lines(text) + if byte == 10u8 {
            1nat
        } else {
            0nat
        },
{
    assert(text.push(byte).drop_last() =~= text);
}

/// The line of a pixel is one line.
pub proof fn lemma_pixel_line_is_one_line<T: Scalar>(pixel_color: Color<T>, samples: u16)
    ensures
        spec_lines(spec_pixel_line(pixel_color, samples)) == 1,
{
    let r = spec_decimal(spec_channel(pixel_color.x, samples) as nat);
    let g = spec_decimal(spec_channel(pixel_color.y, samples) as nat);
    let b = spec_decimal(spec_channel(pixel_color.z, samples) as nat);
    lemma_decimal_is_no_line(spec_channel(pixel_color.x, samples) as nat);
    lemma_decimal_is_no_line(spec_channel(pixel_color.y, samples) as nat);
    lemma_decimal_is_no_line(spec_channel(pixel_color.z, samples) as nat);
    lemma_lines_push(r, 32);
    lemma_lines_push(g, 32);
    lemma_lines_push(b, 10);
    lemma_lines_add(r.push(32), g.push(32));
    lemma_lines_add(r.push(32) + g.push(32), b.push(10));
}

/// The head of an image file is three lines.
pub proof fn lemma_header_is_three_lines(width: u16, height: u16)
    ensures
        spec_lines(spec_header(width, height)) == 3,
{
    let name = seq![80u8, 51u8, 10u8];
    let depth = seq![50u8, 53u8, 53u8, 10u8];
    let w = spec_decimal(width as nat);
    let h = spec_decimal(height as nat);
    lemma_decimal_is_no_line(width as nat);
    lemma_decimal_is_no_line(height as nat);
    lemma_lines_push(w, 32);
    lemma_lines_push(h, 10);
    assert(name =~= Seq::<u8>::empty().push(80).push(51).push(10));
    lemma_lines_push(Seq::<u8>::empty(), 80);
    lemma_lines_push(Seq::<u8>::empty().push(80), 51);
    lemma_lines_push(Seq::<u8>::empty().push(80).push(51), 10);
    assert(depth =~= Seq::<u8>::empty().push(50).push(53).push(53).push(10));
    lemma_lines_push(Seq::<u8>::empty(), 50);
    lemma_lines_push(Seq::<u8>::empty().push(50), 53);
    lemma_lines_push(Seq::<u8>::empty().push(50).push(53), 53);
    lemma_lines_push(Seq::<u8>::empty().push(50).push(53).push(53), 10);
    lemma_lines_add(name, w.push(32));
    lemma_lines_add(name + w.push(32), h.push(10));
    lemma_lines_add(name + w.push(32) + h.push(10), depth);
}

} // verus!
