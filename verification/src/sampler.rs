use crate::error::GradientError;
use crate::geometry::{
    lemma_nearest_quotient_bounds, lemma_nearest_quotient_exact, nearest_quotient,
    rounded_quotient,
};
use crate::raster::{black, count_set, Color, Image, Mask};
use vstd::prelude::*;
use vstd::string::StringExecFns;

verus! {

/// One of the three channels of a pixel.
#[derive(Debug, Clone, Copy, PartialEq, Eq, Structural)]
pub enum Channel {
    Blue,
    Green,
    Red,
}

impl Color {
    /// The value of one channel.
    pub open spec fn channel(self, c: Channel) -> u8 {
        match c {
            Channel::Blue => self.blue,
            Channel::Green => self.green,
            Channel::Red => self.red,
        }
    }
}

/// Sum of channel `c` over those of the first `n` pixels that `mask` selects.
pub open spec fn masked_sum(pixels: Seq<Color>, mask: Seq<bool>, c: Channel, n: nat) -> nat
    decreases n,
{
    if n == 0 {
        0
    } else {
        masked_sum(pixels, mask, c, (n - 1) as nat) + if mask[n - 1] {
            pixels[n - 1].channel(c) as nat
        } else {
            0nat
        }
    }
}

/// A channel value brought into the range of a byte.
pub open spec fn clamp_channel(v: int) -> u8 {
    if v < 0 {
        0u8
    } else if v > 255 {
        255u8
    } else {
        v as u8
    }
}

/// Mean of channel `c` over the pixels that `mask` selects, rounded to the
/// nearest integer and clamped to a byte. Meant for a mask that selects at
/// least one pixel.
pub open spec fn masked_mean(pixels: Seq<Color>, mask: Seq<bool>, c: Channel) -> u8 {
    clamp_channel(
        nearest_quotient(
            masked_sum(pixels, mask, c, mask.len()) as int,
            count_set(mask, mask.len()) as int,
        ),
    )
}

/// The colour sampled from `pixels` under `mask`: black where the mask selects
/// nothing, else the mean of the selected pixels, channel by channel.
pub open spec fn mean_color(pixels: Seq<Color>, mask: Seq<bool>) -> Color {
    if count_set(mask, mask.len()) == 0 {
        black()
    } else {
        Color {
            blue: masked_mean(pixels, mask, Channel::Blue),
            green: masked_mean(pixels, mask, Channel::Green),
            red: masked_mean(pixels, mask, Channel::Red),
        }
    }
}

/// The rounded mean of bytes is a byte: clamping it changes nothing.
pub proof fn lemma_mean_is_byte(sum: int, count: int)
    requires
        count > 0,
        0 <= sum <= 255 * count,
    ensures
        0 <= nearest_quotient(sum, count) <= 255,
        clamp_channel(nearest_quotient(sum, count)) == nearest_quotient(sum, count),
{
    let q = nearest_quotient(sum, count);
    lemma_nearest_quotient_bounds(sum, count);
    assert(q <= 255) by (nonlinear_arith)
        requires
            (2 * q - 1) * count <= 2 * sum,
            sum <= 255 * count,
            count > 0,
    ;
}

/// Where every selected pixel among the first `n` has the colour `color`, the
/// masked sum is that colour's channel value times the number selected.
pub proof fn lemma_masked_sum_uniform(
    pixels: Seq<Color>,
    mask: Seq<bool>,
    c: Channel,
    n: nat,
    color: Color,
)
    requires
        n <= mask.len(),
        n <= pixels.len(),
        forall|i: int| 0 <= i < n && #[trigger] mask[i] ==> pixels[i] == color,
    ensures
        masked_sum(pixels, mask, c, n) == color.channel(c) * count_set(mask, n),
    decreases n,
{
    let v = color.channel(c) as int;
    if n > 0 {
        lemma_masked_sum_uniform(pixels, mask, c, (n - 1) as nat, color);
        let k = count_set(mask, (n - 1) as nat) as int;
        if mask[n - 1] {
            assert(pixels[n - 1] == color);
        }
        assert(v * (k + 1) == v * k + v) by (nonlinear_arith);
    } else {
        assert(v * 0 == 0);
    }
}

/// A mask that selects only pixels of one colour, and at least one of them,
/// samples exactly that colour.
pub proof fn lemma_mean_color_uniform(pixels: Seq<Color>, mask: Seq<bool>, color: Color)
    requires
        mask.len() <= pixels.len(),
        forall|i: int| 0 <= i < mask.len() && #[trigger] mask[i] ==> pixels[i] == color,
        count_set(mask, mask.len()) > 0,
    ensures
        mean_color(pixels, mask) == color,
{
    let n = mask.len();
    let k = count_set(mask, n) as int;
    assert forall|c: Channel| masked_mean(pixels, mask, c) == color.channel(c) by {
        lemma_masked_sum_uniform(pixels, mask, c, n, color);
        lemma_nearest_quotient_exact(color.channel(c) as int, k);
    }
    assert(masked_mean(pixels, mask, Channel::Blue) == color.channel(Channel::Blue));
    assert(masked_mean(pixels, mask, Channel::Green) == color.channel(Channel::Green));
    assert(masked_mean(pixels, mask, Channel::Red) == color.channel(Channel::Red));
}

/// Samples the colour of `image` under `mask`: black where the mask selects
/// nothing, else the rounded mean of the selected pixels.
///
/// A mask of another size than the image is rejected with `InvalidInput`.
pub fn sample_color(image: &Image, mask: &Mask) -> (r: Result<Color, GradientError>)
    ensures
        image.size() != mask.size() ==> r is Err && r->Err_0 == GradientError::InvalidInput,
        image.size() == mask.size() ==> r is Ok && r->Ok_0 == mean_color(image@, mask@),
        r is Ok && mask.spec_count() == 0 ==> r->Ok_0 == black(),
{
    proof {
        use_type_invariant(image);
        use_type_invariant(mask);
    }
    let a = image.size();
    let b = mask.size();
    if a.width != b.width || a.height != b.height {
        return Err(GradientError::InvalidInput);
    }
    Ok(band_color(image, mask))
}

/// The colour of `image` under a mask of its own size.
pub(crate) fn band_color(image: &Image, mask: &Mask) -> (c: Color)
    requires
        image.size() == mask.size(),
    ensures
        c == mean_color(image@, mask@),
{
    proof {
        use_type_invariant(image);
        use_type_invariant(mask);
    }
    let n = mask.len();
    let mut count: u128 = 0;
    let mut blue: u128 = 0;
    let mut green: u128 = 0;
    let mut red: u128 = 0;
    let mut i: usize = 0;
    while i < n
        invariant
            i <= n,
            image.wf(),
            mask.wf(),
            n == mask@.len(),
            n == image.spec_size().area(),
            count == count_set(mask@, i as nat),
            count <= i,
            blue == masked_sum(image@, mask@, Channel::Blue, i as nat),
            green == masked_sum(image@, mask@, Channel::Green, i as nat),
            red == masked_sum(image@, mask@, Channel::Red, i as nat),
            blue <= 255 * count,
            green <= 255 * count,
            red <= 255 * count,
        decreases n - i,
    {
        if mask.is_set(i) {
            let p = image.pixel_at(i);
            assert(image@[i as int] == p);
            blue += p.blue as u128;
            green += p.green as u128;
            red += p.red as u128;
            count += 1;
        }
        i += 1;
    }
    if count == 0 {
        return Color { blue: 0, green: 0, red: 0 };
    }
    proof {
        lemma_mean_is_byte(blue as int, count as int);
        lemma_mean_is_byte(green as int, count as int);
        lemma_mean_is_byte(red as int, count as int);
    }
    let b_mean: u128 = rounded_quotient(blue, count);
    let g_mean: u128 = rounded_quotient(green, count);
    let r_mean: u128 = rounded_quotient(red, count);
    Color { blue: clamp_to_byte(b_mean), green: clamp_to_byte(g_mean), red: clamp_to_byte(r_mean) }
}

/// Brings a channel value into the range of a byte.
pub fn clamp_to_byte(v: u128) -> (b: u8)
    ensures
        b == clamp_channel(v as int),
{
    if v > 255 {
        255
    } else {
        v as u8
    }
}

/// The lower-case hexadecimal digit for a value below sixteen.
pub open spec fn hex_digit(d: int) -> char {
    if d == 0 {
        '0'
    } else if d == 1 {
        '1'
    } else if d == 2 {
        '2'
    } else if d == 3 {
        '3'
    } else if d == 4 {
        '4'
    } else if d == 5 {
        '5'
    } else if d == 6 {
        '6'
    } else if d == 7 {
        '7'
    } else if d == 8 {
        '8'
    } else if d == 9 {
        '9'
    } else if d == 10 {
        'a'
    } else if d == 11 {
        'b'
    } else if d == 12 {
        'c'
    } else if d == 13 {
        'd'
    } else if d == 14 {
        'e'
    } else {
        'f'
    }
}

/// Whether `c` is one of `0`-`9`, `a`-`f`.
pub open spec fn is_lower_hex(c: char) -> bool {
    ('0' <= c && c <= '9') || ('a' <= c && c <= 'f')
}

/// The two hexadecimal digits of a byte, high digit first.
pub open spec fn hex_pair(v: u8) -> Seq<char> {
    seq![hex_digit(v as int / 16), hex_digit(v as int % 16)]
}

/// The colour as `#rrggbb`: red, green, blue, whatever the order of storage.
pub open spec fn hex_color(c: Color) -> Seq<char> {
    seq!['#'] + hex_pair(c.red) + hex_pair(c.green) + hex_pair(c.blue)
}

/// Whether `s` is a `#` followed by six lower-case hexadecimal digits.
pub open spec fn is_hex_color(s: Seq<char>) -> bool {
    &&& s.len() == 7
    &&& s[0] == '#'
    &&& forall|i: int| 1 <= i < 7 ==> is_lower_hex(#[trigger] s[i])
}

/// Every hexadecimal digit is one of `0`-`9`, `a`-`f`.
pub proof fn lemma_hex_digit_is_lower_hex(d: int)
    ensures
        is_lower_hex(hex_digit(d)),
{
}

/// Every colour is written as a `#` and six lower-case hexadecimal digits.
pub proof fn lemma_hex_color_shape(c: Color)
    ensures
        is_hex_color(hex_color(c)),
{
    let s = hex_color(c);
    lemma_hex_digit_is_lower_hex(c.red as int / 16);
    lemma_hex_digit_is_lower_hex(c.red as int % 16);
    lemma_hex_digit_is_lower_hex(c.green as int / 16);
    lemma_hex_digit_is_lower_hex(c.green as int % 16);
    lemma_hex_digit_is_lower_hex(c.blue as int / 16);
    lemma_hex_digit_is_lower_hex(c.blue as int % 16);
    assert(s.len() == 7);
    assert(s[1] == hex_digit(c.red as int / 16));
    assert(s[2] == hex_digit(c.red as int % 16));
    assert(s[3] == hex_digit(c.green as int / 16));
    assert(s[4] == hex_digit(c.green as int % 16));
    assert(s[5] == hex_digit(c.blue as int / 16));
    assert(s[6] == hex_digit(c.blue as int % 16));
}

/// The one-character string of a hexadecimal digit.
fn hex_digit_str(d: u8) -> (s: &'static str)
    requires
        d < 16,
    ensures
        s@ == seq![hex_digit(d as int)],
{
    proof {
        reveal_strlit("0");
        reveal_strlit("1");
        reveal_strlit("2");
        reveal_strlit("3");
        reveal_strlit("4");
        reveal_strlit("5");
        reveal_strlit("6");
        reveal_strlit("7");
        reveal_strlit("8");
        reveal_strlit("9");
        reveal_strlit("a");
        reveal_strlit("b");
        reveal_strlit("c");
        reveal_strlit("d");
        reveal_strlit("e");
        reveal_strlit("f");
    }
    let s = match d {
        0 => "0",
        1 => "1",
        2 => "2",
        3 => "3",
        4 => "4",
        5 => "5",
        6 => "6",
        7 => "7",
        8 => "8",
        9 => "9",
        10 => "a",
        11 => "b",
        12 => "c",
        13 => "d",
        14 => "e",
        _ => "f",
    };
    assert(s@ =~= seq![hex_digit(d as int)]);
    s
}

/// Writes a colour as `#rrggbb` in lower-case hexadecimal.
pub fn to_hex(c: Color) -> (s: String)
    ensures
        s@ == hex_color(c),
        is_hex_color(s@),
{
    proof {
        reveal_strlit("#");
        lemma_hex_color_shape(c);
    }
    let mut s = "#".to_owned();
    s.append(hex_digit_str(c.red / 16));
    s.append(hex_digit_str(c.red % 16));
    s.append(hex_digit_str(c.green / 16));
    s.append(hex_digit_str(c.green % 16));
    s.append(hex_digit_str(c.blue / 16));
    s.append(hex_digit_str(c.blue % 16));
    assert(s@ =~= hex_color(c));
    s
}

} // verus!
