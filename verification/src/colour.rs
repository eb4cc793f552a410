//! The average colour of an image, used to tint embeds.

use image::GenericImageView;
use vstd::prelude::*;

verus! {

/// The error that the image decoder reports.
#[verifier::external_type_specification]
#[verifier::external_body]
pub struct ExImageError(image::ImageError);

/// What the image decoder makes of some bytes: the width, the height, and the
/// pixels in row order, four bytes each (red, green, blue, alpha), as
/// `GenericImageView::get_pixel` reads them; `None` when the bytes do not decode.
pub uninterp spec fn decoded_pixels(bytes: Seq<u8>) -> Option<(u32, u32, Seq<u8>)>;

/// Calls `image::load_from_memory` and reads every pixel through
/// `GenericImageView::get_pixel`, row by row, each of the width times height
/// pixels once (an image without rows or columns gives no pixel reads). The
/// contract claims that the result depends on the bytes alone
/// and that there are four bytes per pixel; what the decoder makes of a given
/// input is left to the name `decoded_pixels`.
#[verifier::external_body]
fn decode_pixels(bytes: &[u8]) -> (res: Result<(u32, u32, Vec<u8>), image::ImageError>)
    ensures
        match res {
            Ok((w, h, px)) => decoded_pixels(bytes@) == Some((w, h, px@)) && px@.len() == 4 * (w * h),
            Err(_) => decoded_pixels(bytes@) is None,
        },
{
    let img = image::load_from_memory(bytes)?;
    let (w, h) = img.dimensions();
    let mut px: Vec<u8> = Vec::new();
    for y in 0..h {
        for x in 0..w {
            px.extend_from_slice(&img.get_pixel(x, y).0);
        }
    }
    Ok((w, h, px))
}

/// Channel `c` (0 red, 1 green, 2 blue, 3 alpha) of pixel `i` in an RGBA buffer.
pub open spec fn channel_at(px: Seq<u8>, c: int, i: int) -> u8 {
    px[4 * i + c]
}

/// The sum of channel `c` over the first `n` pixels of an RGBA buffer.
pub open spec fn channel_total(px: Seq<u8>, c: int, n: nat) -> nat
    decreases n,
{
    if n == 0 {
        0
    } else {
        channel_total(px, c, (n - 1) as nat) + channel_at(px, c, n - 1) as nat
    }
}

/// The mean of channel `c` over `n` pixels, rounded down.
pub open spec fn channel_mean(px: Seq<u8>, c: int, n: nat) -> nat {
    channel_total(px, c, n) / n
}

/// A colour packed as `0xRRGGBB`.
pub open spec fn packed_rgb(red: u8, green: u8, blue: u8) -> nat {
    red as nat * 65536 + green as nat * 256 + blue as nat
}

/// A packed colour gives its channels back: red in the top byte, green in
/// the middle one, blue in the low one, and it fits in 24 bits.
pub proof fn packed_rgb_unpacks(red: u8, green: u8, blue: u8)
    ensures
        packed_rgb(red, green, blue) < 0x1000000,
        packed_rgb(red, green, blue) / 65536 == red,
        (packed_rgb(red, green, blue) / 256) % 256 == green,
        packed_rgb(red, green, blue) % 256 == blue,
{
    let p = packed_rgb(red, green, blue);
    assert(p / 65536 == red as nat) by (nonlinear_arith)
        requires
            p == red as nat * 65536 + green as nat * 256 + blue as nat,
            green < 256,
            blue < 256,
    ;
    assert(p / 256 == red as nat * 256 + green as nat) by (nonlinear_arith)
        requires
            p == red as nat * 65536 + green as nat * 256 + blue as nat,
            blue < 256,
    ;
    assert((red as nat * 256 + green as nat) % 256 == green as nat) by (nonlinear_arith)
        requires
            green < 256,
    ;
    assert(p % 256 == blue as nat) by (nonlinear_arith)
        requires
            p == red as nat * 65536 + green as nat * 256 + blue as nat,
            blue < 256,
    ;
}

/// A colour: the average of an image's pixels.
#[derive(Debug, Clone, Copy, PartialEq, Eq, Structural)]
pub struct AverageColor {
    red: u8,
    green: u8,
    blue: u8,
}

/// Why no average colour came out of some bytes.
#[derive(Debug)]
pub enum ColourError {
    /// The bytes are no image that the decoder reads.
    Decode(image::ImageError),
    /// The image has no pixels to average.
    EmptyImage,
    /// The image has more pixels than a `u32` counts.
    TooManyPixels,
}

impl AverageColor {
    /// The red channel.
    pub closed spec fn spec_red(self) -> u8 {
        self.red
    }

    /// The green channel.
    pub closed spec fn spec_green(self) -> u8 {
        self.green
    }

    /// The blue channel.
    pub closed spec fn spec_blue(self) -> u8 {
        self.blue
    }

    /// Whether this colour is the channel-wise mean, rounded down, of the first
    /// `n` pixels of an RGBA buffer.
    pub open spec fn is_mean_of(self, px: Seq<u8>, n: nat) -> bool {
        &&& self.spec_red() as nat == channel_mean(px, 0, n)
        &&& self.spec_green() as nat == channel_mean(px, 1, n)
        &&& self.spec_blue() as nat == channel_mean(px, 2, n)
    }

    /// A colour with the given channels.
    pub fn new(red: u8, green: u8, blue: u8) -> (res: Self)
        ensures
            res.spec_red() == red,
            res.spec_green() == green,
            res.spec_blue() == blue,
    {
        Self { red, green, blue }
    }

    /// The channel-wise mean, rounded down, of an RGBA buffer of `width` by
    /// `height` pixels (the alpha bytes are ignored).
    pub fn from_rgba(width: u32, height: u32, rgba: &[u8]) -> (res: Self)
        requires
            rgba@.len() == 4 * (width * height),
            0 < width * height <= u32::MAX,
        ensures
            res.is_mean_of(rgba@, (width * height) as nat),
    {
        let count: usize = rgba.len() / 4;
        let ghost n: nat = (width * height) as nat;
        assert(count == n);
        assert(4 * count == rgba.len());
        let mut r: u64 = 0;
        let mut g: u64 = 0;
        let mut b: u64 = 0;
        let mut i: usize = 0;
        while i < count
            invariant
                i <= count,
                count == n,
                n <= u32::MAX,
                rgba@.len() == 4 * count,
                4 * count <= usize::MAX,
                r as nat == channel_total(rgba@, 0, i as nat),
                g as nat == channel_total(rgba@, 1, i as nat),
                b as nat == channel_total(rgba@, 2, i as nat),
                r <= 255 * i,
                g <= 255 * i,
                b <= 255 * i,
            decreases count - i,
        {
            let base: usize = 4 * i;
            r = r + rgba[base] as u64;
            g = g + rgba[base + 1] as u64;
            b = b + rgba[base + 2] as u64;
            i = i + 1;
        }
        assert(width as u64 * height as u64 <= u64::MAX) by (nonlinear_arith)
            requires
                width <= u32::MAX,
                height <= u32::MAX,
        ;
        let total: u64 = width as u64 * height as u64;
        assert(total == n);
        assert(r / total <= 255) by (nonlinear_arith)
            requires
                r <= 255 * total,
                total > 0,
        ;
        assert(g / total <= 255) by (nonlinear_arith)
            requires
                g <= 255 * total,
                total > 0,
        ;
        assert(b / total <= 255) by (nonlinear_arith)
            requires
                b <= 255 * total,
                total > 0,
        ;
        Self { red: (r / total) as u8, green: (g / total) as u8, blue: (b / total) as u8 }
    }

    /// The average colour of an encoded image. Decoding errors are passed on;
    /// an image with no pixels, or with more than `u32::MAX` of them, has no
    /// average here.
    pub fn from_image_bytes(bytes: &[u8]) -> (res: Result<Self, ColourError>)
        ensures
            match decoded_pixels(bytes@) {
                None => res matches Err(ColourError::Decode(_)),
                Some((w, h, px)) => if w * h == 0 {
                    res matches Err(ColourError::EmptyImage)
                } else if w * h > u32::MAX {
                    res matches Err(ColourError::TooManyPixels)
                } else {
                    res matches Ok(c) && c.is_mean_of(px, (w * h) as nat)
                },
            },
    {
        match decode_pixels(bytes) {
            Err(e) => Err(ColourError::Decode(e)),
            Ok((width, height, px)) => {
                assert(width as u64 * height as u64 <= u64::MAX) by (nonlinear_arith)
                    requires
                        width <= u32::MAX,
                        height <= u32::MAX,
                ;
                let total: u64 = width as u64 * height as u64;
                if total == 0 {
                    Err(ColourError::EmptyImage)
                } else if total > u32::MAX as u64 {
                    Err(ColourError::TooManyPixels)
                } else {
                    Ok(Self::from_rgba(width, height, px.as_slice()))
                }
            },
        }
    }

    /// The colour packed as `0xRRGGBB`, the value that serenity's
    /// `Colour::from_rgb` holds for these channels.
    pub fn to_embed_color(&self) -> (res: u32)
        ensures
            res == packed_rgb(self.spec_red(), self.spec_green(), self.spec_blue()),
            res == self.spec_red() * 65536 + self.spec_green() * 256 + self.spec_blue(),
    {
        self.red as u32 * 65536 + self.green as u32 * 256 + self.blue as u32
    }
}


/// Bounds on every pixel's channel bound the channel's total.
proof fn lemma_channel_total_bounds(px: Seq<u8>, c: int, n: nat, lo: nat, hi: nat)
    requires
        forall|i: int| 0 <= i < n ==> lo <= #[trigger] channel_at(px, c, i) <= hi,
    ensures
        lo * n <= channel_total(px, c, n) <= hi * n,
    decreases n,
{
    if n == 0 {
        assert(lo * n == 0 && hi * n == 0);
    } else {
        let m = (n - 1) as nat;
        lemma_channel_total_bounds(px, c, m, lo, hi);
        let v = channel_at(px, c, m as int) as nat;
        assert(lo <= v <= hi);
        assert(channel_total(px, c, n) == channel_total(px, c, m) + v);
        assert(lo * n == lo * m + lo) by (nonlinear_arith)
            requires
                n == m + 1,
        ;
        assert(hi * n == hi * m + hi) by (nonlinear_arith)
            requires
                n == m + 1,
        ;
    }
}

/// The mean of a channel over some pixels lies between the smallest and the
/// largest value that the channel takes on them.
pub proof fn mean_within_channel_range(px: Seq<u8>, c: int, n: nat, lo: nat, hi: nat)
    requires
        n > 0,
        forall|i: int| 0 <= i < n ==> lo <= #[trigger] channel_at(px, c, i) <= hi,
    ensures
        lo <= channel_mean(px, c, n) <= hi,
{
    lemma_channel_total_bounds(px, c, n, lo, hi);
    let t = channel_total(px, c, n);
    assert(lo <= t / n <= hi) by (nonlinear_arith)
        requires
            lo * n <= t <= hi * n,
            n > 0,
    ;
}

/// The average colour of an image whose pixels all share one colour is that colour.
pub proof fn average_of_single_colour(
    avg: AverageColor,
    px: Seq<u8>,
    n: nat,
    red: u8,
    green: u8,
    blue: u8,
)
    requires
        n > 0,
        avg.is_mean_of(px, n),
        forall|i: int| 0 <= i < n ==> #[trigger] channel_at(px, 0, i) == red,
        forall|i: int| 0 <= i < n ==> #[trigger] channel_at(px, 1, i) == green,
        forall|i: int| 0 <= i < n ==> #[trigger] channel_at(px, 2, i) == blue,
    ensures
        avg.spec_red() == red,
        avg.spec_green() == green,
        avg.spec_blue() == blue,
{
    mean_within_channel_range(px, 0, n, red as nat, red as nat);
    mean_within_channel_range(px, 1, n, green as nat, green as nat);
    mean_within_channel_range(px, 2, n, blue as nat, blue as nat);
}

} // verus!
