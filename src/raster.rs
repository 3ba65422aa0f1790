use vstd::arithmetic::div_mod::lemma_fundamental_div_mod_converse;
use vstd::prelude::*;

verus! {

/// A single-channel 8-bit image, stored row by row.
pub struct Raster {
    pub width: usize,
    pub height: usize,
    pub pixels: Vec<u8>,
}

/// What `image::imageops::resize` with the nearest filter makes of a
/// `w`×`h` buffer when asked for `nw`×`nh` pixels.
pub uninterp spec fn nearest_resized(src: Seq<u8>, w: nat, h: nat, nw: nat, nh: nat) -> Seq<u8>;

/// The buffer `bottom` (`w` pixels wide) after `top` (`tw`×`th`) has been
/// copied over it with its upper left corner at (`x0`, `y0`). Whatever of
/// `top` falls outside `bottom` is dropped.
pub open spec fn overlaid(
    bottom: Seq<u8>,
    w: nat,
    top: Seq<u8>,
    tw: nat,
    th: nat,
    x0: nat,
    y0: nat,
) -> Seq<u8> {
    Seq::new(
        bottom.len(),
        |i: int|
            {
                let x = i % (w as int);
                let y = i / (w as int);
                if x0 <= x < x0 + tw && y0 <= y < y0 + th {
                    top[(y - y0) * tw + (x - x0)]
                } else {
                    bottom[i]
                }
            },
    )
}

/// Whether every pixel of `s` is black (0) or white (255).
pub open spec fn two_tone(s: Seq<u8>) -> bool {
    forall|i: int| 0 <= i < s.len() ==> #[trigger] s[i] == 0 || s[i] == 255
}

/// Whether every pixel of `r` is one of the pixels of `src`.
pub open spec fn drawn_from(r: Seq<u8>, src: Seq<u8>) -> bool {
    forall|i: int|
        0 <= i < r.len() ==> exists|j: int| 0 <= j < src.len() && #[trigger] r[i] == src[j]
}

/// Copying a two-tone image over a two-tone image leaves it two-tone.
pub proof fn lemma_overlaid_two_tone(
    bottom: Seq<u8>,
    w: nat,
    top: Seq<u8>,
    tw: nat,
    th: nat,
    x0: nat,
    y0: nat,
)
    requires
        top.len() == tw * th,
        two_tone(bottom),
        two_tone(top),
    ensures
        two_tone(overlaid(bottom, w, top, tw, th, x0, y0)),
{
    let o = overlaid(bottom, w, top, tw, th, x0, y0);
    assert forall|i: int| 0 <= i < o.len() implies #[trigger] o[i] == 0 || o[i] == 255 by {
        let x = i % (w as int);
        let y = i / (w as int);
        if x0 <= x < x0 + tw && y0 <= y < y0 + th {
            let a = y - y0;
            let b = x - x0;
            assert(0 <= a * tw + b < tw * th) by (nonlinear_arith)
                requires
                    0 <= a < th,
                    0 <= b < tw,
            ;
            assert(top[a * tw + b] == 0 || top[a * tw + b] == 255);
        }
    }
}

/// Whether the resampler can turn a `w`×`h` buffer into an `nw`×`nh` one
/// without an index or a size overflowing: image sizes are `u32`, and the
/// intermediate buffer holds four floats per pixel.
pub open spec fn resizable(w: nat, h: nat, nw: nat, nh: nat) -> bool {
    &&& w <= u32::MAX && h <= u32::MAX && nw <= u32::MAX && nh <= u32::MAX
    &&& nw * nh <= usize::MAX
    &&& 4 * w * nh <= usize::MAX
    &&& (nw == w && nh == h) || (w > 0 && h > 0)
}

/// Relies on `image::imageops::resize` with `FilterType::Nearest`: the
/// result has `nw`×`nh` pixels, and is a plain copy of the source when the
/// size does not change. Its box kernel of support 0 gives exactly one source
/// pixel the weight 1 for each output pixel, so every output pixel is a source
/// pixel.
#[verifier::external_body]
fn resize_nearest(src: &Vec<u8>, w: usize, h: usize, nw: usize, nh: usize) -> (r: Vec<u8>)
    requires
        src@.len() == w * h,
        resizable(w as nat, h as nat, nw as nat, nh as nat),
    ensures
        r@.len() == nw * nh,
        r@ == nearest_resized(src@, w as nat, h as nat, nw as nat, nh as nat),
        nw == w && nh == h ==> r@ == src@,
        drawn_from(r@, src@),
{
    let img = image::GrayImage::from_raw(w as u32, h as u32, src.clone()).unwrap();
    image::imageops::resize(&img, nw as u32, nh as u32, image::imageops::FilterType::Nearest)
        .into_raw()
}

impl Raster {
    /// The buffer holds exactly one byte per pixel.
    pub open spec fn wf(&self) -> bool {
        self.pixels@.len() == self.width * self.height
    }

    /// The intensity at column `x` of row `y`.
    pub open spec fn pixel(&self, x: int, y: int) -> u8 {
        self.pixels@[y * self.width + x]
    }

    /// A `width`×`height` image with every pixel set to `value`.
    pub fn filled(width: usize, height: usize, value: u8) -> (r: Raster)
        requires
            width * height <= usize::MAX,
        ensures
            r.wf(),
            r.width == width,
            r.height == height,
            r.pixels@ == Seq::new((width * height) as nat, |i: int| value),
    {
        let n = width * height;
        let mut pixels: Vec<u8> = Vec::with_capacity(n);
        let mut i: usize = 0;
        while i < n
            invariant
                i <= n,
                pixels@ == Seq::new(i as nat, |j: int| value),
            decreases n - i,
        {
            pixels.push(value);
            i = i + 1;
        }
        Raster { width, height, pixels }
    }

    /// The intensity at column `x` of row `y`.
    pub fn get_pixel(&self, x: usize, y: usize) -> (r: u8)
        requires
            self.wf(),
            x < self.width,
            y < self.height,
        ensures
            r == self.pixel(x as int, y as int),
    {
        let n = self.pixels.len();
        proof {
            lemma_row_index_in_bounds(x as int, y as int, self.width as int, self.height as int);
        }
        assert(y * self.width + x < n);
        self.pixels[y * self.width + x]
    }

    /// This image rescaled to exactly `nw`×`nh` pixels with nearest-neighbour
    /// sampling. Rescaling to the size the image already has changes nothing,
    /// and rescaling brings in no intensity that the image did not have.
    pub fn resize_exact(&self, nw: usize, nh: usize) -> (r: Raster)
        requires
            self.wf(),
            resizable(self.width as nat, self.height as nat, nw as nat, nh as nat),
        ensures
            r.wf(),
            r.width == nw,
            r.height == nh,
            r.pixels@ == nearest_resized(
                self.pixels@,
                self.width as nat,
                self.height as nat,
                nw as nat,
                nh as nat,
            ),
            nw == self.width && nh == self.height ==> r.pixels@ == self.pixels@,
            drawn_from(r.pixels@, self.pixels@),
    {
        let pixels = resize_nearest(&self.pixels, self.width, self.height, nw, nh);
        Raster { width: nw, height: nh, pixels }
    }

    /// Copies `top` onto this image with its upper left corner at (`x0`,
    /// `y0`). Its pixels replace those beneath them; the part of `top` that
    /// falls outside this image is left out.
    pub fn overlay(&mut self, top: &Raster, x0: usize, y0: usize)
        requires
            old(self).wf(),
            top.wf(),
        ensures
            final(self).wf(),
            final(self).width == old(self).width,
            final(self).height == old(self).height,
            final(self).pixels@ == overlaid(
                old(self).pixels@,
                old(self).width as nat,
                top.pixels@,
                top.width as nat,
                top.height as nat,
                x0 as nat,
                y0 as nat,
            ),
    {
        let w = self.width;
        let h = self.height;
        let ghost goal = overlaid(
            self.pixels@,
            w as nat,
            top.pixels@,
            top.width as nat,
            top.height as nat,
            x0 as nat,
            y0 as nat,
        );
        let n = self.pixels.len();
        let mut out: Vec<u8> = Vec::with_capacity(n);
        let mut y: usize = 0;
        while y < h
            invariant
                self.wf(),
                top.wf(),
                w == self.width,
                h == self.height,
                n == w * h,
                y <= h,
                goal.len() == w * h,
                out@ == goal.take(y * w),
                goal == overlaid(
                    self.pixels@,
                    w as nat,
                    top.pixels@,
                    top.width as nat,
                    top.height as nat,
                    x0 as nat,
                    y0 as nat,
                ),
            decreases h - y,
        {
            let mut x: usize = 0;
            while x < w
                invariant
                    self.wf(),
                    top.wf(),
                    w == self.width,
                    h == self.height,
                    n == w * h,
                    y < h,
                    x <= w,
                    goal.len() == w * h,
                    out@ == goal.take(y * w + x),
                    goal == overlaid(
                        self.pixels@,
                        w as nat,
                        top.pixels@,
                        top.width as nat,
                        top.height as nat,
                        x0 as nat,
                        y0 as nat,
                    ),
                decreases w - x,
            {
                proof {
                    lemma_row_index_in_bounds(x as int, y as int, w as int, h as int);
                    lemma_fundamental_div_mod_converse(
                        y * w + x,
                        w as int,
                        y as int,
                        x as int,
                    );
                }
                let i = y * w + x;
                let inside = x >= x0 && y >= y0 && x - x0 < top.width && y - y0 < top.height;
                let v = if inside {
                    top.get_pixel(x - x0, y - y0)
                } else {
                    self.pixels[i]
                };
                assert(v == goal[i as int]);
                out.push(v);
                assert(out@ =~= goal.take(i + 1));
                x = x + 1;
            }
            proof {
                assert((y + 1) * w == y * w + w) by (nonlinear_arith);
            }
            y = y + 1;
        }
        assert(y * w == w * h) by (nonlinear_arith)
            requires
                y == h,
        ;
        assert(out@ =~= goal);
        self.pixels = out;
    }
}

/// The row-major index of a pixel inside a `w`×`h` image lies inside the
/// buffer.
proof fn lemma_row_index_in_bounds(x: int, y: int, w: int, h: int)
    requires
        0 <= x < w,
        0 <= y < h,
    ensures
        0 <= y * w + x < w * h,
        y * w <= y * w + x,
{
    assert(y * w + x < w * h) by (nonlinear_arith)
        requires
            0 <= x < w,
            0 <= y < h,
    ;
    assert(0 <= y * w) by (nonlinear_arith)
        requires
            0 <= y,
            0 <= w,
    ;
}

} // verus!
