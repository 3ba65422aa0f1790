use crate::character::{basic_font_rows, get_char_bytes, glyph_bitmap, supported, Character};
use crate::error::RenderError;
use crate::raster::{lemma_overlaid_two_tone, nearest_resized, overlaid, resizable, two_tone, Raster};
use vstd::arithmetic::div_mod::lemma_fundamental_div_mod_converse;
use vstd::prelude::*;

verus! {

broadcast use vstd::string::axiom_spec_iter;

/// The characters of `s`, in order.
fn chars_of(s: &str) -> (r: Vec<char>)
    ensures
        r@ == s@,
{
    let mut out: Vec<char> = Vec::new();
    for ch in it: s.chars()
        invariant
            out@ == it.seq().take(it.index() as int),
    {
        out.push(ch);
    }
    out
}

/// Layout settings for one line of text, and once built, the size of the
/// image they describe.
pub struct Canvas {
    pub text: Vec<char>,
    pub pad: usize,
    pub height: usize,
    pub native_size: Option<(usize, usize)>,
    pub width: Option<usize>,
    pub blur: Option<u32>,
}

/// The image that `nearest_resized` makes of glyph `c` at `side`×`side`
/// pixels.
pub open spec fn glyph_image(c: char, side: nat) -> Seq<u8> {
    nearest_resized(glyph_bitmap(basic_font_rows(c)), 8, 8, side, side)
}

impl Canvas {
    /// Side of the square cell of each glyph: the height less the padding
    /// above and below.
    pub open spec fn cell(&self) -> int {
        self.height - 2 * self.pad
    }

    /// Width of the canvas before any rescaling: the padding on both sides
    /// and one cell per character.
    pub open spec fn native_width(&self) -> int {
        2 * self.pad + self.cell() * self.text@.len()
    }

    /// Width of the finished image: the one asked for, or else the native one.
    pub open spec fn output_width(&self) -> int {
        match self.width {
            Some(w) => w as int,
            None => self.native_width(),
        }
    }

    /// Whether the settings describe an image that can be drawn: a positive
    /// height with room for a cell inside the padding, a positive width if
    /// one is asked for (and something to rescale then), and sizes that the
    /// image buffers and the resampler can hold.
    pub open spec fn valid_config(&self) -> bool {
        let span = if self.output_width() > self.native_width() {
            self.output_width()
        } else {
            self.native_width()
        };
        &&& self.height > 0
        &&& 2 * self.pad < self.height
        &&& self.width matches Some(w) ==> w > 0 && self.native_width() > 0
        &&& self.native_width() <= u32::MAX
        &&& self.output_width() <= u32::MAX
        &&& self.height <= u32::MAX
        &&& 4 * (span + 8) * self.height <= usize::MAX
    }

    /// Whether the glyph table covers every character of the text.
    pub open spec fn all_supported(&self) -> bool {
        forall|i: int| 0 <= i < self.text@.len() ==> supported(#[trigger] self.text@[i])
    }

    /// Built: the settings are valid, every character has a glyph, and the
    /// native size has been worked out from the current settings.
    pub open spec fn wf(&self) -> bool {
        &&& self.valid_config()
        &&& self.all_supported()
        &&& self.native_size == Some((self.native_width() as usize, self.height))
    }

    /// The native canvas after the first `k` glyphs have been stamped onto a
    /// white background, glyph `i` with its upper left corner at
    /// (`pad + cell * i`, `pad`).
    pub open spec fn stamped(&self, k: nat) -> Seq<u8>
        decreases k,
    {
        if k == 0 {
            Seq::new((self.native_width() * self.height) as nat, |i: int| 255u8)
        } else {
            overlaid(
                self.stamped((k - 1) as nat),
                self.native_width() as nat,
                glyph_image(self.text@[k - 1], self.cell() as nat),
                self.cell() as nat,
                self.cell() as nat,
                (self.pad + self.cell() * (k - 1)) as nat,
                self.pad as nat,
            )
        }
    }

    /// The finished image: every glyph stamped, then the canvas rescaled to
    /// the output width and the configured height.
    pub open spec fn rendered(&self) -> Seq<u8> {
        nearest_resized(
            self.stamped(self.text@.len()),
            self.native_width() as nat,
            self.height as nat,
            self.output_width() as nat,
            self.height as nat,
        )
    }

    /// Settings for `text` at height `h`, with a padding of 3, no explicit
    /// width and a blur of zero.
    pub fn new(h: usize, text: &str) -> (r: Canvas)
        ensures
            r.text@ == text@,
            r.height == h,
            r.pad == 3,
            r.native_size is None,
            r.width is None,
            r.blur == Some(0u32),
    {
        let mut c = Canvas::default();
        c.height = h;
        c.text = chars_of(text);
        c
    }

    /// Sets the padding on all four sides.
    pub fn pad(&mut self, pad: usize) -> (r: &mut Self)
        ensures
            *r == (Canvas { pad, native_size: None, ..*old(self) }),
            *final(self) == *final(r),
    {
        self.pad = pad;
        self.native_size = None;
        self
    }

    /// Sets the standard deviation of the final Gaussian blur, in thousandths
    /// of a pixel. The blur comes after all sizing, so a native size already
    /// worked out stays valid.
    pub fn blur(&mut self, sigma_milli: u32) -> (r: &mut Self)
        ensures
            *r == (Canvas { blur: Some(sigma_milli), ..*old(self) }),
            *final(self) == *final(r),
    {
        self.blur = Some(sigma_milli);
        self
    }

    /// Asks for the finished image to be rescaled to `width` pixels.
    pub fn width(&mut self, width: usize) -> (r: &mut Self)
        ensures
            *r == (Canvas { width: Some(width), native_size: None, ..*old(self) }),
            *final(self) == *final(r),
    {
        self.width = Some(width);
        self.native_size = None;
        self
    }

    /// Replaces the text.
    pub fn text(&mut self, text: &str) -> (r: &mut Self)
        ensures
            r.text@ == text@,
            r.pad == old(self).pad,
            r.height == old(self).height,
            r.width == old(self).width,
            r.blur == old(self).blur,
            r.native_size is None,
            *final(self) == *final(r),
    {
        self.text = chars_of(text);
        self.native_size = None;
        self
    }

    /// Checks the settings and works out the native size: `2 * pad + cell *
    /// len` wide and `height` high, with square cells of side `height - 2 *
    /// pad`. Fails with `InvalidConfiguration` for settings that describe no
    /// drawable image, and otherwise with `UnsupportedCharacter` for the first
    /// character without a glyph. On success `self` keeps the native size too.
    pub fn build(&mut self) -> (r: Result<Canvas, RenderError>)
        ensures
            r is Ok <==> old(self).valid_config() && old(self).all_supported(),
            !old(self).valid_config() ==> r == Err::<Canvas, RenderError>(
                RenderError::InvalidConfiguration,
            ),
            old(self).valid_config() && !old(self).all_supported() ==> exists|i: int|
                0 <= i < old(self).text@.len() && !supported(old(self).text@[i]) && (forall|j: int|
                    0 <= j < i ==> supported(#[trigger] old(self).text@[j])) && r == Err::<
                    Canvas,
                    RenderError,
                >(RenderError::UnsupportedCharacter(old(self).text@[i])),
            r matches Ok(b) ==> b.wf() && b.text@ == old(self).text@ && b.pad == old(self).pad
                && b.height == old(self).height && b.width == old(self).width && b.blur == old(
                self,
            ).blur,
            r matches Ok(b) ==> b.native_size == Some(
                ((2 * b.pad + (b.height - 2 * b.pad) * b.text@.len()) as usize, b.height),
            ),
            r is Ok ==> *final(self) == (Canvas {
                native_size: Some((old(self).native_width() as usize, old(self).height)),
                ..*old(self)
            }),
            r is Err ==> *final(self) == *old(self),
    {
        if self.height == 0 || self.pad >= self.height / 2 + self.height % 2 {
            return Err(RenderError::InvalidConfiguration);
        }
        assert(2 * self.pad < self.height);
        let cell = self.height - 2 * self.pad;
        let len = self.text.len();
        if len > 0 && cell > (u32::MAX as usize) / len {
            proof {
                assert(cell * len > u32::MAX) by (nonlinear_arith)
                    requires
                        len > 0,
                        cell > (u32::MAX as int) / (len as int),
                ;
            }
            return Err(RenderError::InvalidConfiguration);
        }
        proof {
            if len > 0 {
                assert(cell * len <= u32::MAX) by (nonlinear_arith)
                    requires
                        len > 0,
                        cell <= (u32::MAX as int) / (len as int),
                ;
            } else {
                assert(cell * len == 0) by (nonlinear_arith)
                    requires
                        len == 0,
                ;
            }
        }
        let glyphs = cell * len;
        if 2 * self.pad > (u32::MAX as usize) - glyphs {
            return Err(RenderError::InvalidConfiguration);
        }
        let native_w = 2 * self.pad + glyphs;
        let out_w = match self.width {
            Some(w) => {
                if w == 0 || native_w == 0 {
                    return Err(RenderError::InvalidConfiguration);
                }
                w
            },
            None => native_w,
        };
        if out_w > u32::MAX as usize || self.height > u32::MAX as usize {
            return Err(RenderError::InvalidConfiguration);
        }
        let span = if out_w > native_w {
            out_w
        } else {
            native_w
        };
        if span > usize::MAX - 8 || self.height > usize::MAX / 4 / (span + 8) {
            proof {
                assert(4 * (span + 8) * self.height > usize::MAX) by (nonlinear_arith)
                    requires
                        self.height > 0,
                        span + 8 > usize::MAX || self.height > (usize::MAX as int) / 4 / (span
                            + 8) as int,
                ;
            }
            return Err(RenderError::InvalidConfiguration);
        }
        proof {
            assert(4 * (span + 8) * self.height <= usize::MAX) by (nonlinear_arith)
                requires
                    span + 8 > 0,
                    self.height <= (usize::MAX as int) / 4 / (span + 8) as int,
            ;
        }
        assert(self.valid_config());
        let mut i: usize = 0;
        while i < len
            invariant
                len == self.text@.len(),
                self.valid_config(),
                i <= len,
                forall|j: int| 0 <= j < i ==> supported(#[trigger] self.text@[j]),
            decreases len - i,
        {
            let c = self.text[i];
            if get_char_bytes(c).is_none() {
                assert(!supported(self.text@[i as int]));
                return Err(RenderError::UnsupportedCharacter(c));
            }
            i = i + 1;
        }
        self.native_size = Some((native_w, self.height));
        Ok(
            Canvas {
                text: self.text.clone(),
                pad: self.pad,
                height: self.height,
                native_size: self.native_size,
                width: self.width,
                blur: self.blur,
            },
        )
    }

    /// Draws the text: a white native canvas with each glyph, rescaled to
    /// its cell, copied in at its place, then the whole canvas rescaled once
    /// to the output width and the configured height. Every pixel of the
    /// result is black or white.
    pub fn generate_image(&self) -> (r: Raster)
        requires
            self.wf(),
        ensures
            r.wf(),
            r.width == self.output_width(),
            r.height == self.height,
            r.pixels@ == self.rendered(),
            self.output_width() == self.native_width() ==> r.pixels@ == self.stamped(
                self.text@.len(),
            ),
            two_tone(r.pixels@),
    {
        let (w, h) = match self.native_size {
            Some(size) => size,
            None => (0, 0),
        };
        proof {
            self.lemma_sizes();
        }
        let mut canv = Raster::filled(w, h, 255);
        self.overlay_text(&mut canv);
        let out_w = self.get_width();
        let r = canv.resize_exact(out_w, h);
        assert forall|i: int| 0 <= i < r.pixels@.len() implies #[trigger] r.pixels@[i] == 0
            || r.pixels@[i] == 255 by {
            let j = choose|j: int| 0 <= j < canv.pixels@.len() && r.pixels@[i] == canv.pixels@[j];
            assert(canv.pixels@[j] == 0 || canv.pixels@[j] == 255);
        }
        r
    }

    /// Stamps each glyph, rescaled to a cell, onto the white native canvas
    /// `image`: glyph `i` with its upper left corner at (`pad + cell * i`,
    /// `pad`).
    fn overlay_text(&self, image: &mut Raster)
        requires
            self.wf(),
            old(image).wf(),
            old(image).width == self.native_width(),
            old(image).height == self.height,
            old(image).pixels@ == self.stamped(0),
        ensures
            final(image).wf(),
            final(image).width == old(image).width,
            final(image).height == old(image).height,
            final(image).pixels@ == self.stamped(self.text@.len()),
            two_tone(old(image).pixels@) ==> two_tone(final(image).pixels@),
    {
        let ghost start_two_tone = two_tone(image.pixels@);
        let pad = self.pad;
        let cell = self.height - 2 * pad;
        let len = self.text.len();
        let mut i: usize = 0;
        while i < len
            invariant
                self.wf(),
                pad == self.pad,
                cell == self.cell(),
                len == self.text@.len(),
                i <= len,
                image.wf(),
                image.width == self.native_width(),
                image.height == self.height,
                image.pixels@ == self.stamped(i as nat),
                start_two_tone ==> two_tone(image.pixels@),
            decreases len - i,
        {
            proof {
                self.lemma_cell_fits(i as int);
            }
            let c = self.text[i];
            let glyph = Character::new(c);
            assert(supported(c));
            if let Ok(glyph) = glyph {
                let img = glyph.generate_image(cell);
                proof {
                    if start_two_tone {
                        lemma_overlaid_two_tone(
                            image.pixels@,
                            image.width as nat,
                            img.pixels@,
                            cell as nat,
                            cell as nat,
                            (pad + cell * i) as nat,
                            pad as nat,
                        );
                    }
                }
                image.overlay(&img, pad + cell * i, pad);
            }
            i = i + 1;
        }
    }

    /// The sizes that drawing a built canvas allocates and resamples fit.
    proof fn lemma_sizes(&self)
        requires
            self.wf(),
        ensures
            self.native_width() * self.height <= usize::MAX,
            resizable(
                self.native_width() as nat,
                self.height as nat,
                self.output_width() as nat,
                self.height as nat,
            ),
    {
        let w = self.native_width();
        let o = self.output_width();
        let h = self.height as int;
        let span = if o > w {
            o
        } else {
            w
        };
        assert(self.cell() * self.text@.len() >= 0) by (nonlinear_arith)
            requires
                self.cell() > 0,
        ;
        assert(w * h <= usize::MAX && o * h <= usize::MAX && 4 * w * h <= usize::MAX)
            by (nonlinear_arith)
            requires
                0 <= w <= span,
                0 <= o <= span,
                h > 0,
                4 * (span + 8) * h <= usize::MAX,
        ;
    }

    /// Glyph `i` of a built canvas fits in its cell: its left edge is a
    /// `usize`, and its rescaling from 8×8 stays within the resampler's limits.
    proof fn lemma_cell_fits(&self, i: int)
        requires
            self.wf(),
            0 <= i < self.text@.len(),
        ensures
            self.pad + self.cell() * i <= self.native_width(),
            resizable(8, 8, self.cell() as nat, self.cell() as nat),
    {
        let w = self.native_width();
        let o = self.output_width();
        let h = self.height as int;
        let c = self.cell();
        let n = self.text@.len() as int;
        let span = if o > w {
            o
        } else {
            w
        };
        assert(c * i + c <= c * n && c <= c * n) by (nonlinear_arith)
            requires
                c > 0,
                0 <= i < n,
        ;
        assert(c * c <= usize::MAX && 4 * 8 * c <= usize::MAX) by (nonlinear_arith)
            requires
                0 < c <= w,
                w <= span,
                c <= h,
                4 * (span + 8) * h <= usize::MAX,
        ;
    }

    /// Width of the finished image: the one asked for, or else the native
    /// width worked out by `build`.
    pub fn get_width(&self) -> (r: usize)
        requires
            self.native_size is Some,
        ensures
            r == match self.width {
                Some(w) => w,
                None => (self.native_size->0).0,
            },
    {
        match self.width {
            Some(w) => w,
            None => self.native_size.unwrap().0,
        }
    }

    /// The blur to apply to the finished image, in thousandths of a pixel: none
    /// where no blur or a blur of zero was asked for, since a zero blur leaves
    /// every pixel as it is.
    pub fn blur_sigma(&self) -> (r: Option<u32>)
        ensures
            r == (if self.blur matches Some(s) && s > 0 {
                self.blur
            } else {
                None
            }),
            self.blur == Some(0u32) ==> r is None,
    {
        match self.blur {
            Some(s) => if s > 0 {
                Some(s)
            } else {
                None
            },
            None => None,
        }
    }
}

/// The layout of a built canvas before rescaling: inside the band between
/// the top and bottom padding, the pixel at column `x` belongs to the glyph of
/// character `(x - pad) / cell`, rescaled to its cell; every other pixel is
/// white.
pub proof fn lemma_layout(c: &Canvas, x: int, y: int)
    requires
        c.wf(),
        0 <= x < c.native_width(),
        0 <= y < c.height,
    ensures
        c.stamped(c.text@.len()).len() == c.native_width() * c.height,
        c.stamped(c.text@.len())[y * c.native_width() + x] == (if c.pad <= y < c.pad + c.cell()
            && c.pad <= x < c.pad + c.cell() * c.text@.len() {
            glyph_image(c.text@[(x - c.pad) / c.cell()], c.cell() as nat)[(y - c.pad) * c.cell()
                + (x - c.pad) % c.cell()]
        } else {
            255u8
        }),
{
    lemma_stamped_prefix(c, c.text@.len(), x, y);
}

/// `lemma_layout` for the canvas after its first `k` glyphs.
proof fn lemma_stamped_prefix(c: &Canvas, k: nat, x: int, y: int)
    requires
        c.wf(),
        k <= c.text@.len(),
        0 <= x < c.native_width(),
        0 <= y < c.height,
    ensures
        c.stamped(k).len() == c.native_width() * c.height,
        c.stamped(k)[y * c.native_width() + x] == (if c.pad <= y < c.pad + c.cell() && c.pad <= x
            < c.pad + c.cell() * k {
            glyph_image(c.text@[(x - c.pad) / c.cell()], c.cell() as nat)[(y - c.pad) * c.cell()
                + (x - c.pad) % c.cell()]
        } else {
            255u8
        }),
    decreases k,
{
    let w = c.native_width();
    let h = c.height as int;
    let cell = c.cell();
    let pad = c.pad as int;
    let i = y * w + x;
    assert(0 <= y * w + x < w * h && 0 <= y * w) by (nonlinear_arith)
        requires
            0 <= x < w,
            0 <= y < h,
    ;
    assert(w * h >= 0) by (nonlinear_arith)
        requires
            w >= 0,
            h >= 0,
    ;
    if k > 0 {
        let j = (k - 1) as int;
        lemma_stamped_prefix(c, (k - 1) as nat, x, y);
        lemma_fundamental_div_mod_converse(i, w, y, x);
        assert(cell * k == cell * j + cell) by (nonlinear_arith)
            requires
                j == k - 1,
        ;
        if pad + cell * j <= x < pad + cell * k {
            lemma_fundamental_div_mod_converse(x - pad, cell, j, x - pad - cell * j);
        }
        assert(cell * j >= 0) by (nonlinear_arith)
            requires
                cell > 0,
                j >= 0,
        ;
        let g = glyph_image(c.text@[j], cell as nat);
        let prev = c.stamped(j as nat);
        assert(c.stamped(k) == overlaid(
            prev,
            w as nat,
            g,
            cell as nat,
            cell as nat,
            (pad + cell * j) as nat,
            pad as nat,
        ));
        assert(i % w == x && i / w == y);
        if pad <= y < pad + cell && pad + cell * j <= x < pad + cell * k {
            assert((x - pad) / cell == j);
            assert(c.stamped(k)[i] == g[(y - pad) * cell + (x - pad - cell * j)]);
        } else {
            assert(c.stamped(k)[i] == prev[i]);
        }
    } else {
        assert(cell * k == 0) by (nonlinear_arith)
            requires
                k == 0,
        ;
    }
}

impl Default for Canvas {
    fn default() -> (r: Canvas)
        ensures
            r.text@.len() == 0,
            r.pad == 3,
            r.height == 100,
            r.native_size is None,
            r.width is None,
            r.blur == Some(0u32),
    {
        Canvas {
            text: Vec::new(),
            pad: 3,
            height: 100,
            native_size: None,
            width: None,
            blur: Some(0),
        }
    }
}

} // verus!
