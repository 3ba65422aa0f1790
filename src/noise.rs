use crate::error::RenderError;
use crate::raster::Raster;
use vstd::prelude::*;

verus! {

/// `val` limited to the range from `min` to `max`.
pub open spec fn clamped(val: int, min: int, max: int) -> int {
    if val < min {
        min
    } else if val > max {
        max
    } else {
        val
    }
}

/// The byte that a noise sample becomes, given as the sample scaled to
/// `255 * (v / 2 + 1 / 2)` and truncated toward zero: values below 0 become
/// 0, values above 255 become 255.
pub open spec fn quantized(scaled: int) -> u8 {
    clamped(scaled, 0, 255) as u8
}

/// The difference of two intensities, without sign.
pub open spec fn abs_diff(a: u8, b: u8) -> u8 {
    if a >= b {
        (a - b) as u8
    } else {
        (b - a) as u8
    }
}

/// Each pixel of `image` replaced by its distance from the noise sample at
/// the same place.
pub open spec fn blended(image: Seq<u8>, noise: Seq<u8>) -> Seq<u8> {
    Seq::new(image.len(), |i: int| abs_diff(image[i], noise[i]))
}

/// `val` limited to the range from `min` to `max`.
pub fn clamp(val: i64, min: i64, max: i64) -> (r: i64)
    requires
        max >= min,
    ensures
        r == clamped(val as int, min as int, max as int),
{
    if val < min {
        min
    } else if val > max {
        max
    } else {
        val
    }
}

/// The byte for one scaled noise sample (see `quantized`).
pub fn quantize(scaled: i64) -> (r: u8)
    ensures
        r == quantized(scaled as int),
{
    clamp(scaled, 0, 255) as u8
}

/// A `width`×`height` field of noise intensities, read one sample at a time
/// in row-major order.
pub struct Noise {
    pub width: usize,
    pub height: usize,
    pub samples: Vec<u8>,
    pub pos: usize,
}

impl Noise {
    /// The field is either not generated yet (no samples) or holds one sample
    /// per pixel, and the cursor lies within it.
    pub open spec fn wf(&self) -> bool {
        &&& self.samples@.len() == 0 || self.samples@.len() == self.width * self.height
        &&& self.pos <= self.samples@.len()
    }

    /// The samples that `next` has still to hand out.
    pub open spec fn remaining(&self) -> Seq<u8> {
        self.samples@.skip(self.pos as int)
    }

    /// A field of the given size with no samples yet.
    pub fn new(w: usize, h: usize) -> (r: Noise)
        ensures
            r.wf(),
            r.width == w,
            r.height == h,
            r.samples@.len() == 0,
            r.pos == 0,
    {
        Noise { width: w, height: h, samples: Vec::new(), pos: 0 }
    }

    /// Fills the field from its scaled raw samples, row by row, and puts the
    /// cursor back at the first one.
    pub fn generate(&mut self, field: &Vec<i64>)
        requires
            field@.len() == old(self).width * old(self).height,
        ensures
            final(self).wf(),
            final(self).width == old(self).width,
            final(self).height == old(self).height,
            final(self).samples@ == field@.map_values(|v: i64| quantized(v as int)),
            final(self).pos == 0,
    {
        let mut samples: Vec<u8> = Vec::with_capacity(field.len());
        let mut i: usize = 0;
        while i < field.len()
            invariant
                i <= field@.len(),
                samples@ == field@.take(i as int).map_values(|v: i64| quantized(v as int)),
            decreases field@.len() - i,
        {
            samples.push(quantize(field[i]));
            assert(field@.take(i + 1) =~= field@.take(i as int).push(field@[i as int]));
            assert(samples@ =~= field@.take(i + 1).map_values(|v: i64| quantized(v as int)));
            i = i + 1;
        }
        assert(field@.take(field@.len() as int) =~= field@);
        self.samples = samples;
        self.pos = 0;
    }

    /// The next sample in row-major order, or `None` once all have been
    /// handed out (and always before the field is generated).
    pub fn next(&mut self) -> (r: Option<u8>)
        requires
            old(self).wf(),
        ensures
            final(self).wf(),
            final(self).width == old(self).width,
            final(self).height == old(self).height,
            final(self).samples@ == old(self).samples@,
            old(self).remaining().len() > 0 ==> r == Some(old(self).remaining()[0]),
            old(self).remaining().len() > 0 ==> final(self).remaining() == old(
                self,
            ).remaining().drop_first(),
            old(self).remaining().len() == 0 ==> r is None && final(self).pos == old(self).pos,
    {
        if self.pos < self.samples.len() {
            let v = self.samples[self.pos];
            self.pos = self.pos + 1;
            assert(final(self).remaining() =~= old(self).remaining().drop_first());
            Some(v)
        } else {
            None
        }
    }

    /// Hands out every sample that `next` has still to give, in order.
    pub fn take_remaining(&mut self) -> (r: Vec<u8>)
        requires
            old(self).wf(),
        ensures
            final(self).wf(),
            r@ == old(self).remaining(),
            final(self).remaining().len() == 0,
            final(self).samples@ == old(self).samples@,
    {
        let mut out: Vec<u8> = Vec::new();
        let ghost start = self.remaining();
        loop
            invariant
                self.wf(),
                self.samples@ == old(self).samples@,
                start == old(self).remaining(),
                start == out@ + self.remaining(),
            decreases self.remaining().len(),
        {
            match self.next() {
                Some(v) => {
                    out.push(v);
                },
                None => {
                    assert(out@ =~= start);
                    return out;
                },
            }
        }
    }
}

/// Combines an image with a noise field of the same shape: each pixel
/// becomes the absolute difference of its intensity and the noise sample at
/// the same place. Fails with `DimensionMismatch`, and produces nothing, when
/// the field has another width or height or has not been generated.
pub fn blend(image: &Raster, noise: &Noise) -> (r: Result<Raster, RenderError>)
    requires
        image.wf(),
    ensures
        r is Err <==> noise.width != image.width || noise.height != image.height
            || noise.samples@.len() != image.pixels@.len(),
        r is Err ==> r == Err::<Raster, RenderError>(RenderError::DimensionMismatch),
        r matches Ok(out) ==> out.wf() && out.width == image.width && out.height == image.height
            && out.pixels@ == blended(image.pixels@, noise.samples@),
{
    if noise.width != image.width || noise.height != image.height || noise.samples.len()
        != image.pixels.len() {
        return Err(RenderError::DimensionMismatch);
    }
    let n = image.pixels.len();
    let mut pixels: Vec<u8> = Vec::with_capacity(n);
    let mut i: usize = 0;
    while i < n
        invariant
            n == image.pixels@.len(),
            n == noise.samples@.len(),
            i <= n,
            pixels@ == blended(image.pixels@, noise.samples@).take(i as int),
        decreases n - i,
    {
        let d: i16 = image.pixels[i] as i16 - noise.samples[i] as i16;
        let m: i16 = if d < 0 {
            -d
        } else {
            d
        };
        pixels.push(m as u8);
        assert(pixels@ =~= blended(image.pixels@, noise.samples@).take(i + 1));
        i = i + 1;
    }
    assert(pixels@ =~= blended(image.pixels@, noise.samples@));
    Ok(Raster { width: image.width, height: image.height, pixels })
}

/// Blending with a field whose samples are all zero leaves the image as it
/// was.
pub proof fn lemma_blend_zero_noise(image: Seq<u8>, noise: Seq<u8>)
    requires
        noise.len() == image.len(),
        forall|i: int| 0 <= i < noise.len() ==> #[trigger] noise[i] == 0,
    ensures
        blended(image, noise) == image,
{
    assert(blended(image, noise) =~= image);
}

/// An image blended with a freshly generated field of its own shape whose
/// sequence hands out only zeros comes back unchanged, so blending it with
/// that field again changes nothing either.
pub proof fn lemma_blend_zero_field(image: &Raster, n: &Noise)
    requires
        image.wf(),
        n.wf(),
        n.pos == 0,
        n.width == image.width,
        n.height == image.height,
        n.samples@.len() == image.pixels@.len(),
        forall|i: int| 0 <= i < n.remaining().len() ==> #[trigger] n.remaining()[i] == 0,
    ensures
        blended(image.pixels@, n.samples@) == image.pixels@,
        blended(blended(image.pixels@, n.samples@), n.samples@) == image.pixels@,
{
    assert(n.remaining() =~= n.samples@);
    lemma_blend_zero_noise(image.pixels@, n.samples@);
}

/// Once a `width`×`height` field has been generated, its sequence holds
/// exactly `width * height` samples, each a byte, and a field that has not
/// been generated holds none.
pub proof fn lemma_sequence_length(n: Noise, field: Seq<i64>)
    requires
        n.wf(),
        field.len() == n.width * n.height,
        n.samples@ == field.map_values(|v: i64| quantized(v as int)),
        n.pos == 0,
    ensures
        n.remaining().len() == n.width * n.height,
        forall|i: int|
            0 <= i < n.remaining().len() ==> 0 <= #[trigger] n.remaining()[i] <= 255
                && n.remaining()[i] == quantized(field[i] as int),
{
    assert(n.remaining() =~= n.samples@);
}

} // verus!
