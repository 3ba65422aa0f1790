use crate::error::RenderError;
use crate::raster::{nearest_resized, resizable, two_tone, Raster};
use font8x8::UnicodeFonts;
use vstd::prelude::*;

verus! {

/// The eight row bytes, top row first, that font8x8's basic table holds for
/// `c`.
pub uninterp spec fn basic_font_rows(c: char) -> Seq<u8>;

/// Whether the glyph table has a bitmap for `c`: it covers the 128 code
/// points of ASCII.
pub open spec fn supported(c: char) -> bool {
    (c as u32) < 128
}

/// Whether bit `i` of `b` is set, counting from the least significant bit.
pub open spec fn bit_set(b: u8, i: u8) -> bool {
    (b >> i) & 1u8 == 1u8
}

/// The eight pixels that the row byte `b` stands for, left to right: ink (0)
/// where the bit is set, background (255) where it is clear. The least
/// significant bit is the leftmost pixel.
pub open spec fn row_pixels(b: u8) -> Seq<u8> {
    Seq::new(8, |i: int| if bit_set(b, i as u8) { 0u8 } else { 255u8 })
}

/// The 8×8 image, row by row, that eight row bytes stand for.
pub open spec fn glyph_bitmap(rows: Seq<u8>) -> Seq<u8> {
    Seq::new(64, |i: int| row_pixels(rows[i / 8])[i % 8])
}

/// Relies on `font8x8::unicode::BasicFonts::get`: a binary search in a table
/// of the 128 ASCII code points, sorted, each with its eight row bytes.
#[verifier::external_body]
fn basic_font_get(c: char) -> (r: Option<[u8; 8]>)
    ensures
        r is Some <==> supported(c),
        r matches Some(rows) ==> rows@ == basic_font_rows(c),
{
    font8x8::unicode::BasicFonts::new().get(c)
}

/// The row bytes of the bitmap for `c`, or `None` where the glyph table has
/// no bitmap for it.
pub fn get_char_bytes(c: char) -> (r: Option<[u8; 8]>)
    ensures
        r is Some <==> supported(c),
        r matches Some(rows) ==> rows@ == basic_font_rows(c),
{
    basic_font_get(c)
}

/// The eight pixels of the row byte `b`, least significant bit first: 0 for a
/// set bit, 255 for a clear one.
pub fn byte_to_vec(b: u8) -> (r: Vec<u8>)
    ensures
        r@ == row_pixels(b),
{
    let mut res: Vec<u8> = Vec::new();
    let mut i: u8 = 0;
    while i < 8
        invariant
            i <= 8,
            res@ == row_pixels(b).take(i as int),
        decreases 8 - i,
    {
        let set = b & (1u8 << i) > 0;
        assert(set == bit_set(b, i)) by (bit_vector)
            requires
                i < 8u8,
                set == (b & (1u8 << i) > 0u8),
        ;
        if set {
            res.push(0);
        } else {
            res.push(255);
        }
        assert(res@ =~= row_pixels(b).take(i + 1));
        i = i + 1;
    }
    assert(res@ =~= row_pixels(b));
    res
}

/// The bitmap of one character as an 8×8 image.
pub struct Character {
    pub image: Raster,
}

impl Character {
    /// An 8×8 image.
    pub open spec fn wf(&self) -> bool {
        &&& self.image.wf()
        &&& self.image.width == 8
        &&& self.image.height == 8
    }

    /// The glyph of `c`: ink pixels 0, background 255. Fails for a character
    /// that the glyph table does not cover.
    pub fn new(c: char) -> (r: Result<Character, RenderError>)
        ensures
            r is Ok <==> supported(c),
            r matches Ok(ch) ==> ch.wf() && ch.image.pixels@ == glyph_bitmap(basic_font_rows(c)),
            r matches Ok(ch) ==> two_tone(ch.image.pixels@),
            r matches Err(e) ==> e == RenderError::UnsupportedCharacter(c),
    {
        let bytes = match get_char_bytes(c) {
            Some(bytes) => bytes,
            None => {
                return Err(RenderError::UnsupportedCharacter(c));
            },
        };
        let ghost goal = glyph_bitmap(bytes@);
        let mut raw_image: Vec<u8> = Vec::new();
        let mut k: usize = 0;
        while k < 8
            invariant
                k <= 8,
                goal == glyph_bitmap(bytes@),
                raw_image@ == goal.take(8 * k as int),
            decreases 8 - k,
        {
            let row = byte_to_vec(bytes[k]);
            let mut j: usize = 0;
            while j < 8
                invariant
                    k < 8,
                    j <= 8,
                    goal == glyph_bitmap(bytes@),
                    row@ == row_pixels(bytes@[k as int]),
                    raw_image@ == goal.take(8 * k + j),
                decreases 8 - j,
            {
                assert((8 * k + j) / 8 == k && (8 * k + j) % 8 == j);
                raw_image.push(row[j]);
                assert(raw_image@ =~= goal.take(8 * k + j + 1));
                j = j + 1;
            }
            k = k + 1;
        }
        assert(raw_image@ =~= goal);
        assert forall|i: int| 0 <= i < raw_image@.len() implies #[trigger] raw_image@[i] == 0
            || raw_image@[i] == 255 by {
            assert(raw_image@[i] == row_pixels(bytes@[i / 8])[i % 8]);
        }
        Ok(Character { image: Raster { width: 8, height: 8, pixels: raw_image } })
    }

    /// The 8×8 image of this glyph.
    pub fn get_image_buffer(&self) -> (r: &Raster)
        ensures
            r == &self.image,
    {
        &self.image
    }

    /// A copy of the 8×8 image of this glyph.
    pub fn get_image(&self) -> (r: Raster)
        ensures
            r.width == self.image.width,
            r.height == self.image.height,
            r.pixels@ == self.image.pixels@,
    {
        Raster { width: self.image.width, height: self.image.height, pixels: self.image.pixels.clone() }
    }

    /// This glyph rescaled to a `height`×`height` square with nearest-neighbour
    /// sampling; at 8×8 it is the glyph itself.
    pub fn generate_image(&self, height: usize) -> (r: Raster)
        requires
            self.wf(),
            resizable(8, 8, height as nat, height as nat),
        ensures
            r.wf(),
            r.width == height,
            r.height == height,
            r.pixels@ == nearest_resized(self.image.pixels@, 8, 8, height as nat, height as nat),
            height == 8 ==> r.pixels@ == self.image.pixels@,
            two_tone(self.image.pixels@) ==> two_tone(r.pixels@),
    {
        let r = self.image.resize_exact(height, height);
        assert(two_tone(self.image.pixels@) ==> two_tone(r.pixels@)) by {
            if two_tone(self.image.pixels@) {
                assert forall|i: int| 0 <= i < r.pixels@.len() implies #[trigger] r.pixels@[i] == 0
                    || r.pixels@[i] == 255 by {
                    let j = choose|j: int|
                        0 <= j < self.image.pixels@.len() && r.pixels@[i] == self.image.pixels@[j];
                    assert(self.image.pixels@[j] == 0 || self.image.pixels@[j] == 255);
                }
            }
        }
        r
    }
}

} // verus!
