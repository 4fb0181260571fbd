//! RGB565 pixel packing and the display framebuffer.
//!
//! The display is 240x240 pixels; each pixel is a packed 16-bit 5-6-5 color
//! word.  The controller consumes the buffer as a byte stream, high byte of
//! each pixel first, so byte `2*i` of the stream is the high byte of pixel `i`
//! and byte `2*i + 1` is its low byte.

use vstd::prelude::*;

verus! {

/// Display width in pixels.
pub const TFT_WIDTH: usize = 240;

/// Display height in pixels.
pub const TFT_HEIGHT: usize = 240;

/// Number of pixels in one full frame.
pub const TFT_PIXELS: usize = 240 * 240;

/// Number of bytes in one full frame: two per pixel.
pub const TFT_BYTES: usize = 240 * 240 * 2;

/// The packed bits for red `r`, green `g`, blue `b`: red in the top 5 bits,
/// green in the middle 6, blue in the low 5.
pub open spec fn rgb565_bits(r: u16, g: u16, b: u16) -> u16 {
    (r << 11) | (g << 5) | b
}

/// The red component, zero-extended, of a packed RGB565 word.
pub open spec fn red_of(bits: u16) -> u16 {
    (bits & 0xf800) >> 11
}

/// The green component, zero-extended, of a packed RGB565 word.
pub open spec fn green_of(bits: u16) -> u16 {
    (bits & 0x07e0) >> 5
}

/// The blue component, zero-extended, of a packed RGB565 word.
pub open spec fn blue_of(bits: u16) -> u16 {
    bits & 0x001f
}

/// One display pixel: a packed 16-bit RGB565 color word.
#[derive(Clone, Copy, PartialEq, Eq, Structural, Debug)]
pub struct Pixel(pub u16);

impl Default for Pixel {
    /// The all-black pixel.
    fn default() -> (p: Pixel)
        ensures
            p.0 == 0,
    {
        Pixel(0)
    }
}

impl Pixel {
    /// Packs in-range components into one RGB565 word.
    pub fn new(r: u16, g: u16, b: u16) -> (p: Pixel)
        requires
            r < 32,
            g < 64,
            b < 32,
        ensures
            p.0 == rgb565_bits(r, g, b),
            red_of(p.0) == r,
            green_of(p.0) == g,
            blue_of(p.0) == b,
    {
        proof {
            lemma_rgb565_roundtrip(r, g, b);
        }
        Pixel((r << 11) | (g << 5) | b)
    }

    /// Packs full 8-bit components, keeping their top 5, 6 and 5 bits.
    pub fn from_bytes(r: u8, g: u8, b: u8) -> (p: Pixel)
        ensures
            p.0 == rgb565_bits((r >> 3) as u16, (g >> 2) as u16, (b >> 3) as u16),
            red_of(p.0) == r >> 3,
            green_of(p.0) == g >> 2,
            blue_of(p.0) == b >> 3,
    {
        assert((r >> 3) < 32 && (g >> 2) < 64 && (b >> 3) < 32) by (bit_vector);
        let p = Pixel::new((r >> 3) as u16, (g >> 2) as u16, (b >> 3) as u16);
        assert((r >> 3) as u16 == r >> 3 && (g >> 2) as u16 == g >> 2 && (b >> 3) as u16 == b
            >> 3) by (bit_vector);
        p
    }

    /// The red component, in `[0, 31]`.
    pub fn r(&self) -> (r: u16)
        ensures
            r == red_of(self.0),
            r < 32,
    {
        proof {
            lemma_rgb565_components_in_range(self.0);
        }
        (self.0 & 0xf800) >> 11
    }

    /// The green component, in `[0, 63]`.
    pub fn g(&self) -> (g: u16)
        ensures
            g == green_of(self.0),
            g < 64,
    {
        proof {
            lemma_rgb565_components_in_range(self.0);
        }
        (self.0 & 0x07e0) >> 5
    }

    /// The blue component, in `[0, 31]`.
    pub fn b(&self) -> (b: u16)
        ensures
            b == blue_of(self.0),
            b < 32,
    {
        proof {
            lemma_rgb565_components_in_range(self.0);
        }
        self.0 & 0x001f
    }
}

/// Pixel round-trip: packing components that respect the 5-6-5 ranges and
/// unpacking the word yields the same triple.
pub proof fn lemma_rgb565_roundtrip(r: u16, g: u16, b: u16)
    requires
        r < 32,
        g < 64,
        b < 32,
    ensures
        red_of(rgb565_bits(r, g, b)) == r,
        green_of(rgb565_bits(r, g, b)) == g,
        blue_of(rgb565_bits(r, g, b)) == b,
{
    assert(((((r << 11) | (g << 5) | b) & 0xf800) >> 11) == r && ((((r << 11) | (g << 5) | b)
        & 0x07e0) >> 5) == g && ((((r << 11) | (g << 5) | b) & 0x001f) == b)) by (bit_vector)
        requires
            r < 32,
            g < 64,
            b < 32,
    ;
}

/// The high byte of a pixel word: the byte the display expects first.
pub open spec fn hi_byte(w: u16) -> u8 {
    ((w >> 8) & 0xff) as u8
}

/// The low byte of a pixel word: the byte the display expects second.
pub open spec fn lo_byte(w: u16) -> u8 {
    (w & 0xff) as u8
}

/// The byte stream the display controller expects for the pixel words
/// `words`: byte `2*i` is the high byte of word `i`, byte `2*i + 1` its low
/// byte.
pub open spec fn byte_stream(words: Seq<u16>) -> Seq<u8> {
    Seq::new(
        words.len() * 2,
        |j: int|
            if j % 2 == 0 {
                hi_byte(words[j / 2])
            } else {
                lo_byte(words[j / 2])
            },
    )
}

/// The pixel word both bytes of which hold `val`.
pub open spec fn fill_word(val: u8) -> u16 {
    ((val as u16) << 8) | (val as u16)
}

/// Both bytes of `fill_word(val)` are `val`.
pub proof fn lemma_fill_word_bytes(val: u8)
    ensures
        hi_byte(fill_word(val)) == val,
        lo_byte(fill_word(val)) == val,
{
    assert(((((val as u16) << 8) | (val as u16)) >> 8) & 0xff == val && (((val as u16) << 8) | (
    val as u16)) & 0xff == val) by (bit_vector);
}

/// The frame buffer: exactly 240*240 packed pixels in row-major order,
/// top-left first.  The display consumes it as the byte stream
/// [`byte_stream`]; on the target the storage is handed to the DMA engine
/// unchanged.
pub struct PixelBuf {
    words: Vec<u16>,
}

impl View for PixelBuf {
    type V = Seq<u16>;

    closed spec fn view(&self) -> Seq<u16> {
        self.words@
    }
}

impl PixelBuf {
    /// The buffer holds one full frame.
    pub open spec fn wf(&self) -> bool {
        self@.len() == TFT_PIXELS
    }
}

impl Default for PixelBuf {
    /// A zero-filled (all-black) frame.
    fn default() -> (buf: PixelBuf)
        ensures
            buf.wf(),
            forall|i: int| 0 <= i < TFT_PIXELS ==> buf@[i] == 0,
    {
        let mut words: Vec<u16> = Vec::new();
        let mut i: usize = 0;
        while i < TFT_PIXELS
            invariant
                i <= TFT_PIXELS,
                words@.len() == i,
                forall|k: int| 0 <= k < i ==> words@[k] == 0,
            decreases TFT_PIXELS - i,
        {
            words.push(0);
            i = i + 1;
        }
        PixelBuf { words }
    }
}

impl PixelBuf {
    /// The pixel at column `x`, row `y`; pixel `i` of the frame is at row
    /// `i / 240`, column `i % 240`.
    pub fn pixel(&self, x: usize, y: usize) -> (p: Pixel)
        requires
            self.wf(),
            x < TFT_WIDTH,
            y < TFT_HEIGHT,
        ensures
            p.0 == self@[y * TFT_WIDTH + x],
    {
        Pixel(self.words[y * TFT_WIDTH + x])
    }

    /// Overwrites the pixel at column `x`, row `y`.
    pub fn set_pixel(&mut self, x: usize, y: usize, p: Pixel)
        requires
            old(self).wf(),
            x < TFT_WIDTH,
            y < TFT_HEIGHT,
        ensures
            final(self).wf(),
            final(self)@ == old(self)@.update((y * TFT_WIDTH + x) as int, p.0),
    {
        self.words[y * TFT_WIDTH + x] = p.0;
    }

    /// The 16-bit-word view of the frame: no copy, the pixel storage itself.
    pub fn as_u16(&self) -> (words: &Vec<u16>)
        ensures
            words@ == self@,
    {
        &self.words
    }

    /// The mutable 16-bit-word view of the frame: no copy, the pixel storage
    /// itself.  Callers that change its length leave the buffer short of a
    /// frame and outside [`PixelBuf::wf`].
    pub fn as_u16_mut(&mut self) -> (words: &mut Vec<u16>)
        ensures
            (*words)@ == old(self)@,
            final(self)@ == (*final(words))@,
    {
        &mut self.words
    }

    /// The byte stream for the display: 115 200 bytes, the high byte of each
    /// pixel first.  On the host the stream is materialized; on the target the
    /// same bytes are what the DMA engine reads out of the pixel storage.
    pub fn as_u8(&self) -> (bytes: Vec<u8>)
        requires
            self.wf(),
        ensures
            bytes@ == byte_stream(self@),
            bytes@.len() == TFT_BYTES,
            forall|i: int|
                0 <= i < TFT_PIXELS ==> bytes@[2 * i] == hi_byte(#[trigger] self@[i]) && bytes@[2
                    * i + 1] == lo_byte(self@[i]),
    {
        let mut bytes: Vec<u8> = Vec::new();
        let mut i: usize = 0;
        while i < TFT_PIXELS
            invariant
                self.wf(),
                i <= TFT_PIXELS,
                bytes@.len() == 2 * i,
                forall|k: int|
                    0 <= k < i ==> bytes@[2 * k] == hi_byte(#[trigger] self@[k]) && bytes@[2 * k
                        + 1] == lo_byte(self@[k]),
            decreases TFT_PIXELS - i,
        {
            let w = self.words[i];
            assert((w >> 8) as u8 == ((w >> 8) & 0xff) as u8) by (bit_vector);
            bytes.push((w >> 8) as u8);
            bytes.push((w & 0xff) as u8);
            i = i + 1;
        }
        proof {
            assert forall|j: int| 0 <= j < bytes@.len() implies bytes@[j] == byte_stream(self@)[j] by {
                let k = j / 2;
                if j % 2 == 0 {
                    assert(j == 2 * k);
                } else {
                    assert(j == 2 * k + 1);
                }
            }
            assert(bytes@ =~= byte_stream(self@));
        }
        bytes
    }

    /// Overwrites byte `i` of the display stream in place: the high half of
    /// pixel word `i / 2` for even `i`, the low half for odd `i`.  Byte view
    /// and word view are one storage, so the change shows through every
    /// other view.
    pub fn set_byte(&mut self, i: usize, val: u8)
        requires
            old(self).wf(),
            i < TFT_BYTES,
        ensures
            final(self).wf(),
            byte_stream(final(self)@) == byte_stream(old(self)@).update(i as int, val),
            forall|k: int|
                0 <= k < TFT_PIXELS && k != i as int / 2 ==> final(self)@[k] == old(self)@[k],
    {
        let w = self.words[i / 2];
        let nw = if i % 2 == 0 {
            (w & 0x00ff) | ((val as u16) << 8)
        } else {
            (w & 0xff00) | (val as u16)
        };
        proof {
            assert((((w & 0x00ff) | ((val as u16) << 8)) >> 8) & 0xff == val
                && (((w & 0x00ff) | ((val as u16) << 8)) & 0xff) == (w & 0xff) && ((((w
                & 0xff00) | (val as u16)) >> 8) & 0xff) == ((w >> 8) & 0xff) && (((w & 0xff00)
                | (val as u16)) & 0xff) == val) by (bit_vector);
        }
        self.words[i / 2] = nw;
        proof {
            assert(byte_stream(self@) =~= byte_stream(old(self)@).update(i as int, val));
        }
    }

    /// Overwrites every byte of the frame with `val`: both bytes of every
    /// pixel word, hence every byte of the display stream, become `val`.
    pub fn clear(&mut self, val: u8)
        requires
            old(self).wf(),
        ensures
            final(self).wf(),
            forall|i: int| 0 <= i < TFT_PIXELS ==> final(self)@[i] == fill_word(val),
            forall|j: int| 0 <= j < TFT_BYTES ==> byte_stream(final(self)@)[j] == val,
    {
        let w = ((val as u16) << 8) | (val as u16);
        assert(w == fill_word(val));
        let mut i: usize = 0;
        while i < TFT_PIXELS
            invariant
                self@.len() == TFT_PIXELS,
                i <= TFT_PIXELS,
                w == fill_word(val),
                forall|k: int| 0 <= k < i ==> self@[k] == fill_word(val),
            decreases TFT_PIXELS - i,
        {
            self.words[i] = w;
            i = i + 1;
        }
        proof {
            lemma_fill_word_bytes(val);
            assert forall|j: int| 0 <= j < TFT_BYTES implies byte_stream(self@)[j] == val by {
                let k = j / 2;
                assert(self@[k] == fill_word(val));
            }
        }
    }
}

/// The unpacked components of any RGB565 word respect the 5-6-5 ranges.
pub proof fn lemma_rgb565_components_in_range(bits: u16)
    ensures
        red_of(bits) < 32,
        green_of(bits) < 64,
        blue_of(bits) < 32,
{
    assert(((bits & 0xf800) >> 11) < 32 && ((bits & 0x07e0) >> 5) < 64 && (bits & 0x001f)
        < 32) by (bit_vector);
}

} // verus!
