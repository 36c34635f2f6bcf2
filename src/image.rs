//! Image buffers: row-major, tightly packed, top-left origin.
use vstd::prelude::*;

use crate::sample::{lut_index, lut_index_of};
use crate::srgb::{srgb_byte, srgb_byte_of, srgb_table};

verus! {

/// Number of pixels of a `width` by `height` image.
pub open spec fn pixel_count(width: u32, height: u32) -> int {
    width as int * height as int
}

/// Computes `pixel_count(width, height)` where it fits in `usize`.
fn pixel_count_of(width: u32, height: u32) -> (r: usize)
    requires
        pixel_count(width, height) <= usize::MAX,
    ensures
        r == pixel_count(width, height),
{
    width as usize * height as usize
}

/// A colour image whose pixels read and write as 8-bit sRGB triples
/// `R G B R G B ...`.
pub struct FlipImageRgb8 {
    pub(crate) width: u32,
    pub(crate) height: u32,
    pub(crate) data: Vec<u8>,
}

impl View for FlipImageRgb8 {
    type V = Seq<u8>;

    /// The interleaved channel bytes, three per pixel.
    closed spec fn view(&self) -> Seq<u8> {
        self.data@
    }
}

impl FlipImageRgb8 {
    #[verifier::type_invariant]
    spec fn inv(&self) -> bool {
        &&& self.width > 0
        &&& self.height > 0
        &&& self.data@.len() == 3 * pixel_count(self.width, self.height)
    }

    pub closed spec fn spec_width(&self) -> u32 {
        self.width
    }

    pub closed spec fn spec_height(&self) -> u32 {
        self.height
    }

    /// Creates a `width` by `height` image with every channel zero.
    pub fn new(width: u32, height: u32) -> (r: Self)
        requires
            width > 0,
            height > 0,
            3 * pixel_count(width, height) <= usize::MAX,
        ensures
            r.width() == width,
            r.height() == height,
            r@ == Seq::new((3 * pixel_count(width, height)) as nat, |i: int| 0u8),
    {
        let n: usize = 3 * pixel_count_of(width, height);
        let data: Vec<u8> = vec![0u8; n];
        FlipImageRgb8 { width, height, data }
    }

    /// Creates a `width` by `height` image from the first `3 * width * height`
    /// bytes of `data`, read as sRGB triples.
    pub fn with_data(width: u32, height: u32, data: &[u8]) -> (r: Self)
        requires
            width > 0,
            height > 0,
            3 * pixel_count(width, height) <= usize::MAX,
            data@.len() >= 3 * pixel_count(width, height),
        ensures
            r.width() == width,
            r.height() == height,
            r@ == data@.subrange(0, 3 * pixel_count(width, height)),
    {
        let n: usize = 3 * pixel_count_of(width, height);
        let mut bytes: Vec<u8> = Vec::with_capacity(n);
        let mut i: usize = 0;
        while i < n
            invariant
                i <= n,
                n <= data@.len(),
                bytes@ == data@.subrange(0, i as int),
            decreases n - i,
        {
            bytes.push(data[i]);
            i = i + 1;
            assert(bytes@ =~= data@.subrange(0, i as int));
        }
        FlipImageRgb8 { width, height, data: bytes }
    }

    /// The channel bytes, three per pixel, row by row from the top left.
    pub fn to_vec(&self) -> (r: Vec<u8>)
        ensures
            r@ == self@,
            r@.len() == 3 * pixel_count(self.width(), self.height()),
    {
        proof {
            use_type_invariant(self);
        }
        self.data.clone()
    }

    #[verifier::when_used_as_spec(spec_width)]
    pub fn width(&self) -> (r: u32)
        ensures
            r == self.spec_width(),
    {
        self.width
    }

    #[verifier::when_used_as_spec(spec_height)]
    pub fn height(&self) -> (r: u32)
        ensures
            r == self.spec_height(),
    {
        self.height
    }
}

impl Clone for FlipImageRgb8 {
    fn clone(&self) -> (r: Self)
        ensures
            r@ == self@,
            r.width() == self.width(),
            r.height() == self.height(),
    {
        proof {
            use_type_invariant(self);
        }
        FlipImageRgb8 { width: self.width, height: self.height, data: self.data.clone() }
    }
}

/// The colour image that maps each sample of `samples` through the first row
/// of a look-up table whose row is `n` pixels wide and whose bytes are `lut`.
pub open spec fn colour_mapped(samples: Seq<i32>, lut: Seq<u8>, n: int) -> Seq<u8> {
    Seq::new(
        3 * samples.len(),
        |k: int| lut[3 * lut_index(samples[k / 3] as int, n) + k % 3],
    )
}

/// The colour image that repeats the sRGB code of each sample of `samples` in
/// all three channels.
pub open spec fn grey_encoded(samples: Seq<i32>) -> Seq<u8> {
    Seq::new(3 * samples.len(), |k: int| srgb_byte(samples[k / 3] as int) as u8)
}

/// An image of one fixed-point sample per pixel (see `SAMPLE_ONE`).
pub struct FlipImageFloat {
    pub(crate) width: u32,
    pub(crate) height: u32,
    pub(crate) data: Vec<i32>,
}

impl View for FlipImageFloat {
    type V = Seq<i32>;

    /// The samples, row by row from the top left.
    closed spec fn view(&self) -> Seq<i32> {
        self.data@
    }
}

impl FlipImageFloat {
    #[verifier::type_invariant]
    spec fn inv(&self) -> bool {
        &&& self.width > 0
        &&& self.height > 0
        &&& self.data@.len() == pixel_count(self.width, self.height)
    }

    pub closed spec fn spec_width(&self) -> u32 {
        self.width
    }

    pub closed spec fn spec_height(&self) -> u32 {
        self.height
    }

    /// Creates a `width` by `height` image with every sample zero.
    pub fn new(width: u32, height: u32) -> (r: Self)
        requires
            width > 0,
            height > 0,
            pixel_count(width, height) <= usize::MAX,
        ensures
            r.width() == width,
            r.height() == height,
            r@ == Seq::new(pixel_count(width, height) as nat, |i: int| 0i32),
    {
        let n: usize = pixel_count_of(width, height);
        let data: Vec<i32> = vec![0i32; n];
        FlipImageFloat { width, height, data }
    }

    /// Creates a `width` by `height` image from the first `width * height`
    /// samples of `data`.
    pub fn with_data(width: u32, height: u32, data: &[i32]) -> (r: Self)
        requires
            width > 0,
            height > 0,
            pixel_count(width, height) <= usize::MAX,
            data@.len() >= pixel_count(width, height),
        ensures
            r.width() == width,
            r.height() == height,
            r@ == data@.subrange(0, pixel_count(width, height)),
    {
        let n: usize = pixel_count_of(width, height);
        let mut samples: Vec<i32> = Vec::with_capacity(n);
        let mut i: usize = 0;
        while i < n
            invariant
                i <= n,
                n <= data@.len(),
                samples@ == data@.subrange(0, i as int),
            decreases n - i,
        {
            samples.push(data[i]);
            i = i + 1;
            assert(samples@ =~= data@.subrange(0, i as int));
        }
        FlipImageFloat { width, height, data: samples }
    }

    /// Maps every sample through the first row of `value_mapping`: the pixel
    /// at index `round(sample * 255) mod n` (at most `n - 1`), where `n` is the
    /// width of `value_mapping`.
    pub fn apply_color_lut(&self, value_mapping: &FlipImageRgb8) -> (r: FlipImageRgb8)
        requires
            3 * pixel_count(self.width(), self.height()) <= usize::MAX,
        ensures
            r.width() == self.width(),
            r.height() == self.height(),
            r@ == colour_mapped(self@, value_mapping@, value_mapping.width() as int),
    {
        proof {
            use_type_invariant(self);
            use_type_invariant(value_mapping);
        }
        let n: usize = self.data.len();
        let lut_width: usize = value_mapping.width as usize;
        assert(lut_width <= pixel_count(value_mapping.width, value_mapping.height)) by (nonlinear_arith)
            requires
                lut_width == value_mapping.width,
                value_mapping.height > 0,
        ;
        let lut_len: usize = value_mapping.data.len();
        let mut bytes: Vec<u8> = Vec::with_capacity(3 * n);
        let mut i: usize = 0;
        while i < n
            invariant
                i <= n,
                n == self@.len(),
                3 * n <= usize::MAX,
                lut_width == value_mapping.width,
                0 < lut_width,
                3 * lut_width <= value_mapping@.len(),
                lut_len == value_mapping@.len(),
                bytes@.len() == 3 * i,
                forall|k: int|
                    0 <= k < 3 * i ==> #[trigger] bytes@[k] == colour_mapped(
                        self@,
                        value_mapping@,
                        lut_width as int,
                    )[k],
            decreases n - i,
        {
            let idx: usize = lut_index_of(self.data[i], lut_width);
            bytes.push(value_mapping.data[3 * idx]);
            bytes.push(value_mapping.data[3 * idx + 1]);
            bytes.push(value_mapping.data[3 * idx + 2]);
            assert forall|k: int| 3 * i <= k < 3 * i + 3 implies #[trigger] bytes@[k] == colour_mapped(
                self@,
                value_mapping@,
                lut_width as int,
            )[k] by {
                assert(k / 3 == i as int);
                assert(k % 3 == k - 3 * i);
            }
            i = i + 1;
        }
        let r = FlipImageRgb8 { width: self.width, height: self.height, data: bytes };
        assert(r@ =~= colour_mapped(self@, value_mapping@, value_mapping.width() as int));
        r
    }

    /// Converts the image to a colour image by copying each sample, read as a
    /// linear intensity, to all three channels.
    pub fn to_color3(&self) -> (r: FlipImageRgb8)
        requires
            3 * pixel_count(self.width(), self.height()) <= usize::MAX,
        ensures
            r.width() == self.width(),
            r.height() == self.height(),
            r@ == grey_encoded(self@),
    {
        proof {
            use_type_invariant(self);
        }
        let table: Vec<i32> = srgb_table();
        let n: usize = self.data.len();
        let mut bytes: Vec<u8> = Vec::with_capacity(3 * n);
        let mut i: usize = 0;
        while i < n
            invariant
                i <= n,
                n == self@.len(),
                3 * n <= usize::MAX,
                table@ == crate::srgb::srgb_thresholds(),
                bytes@.len() == 3 * i,
                forall|k: int|
                    0 <= k < 3 * i ==> #[trigger] bytes@[k] == grey_encoded(self@)[k],
            decreases n - i,
        {
            let b: u8 = srgb_byte_of(&table, self.data[i]);
            bytes.push(b);
            bytes.push(b);
            bytes.push(b);
            assert forall|k: int| 3 * i <= k < 3 * i + 3 implies #[trigger] bytes@[k] == grey_encoded(
                self@,
            )[k] by {
                assert(k / 3 == i as int);
            }
            i = i + 1;
        }
        let r = FlipImageRgb8 { width: self.width, height: self.height, data: bytes };
        assert(r@ =~= grey_encoded(self@));
        r
    }

    /// Borrows the samples, row by row from the top left.
    pub(crate) fn samples(&self) -> (r: &Vec<i32>)
        ensures
            r@ == self@,
            r@.len() == pixel_count(self.width(), self.height()),
    {
        proof {
            use_type_invariant(self);
        }
        &self.data
    }

    /// The samples, row by row from the top left.
    pub fn to_vec(&self) -> (r: Vec<i32>)
        ensures
            r@ == self@,
            r@.len() == pixel_count(self.width(), self.height()),
    {
        proof {
            use_type_invariant(self);
        }
        self.data.clone()
    }

    #[verifier::when_used_as_spec(spec_width)]
    pub fn width(&self) -> (r: u32)
        ensures
            r == self.spec_width(),
    {
        self.width
    }

    #[verifier::when_used_as_spec(spec_height)]
    pub fn height(&self) -> (r: u32)
        ensures
            r == self.spec_height(),
    {
        self.height
    }
}

impl Clone for FlipImageFloat {
    fn clone(&self) -> (r: Self)
        ensures
            r@ == self@,
            r.width() == self.width(),
            r.height() == self.height(),
    {
        proof {
            use_type_invariant(self);
        }
        FlipImageFloat { width: self.width, height: self.height, data: self.data.clone() }
    }
}

} // verus!
