use vstd::prelude::*;

use crate::allocator::CpuAllocator;
use crate::tensor::{shape_product, Tensor, TensorError};

verus! {

/// The number of channels of every pixel.
pub const NUM_CHANNELS: usize = 3;

/// Width and height of an image, in pixels.
#[derive(Clone, Copy, Debug, PartialEq, Eq, Structural)]
pub struct ImageSize {
    pub width: usize,
    pub height: usize,
}

/// Why an image could not be built.
#[derive(Clone, Copy, Debug, PartialEq, Eq, Structural)]
pub enum ImageError {
    /// The last extent of the shape is not the channel count.
    InvalidChannelCount,
    /// A requested size has a zero extent, or more pixels than memory can index.
    InvalidSize,
    /// An affine matrix has a scale of zero.
    InvalidMatrix,
    /// The pixel tensor could not be built.
    Tensor(TensorError),
}

/// Index of channel `ch` of the pixel at row `r`, column `c` in a row-major buffer
/// `width` pixels wide.
pub open spec fn pixel_index(width: int, r: int, c: int, ch: int) -> int {
    (r * width + c) * 3 + ch
}

proof fn lemma_product3(s: Seq<usize>)
    requires
        s.len() == 3,
    ensures
        shape_product(s) == s[0] as nat * s[1] as nat * s[2] as nat,
{
    let s1 = s.subrange(1, 3);
    let s2 = s1.subrange(1, 2);
    let s3 = s2.subrange(1, 1);
    assert(s3.len() == 0);
    assert(shape_product(s2) == s2[0] as nat * shape_product(s3));
    assert(shape_product(s1) == s1[0] as nat * shape_product(s2));
    assert(s[0] as nat * (s[1] as nat * (s[2] as nat * 1)) == s[0] as nat * s[1] as nat
        * s[2] as nat) by (nonlinear_arith);
}

/// An RGB image: a row-major tensor of shape (height, width, 3) of `u8` values.
pub struct Image {
    data: Tensor<u8, 3, CpuAllocator>,
}

impl Image {
    /// The channel values, row by row, pixel by pixel.
    pub closed spec fn pixels(&self) -> Seq<u8> {
        self.data.data_view()
    }

    pub closed spec fn height_spec(&self) -> nat {
        self.data.shape_view()[0] as nat
    }

    pub closed spec fn width_spec(&self) -> nat {
        self.data.shape_view()[1] as nat
    }

    pub closed spec fn inv(&self) -> bool {
        &&& self.data.wf()
        &&& self.data.shape_view().len() == 3
        &&& self.data.shape_view()[2] == 3
    }

    /// Both extents are positive and the buffer holds `height * width * 3` values.
    pub open spec fn wf(&self) -> bool {
        &&& self.inv()
        &&& self.height_spec() > 0
        &&& self.width_spec() > 0
        &&& self.pixels().len() == self.height_spec() * self.width_spec() * 3
    }

    /// Builds an image from a shape (height, width, channels) and its values.
    pub fn from_shape_vec(shape: [usize; 3], data: Vec<u8>) -> (r: Result<Image, ImageError>)
        ensures
            shape@[2] != 3 ==> r == Err::<Image, _>(ImageError::InvalidChannelCount),
            shape@[2] == 3 && (shape@[0] == 0 || shape@[1] == 0) ==> r == Err::<Image, _>(
                ImageError::Tensor(TensorError::ZeroExtent),
            ),
            shape@[2] == 3 && shape@[0] > 0 && shape@[1] > 0 && data@.len() != shape@[0]
                * shape@[1] * 3 ==> r == Err::<Image, _>(
                ImageError::Tensor(TensorError::ElementCountMismatch),
            ),
            r is Err ==> r->Err_0 != ImageError::InvalidSize,
            shape@[2] == 3 && r is Err ==> r->Err_0 is Tensor,
            shape@[2] == 3 && shape@[0] > 0 && shape@[1] > 0 && data@.len() == shape@[0]
                * shape@[1] * 3 && r is Err ==> r->Err_0 is Tensor && r->Err_0->Tensor_0 is Storage,
            r is Ok ==> r->Ok_0.wf() && r->Ok_0.pixels() == data@ && r->Ok_0.height_spec()
                == shape@[0] && r->Ok_0.width_spec() == shape@[1],
    {
        if shape[2] != NUM_CHANNELS {
            return Err(ImageError::InvalidChannelCount);
        }
        proof {
            lemma_product3(shape@);
        }
        match Tensor::from_shape_vec(shape, data, CpuAllocator) {
            Ok(t) => {
                proof {
                    assert(t.shape_view()[0] > 0 && t.shape_view()[1] > 0);
                }
                Ok(Image { data: t })
            },
            Err(e) => Err(ImageError::Tensor(e)),
        }
    }

    /// Builds an image of the given size from its values.
    pub fn new(size: ImageSize, data: Vec<u8>) -> (r: Result<Image, ImageError>)
        ensures
            size.height == 0 || size.width == 0 ==> r == Err::<Image, _>(
                ImageError::Tensor(TensorError::ZeroExtent),
            ),
            size.height > 0 && size.width > 0 && data@.len() != size.height * size.width * 3
                ==> r == Err::<Image, _>(ImageError::Tensor(TensorError::ElementCountMismatch)),
            r is Err ==> r->Err_0 is Tensor,
            size.height > 0 && size.width > 0 && data@.len() == size.height * size.width * 3
                && r is Err ==> r->Err_0 is Tensor && r->Err_0->Tensor_0 is Storage,
            r is Ok ==> r->Ok_0.wf() && r->Ok_0.pixels() == data@ && r->Ok_0.height_spec()
                == size.height && r->Ok_0.width_spec() == size.width,
    {
        let shape: [usize; 3] = [size.height, size.width, NUM_CHANNELS];
        assert(shape@[0] == size.height && shape@[1] == size.width && shape@[2] == 3);
        Image::from_shape_vec(shape, data)
    }

    pub fn image_size(&self) -> (r: ImageSize)
        requires
            self.wf(),
        ensures
            r.width == self.width_spec(),
            r.height == self.height_spec(),
    {
        ImageSize { width: self.width(), height: self.height() }
    }

    pub fn width(&self) -> (r: usize)
        requires
            self.wf(),
        ensures
            r == self.width_spec(),
    {
        self.data.shape()[1]
    }

    pub fn height(&self) -> (r: usize)
        requires
            self.wf(),
        ensures
            r == self.height_spec(),
    {
        self.data.shape()[0]
    }

    pub fn num_channels(&self) -> (r: usize)
        ensures
            r == 3,
    {
        NUM_CHANNELS
    }

    /// The channel values, row by row, pixel by pixel.
    pub fn as_slice(&self) -> (r: &[u8])
        ensures
            r@ == self.pixels(),
    {
        self.data.as_slice()
    }

    /// Channel `ch` of the pixel at column `x`, row `y`, or `None` when the column, the
    /// row or the channel is out of range.
    pub fn get_pixel(&self, x: usize, y: usize, ch: usize) -> (r: Option<u8>)
        requires
            self.wf(),
        ensures
            r == (if x < self.width_spec() && y < self.height_spec() && ch < 3 {
                Some(self.pixels()[pixel_index(self.width_spec() as int, y as int, x as int, ch as int)])
            } else {
                None
            }),
    {
        if x < self.width() && y < self.height() && ch < NUM_CHANNELS {
            Some(self.pixel(x, y, ch))
        } else {
            None
        }
    }

    /// Channel `ch` of the pixel at column `x`, row `y`, for coordinates in range.
    pub(crate) fn pixel(&self, x: usize, y: usize, ch: usize) -> (r: u8)
        requires
            self.wf(),
            x < self.width_spec(),
            y < self.height_spec(),
            ch < 3,
        ensures
            r == self.pixels()[pixel_index(self.width_spec() as int, y as int, x as int, ch as int)],
    {
        let w = self.width();
        let h = self.height();
        let n = self.data.as_slice().len();
        proof {
            crate::interpolation::lemma_pixel_index_bound(
                h as int,
                w as int,
                y as int,
                x as int,
                ch as int,
            );
        }
        self.data.as_slice()[(y * w + x) * 3 + ch]
    }
}

} // verus!
