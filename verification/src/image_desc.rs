use crate::pipe::{create_pipe_box, spec_pipe_box, to_u32, ImageType, MemType, PipeBox};
use crate::types::{mul_checked, CLResult, CLVec, MemError};
use vstd::prelude::*;

verus! {

/// The descriptor of an image as its creator declared it.
#[derive(Clone, Copy, Debug, PartialEq, Eq, Structural)]
pub struct ImageDesc {
    pub image_type: ImageType,
    pub image_width: usize,
    pub image_height: usize,
    pub image_depth: usize,
    pub image_array_size: usize,
    pub image_row_pitch: usize,
    pub image_slice_pitch: usize,
    pub num_mip_levels: u32,
    pub num_samples: u32,
}

/// Number of dimensions of an image kind, array layers not counted.
pub open spec fn type_dims(t: ImageType) -> u8 {
    match t {
        ImageType::Image1D | ImageType::Image1DBuffer | ImageType::Image1DArray => 1,
        ImageType::Image2D | ImageType::Image2DArray => 2,
        ImageType::Image3D => 3,
    }
}

/// Whether an image kind has array layers.
pub open spec fn type_is_array(t: ImageType) -> bool {
    t == ImageType::Image1DArray || t == ImageType::Image2DArray
}

/// Size and pitch arithmetic on an image descriptor, uniform over the kinds
/// of image.
pub trait CLImageDescInfo {
    /// Dimensions (array layers not counted) and whether there are layers.
    spec fn spec_type_info(&self) -> (u8, bool);

    /// Number of pixels: the product of the extents that the kind has.
    spec fn spec_pixels(&self) -> int;

    /// Extent per axis, with the array layers in the slot after the last
    /// dimension and one where the kind has no such axis.
    spec fn spec_size(&self) -> CLVec;

    /// The hardware box of the whole image.
    spec fn spec_bx(&self) -> CLResult<PipeBox>;

    /// The declared row pitch.
    spec fn spec_row_pitch(&self) -> int;

    /// The declared slice pitch.
    spec fn spec_slice_pitch(&self) -> int;

    /// The declared width.
    spec fn spec_width(&self) -> int;

    /// The declared height.
    spec fn spec_height(&self) -> int;

    fn type_info(&self) -> (r: (u8, bool))
        ensures
            r == self.spec_type_info(),
            1 <= r.0 <= 3,
    ;

    /// Fails iff the number of pixels does not fit the machine word.
    fn pixels(&self) -> (r: CLResult<usize>)
        ensures
            r == (if self.spec_pixels() <= usize::MAX {
                Ok::<usize, MemError>(self.spec_pixels() as usize)
            } else {
                Err(MemError::OutOfHostMemory)
            }),
    ;

    fn bx(&self) -> (r: CLResult<PipeBox>)
        ensures
            r == self.spec_bx(),
    ;

    /// Fails iff the row pitch does not fit 32 bits.
    fn row_pitch(&self) -> (r: CLResult<u32>)
        ensures
            r == (if self.spec_row_pitch() <= u32::MAX {
                Ok::<u32, MemError>(self.spec_row_pitch() as u32)
            } else {
                Err(MemError::OutOfHostMemory)
            }),
    ;

    fn slice_pitch(&self) -> (r: usize)
        ensures
            r == self.spec_slice_pitch(),
    ;

    /// Fails iff the width does not fit 32 bits.
    fn width(&self) -> (r: CLResult<u32>)
        ensures
            r == (if self.spec_width() <= u32::MAX {
                Ok::<u32, MemError>(self.spec_width() as u32)
            } else {
                Err(MemError::OutOfHostMemory)
            }),
    ;

    /// Fails iff the height does not fit 32 bits.
    fn height(&self) -> (r: CLResult<u32>)
        ensures
            r == (if self.spec_height() <= u32::MAX {
                Ok::<u32, MemError>(self.spec_height() as u32)
            } else {
                Err(MemError::OutOfHostMemory)
            }),
    ;

    fn size(&self) -> (r: CLVec)
        ensures
            r == self.spec_size(),
    ;

    fn dims(&self) -> (r: u8)
        ensures
            r == self.spec_type_info().0,
            1 <= r <= 3,
    {
        self.type_info().0
    }

    fn dims_with_array(&self) -> (r: u8)
        ensures
            r == self.spec_type_info().0 + (if self.spec_type_info().1 {
                1int
            } else {
                0int
            }),
    {
        let array: u8 = if self.is_array() {
            1
        } else {
            0
        };
        self.dims() + array
    }

    fn has_slice(&self) -> (r: bool)
        ensures
            r == (self.spec_type_info().0 == 3 || self.spec_type_info().1),
    {
        self.dims() == 3 || self.is_array()
    }

    fn is_array(&self) -> (r: bool)
        ensures
            r == self.spec_type_info().1,
    {
        self.type_info().1
    }
}

/// Where one factor of a product is positive, the product is no smaller than
/// the other factor.
pub proof fn lemma_mul_grows(a: int, b: int)
    requires
        a >= 0,
        b >= 1,
    ensures
        a * b >= a,
{
    assert(a * b >= a) by (nonlinear_arith)
        requires
            a >= 0,
            b >= 1,
    ;
}

impl ImageDesc {
    /// The extent along the second axis that counts in the number of pixels.
    pub open spec fn rows(self) -> int {
        if type_dims(self.image_type) > 1 {
            self.image_height as int
        } else {
            1
        }
    }

    /// The extent along the third axis that counts in the number of pixels.
    pub open spec fn slices(self) -> int {
        if type_dims(self.image_type) > 2 {
            self.image_depth as int
        } else {
            1
        }
    }

    /// The number of array layers that counts in the number of pixels.
    pub open spec fn layers(self) -> int {
        if type_is_array(self.image_type) {
            self.image_array_size as int
        } else {
            1
        }
    }
}

impl CLImageDescInfo for ImageDesc {
    open spec fn spec_type_info(&self) -> (u8, bool) {
        (type_dims(self.image_type), type_is_array(self.image_type))
    }

    open spec fn spec_pixels(&self) -> int {
        self.image_width * self.rows() * self.slices() * self.layers()
    }

    open spec fn spec_size(&self) -> CLVec {
        let height: usize = if self.image_type == ImageType::Image1DArray {
            self.image_array_size
        } else if self.image_height >= 1 {
            self.image_height
        } else {
            1
        };
        let depth: usize = if self.image_type == ImageType::Image2DArray {
            self.image_array_size
        } else if self.image_depth >= 1 {
            self.image_depth
        } else {
            1
        };
        CLVec { x: self.image_width, y: height, z: depth }
    }

    open spec fn spec_bx(&self) -> CLResult<PipeBox> {
        spec_pipe_box(
            CLVec { x: 0, y: 0, z: 0 },
            self.spec_size(),
            MemType::Image(self.image_type),
        )
    }

    open spec fn spec_row_pitch(&self) -> int {
        self.image_row_pitch as int
    }

    open spec fn spec_slice_pitch(&self) -> int {
        self.image_slice_pitch as int
    }

    open spec fn spec_width(&self) -> int {
        self.image_width as int
    }

    open spec fn spec_height(&self) -> int {
        self.image_height as int
    }

    fn type_info(&self) -> (r: (u8, bool)) {
        match self.image_type {
            ImageType::Image1D | ImageType::Image1DBuffer => (1, false),
            ImageType::Image1DArray => (1, true),
            ImageType::Image2D => (2, false),
            ImageType::Image2DArray => (2, true),
            ImageType::Image3D => (3, false),
        }
    }

    fn pixels(&self) -> (r: CLResult<usize>) {
        let dims = self.dims();
        let rows: usize = if dims > 1 {
            self.image_height
        } else {
            1
        };
        let slices: usize = if dims > 2 {
            self.image_depth
        } else {
            1
        };
        let layers: usize = if self.is_array() {
            self.image_array_size
        } else {
            1
        };
        let ghost w = self.image_width as int;
        let ghost h = rows as int;
        let ghost d = slices as int;
        let ghost l = layers as int;
        if self.image_width == 0 || rows == 0 || slices == 0 || layers == 0 {
            assert(w * h * d * l == 0) by (nonlinear_arith)
                requires
                    w == 0 || h == 0 || d == 0 || l == 0,
            ;
            return Ok(0);
        }
        proof {
            crate::types::lemma_mul_nonneg(w, h);
            crate::types::lemma_mul_nonneg(w * h, d);
            lemma_mul_grows(w * h, d);
            lemma_mul_grows(w * h * d, l);
        }
        let wh = mul_checked(self.image_width, rows)?;
        let whd = mul_checked(wh, slices)?;
        mul_checked(whd, layers)
    }

    fn size(&self) -> (r: CLVec) {
        let mut height: usize = if self.image_height >= 1 {
            self.image_height
        } else {
            1
        };
        let mut depth: usize = if self.image_depth >= 1 {
            self.image_depth
        } else {
            1
        };
        match self.image_type {
            ImageType::Image1DArray => {
                height = self.image_array_size;
            },
            ImageType::Image2DArray => {
                depth = self.image_array_size;
            },
            _ => {},
        }
        CLVec::new(self.image_width, height, depth)
    }

    fn bx(&self) -> (r: CLResult<PipeBox>) {
        create_pipe_box(CLVec::zero(), self.size(), MemType::Image(self.image_type))
    }

    fn row_pitch(&self) -> (r: CLResult<u32>) {
        to_u32(self.image_row_pitch)
    }

    fn slice_pitch(&self) -> (r: usize) {
        self.image_slice_pitch
    }

    fn width(&self) -> (r: CLResult<u32>) {
        to_u32(self.image_width)
    }

    fn height(&self) -> (r: CLResult<u32>) {
        to_u32(self.image_height)
    }
}

} // verus!
