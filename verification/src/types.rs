use vstd::prelude::*;

verus! {

/// Why an operation on a memory object was refused.
#[derive(Clone, Copy, Debug, PartialEq, Eq, Structural)]
pub enum MemError {
    /// An offset, size or dimension left its range, or the object has no
    /// resource on the device asked for.
    OutOfHostMemory,
    /// The device could not open a transfer or create a staging resource.
    OutOfResources,
}

impl MemError {
    /// The numeric status code of the error.
    pub open spec fn spec_code(self) -> int {
        match self {
            MemError::OutOfResources => -5,
            MemError::OutOfHostMemory => -6,
        }
    }

    /// The numeric status code of the error.
    pub fn code(self) -> (c: i32)
        ensures
            c == self.spec_code(),
    {
        match self {
            MemError::OutOfResources => -5,
            MemError::OutOfHostMemory => -6,
        }
    }
}

pub type CLResult<T> = Result<T, MemError>;

/// The product of two sizes, where it fits.
pub fn mul_checked(a: usize, b: usize) -> (r: CLResult<usize>)
    ensures
        r == (if a * b <= usize::MAX {
            Ok::<usize, MemError>((a * b) as usize)
        } else {
            Err(MemError::OutOfHostMemory)
        }),
{
    match a.checked_mul(b) {
        Some(v) => Ok(v),
        None => Err(MemError::OutOfHostMemory),
    }
}

/// The sum of two sizes, where it fits.
pub fn add_checked(a: usize, b: usize) -> (r: CLResult<usize>)
    ensures
        r == (if a + b <= usize::MAX {
            Ok::<usize, MemError>((a + b) as usize)
        } else {
            Err(MemError::OutOfHostMemory)
        }),
{
    match a.checked_add(b) {
        Some(v) => Ok(v),
        None => Err(MemError::OutOfHostMemory),
    }
}

/// A point, an extent or a set of per-axis pitches in up to three dimensions.
#[derive(Clone, Copy, Debug, PartialEq, Eq, Structural)]
pub struct CLVec {
    pub x: usize,
    pub y: usize,
    pub z: usize,
}

impl CLVec {
    pub fn new(x: usize, y: usize, z: usize) -> (v: CLVec)
        ensures
            v == (CLVec { x, y, z }),
    {
        CLVec { x, y, z }
    }

    /// The origin.
    pub fn zero() -> (v: CLVec)
        ensures
            v == (CLVec { x: 0, y: 0, z: 0 }),
    {
        CLVec { x: 0, y: 0, z: 0 }
    }

    /// The offset in linear memory of the point `self` under `pitch`.
    pub open spec fn dot(self, pitch: CLVec) -> int {
        self.x * pitch.x + self.y * pitch.y + self.z * pitch.z
    }

    /// The length in linear memory of the region `self` under `pitch`: from
    /// the first byte of its first row to the last byte of its last row.
    pub open spec fn span(self, pitch: CLVec) -> int {
        self.x * pitch.x + (self.y - 1) * pitch.y + (self.z - 1) * pitch.z
    }

    /// A region has a length iff it holds at least one row and one slice and
    /// the length fits the machine word.
    pub open spec fn has_span(self, pitch: CLVec) -> bool {
        self.y >= 1 && self.z >= 1 && self.span(pitch) <= usize::MAX
    }

    /// Offset of `base` and length of `region` under `pitch`, where both
    /// exist.
    pub open spec fn spec_offset_size(base: CLVec, region: CLVec, pitch: CLVec) -> CLResult<
        (usize, usize),
    > {
        if base.dot(pitch) <= usize::MAX && region.has_span(pitch) {
            Ok((base.dot(pitch) as usize, region.span(pitch) as usize))
        } else {
            Err(MemError::OutOfHostMemory)
        }
    }

    /// Offset of `point` in linear memory.
    pub fn calc_offset(point: &CLVec, pitch: &CLVec) -> (r: CLResult<usize>)
        ensures
            r == (if point.dot(*pitch) <= usize::MAX {
                Ok::<usize, MemError>(point.dot(*pitch) as usize)
            } else {
                Err(MemError::OutOfHostMemory)
            }),
    {
        proof {
            lemma_mul_nonneg(point.x as int, pitch.x as int);
            lemma_mul_nonneg(point.y as int, pitch.y as int);
            lemma_mul_nonneg(point.z as int, pitch.z as int);
        }
        let a = mul_checked(point.x, pitch.x)?;
        let b = mul_checked(point.y, pitch.y)?;
        let c = mul_checked(point.z, pitch.z)?;
        let ab = add_checked(a, b)?;
        add_checked(ab, c)
    }

    /// Length of `region` in linear memory.
    pub fn calc_size(region: &CLVec, pitch: &CLVec) -> (r: CLResult<usize>)
        ensures
            r == (if region.has_span(*pitch) {
                Ok::<usize, MemError>(region.span(*pitch) as usize)
            } else {
                Err(MemError::OutOfHostMemory)
            }),
    {
        if region.y == 0 || region.z == 0 {
            return Err(MemError::OutOfHostMemory);
        }
        proof {
            lemma_mul_nonneg(region.x as int, pitch.x as int);
            lemma_mul_nonneg(region.y - 1, pitch.y as int);
            lemma_mul_nonneg(region.z - 1, pitch.z as int);
        }
        let a = mul_checked(region.x, pitch.x)?;
        let b = mul_checked(region.y - 1, pitch.y)?;
        let c = mul_checked(region.z - 1, pitch.z)?;
        let ab = add_checked(a, b)?;
        add_checked(ab, c)
    }

    /// Offset of `base` and length of `region` in linear memory. Fails where
    /// either fails, the offset first.
    pub fn calc_offset_size(base: &CLVec, region: &CLVec, pitch: &CLVec) -> (r: CLResult<
        (usize, usize),
    >)
        ensures
            r == CLVec::spec_offset_size(*base, *region, *pitch),
    {
        let offset = CLVec::calc_offset(base, pitch)?;
        let size = CLVec::calc_size(region, pitch)?;
        Ok((offset, size))
    }
}

/// A product of two non-negative numbers is non-negative.
pub proof fn lemma_mul_nonneg(a: int, b: int)
    requires
        a >= 0,
        b >= 0,
    ensures
        a * b >= 0,
{
    assert(a * b >= 0) by (nonlinear_arith)
        requires
            a >= 0,
            b >= 0,
    ;
}

} // verus!
