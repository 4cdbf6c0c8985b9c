use crate::types::{CLResult, CLVec, MemError};
use vstd::prelude::*;

verus! {

/// What the library reads of a device: its identity and its memory model.
#[derive(Clone, Copy, Debug, PartialEq, Eq, Structural)]
pub struct Device {
    pub id: u64,
    /// Host and device share one physical memory.
    pub unified_memory: bool,
}

/// What the library reads of a device resource. The resource itself is
/// created, owned and counted by the device.
#[derive(Clone, Copy, Debug, PartialEq, Eq, Structural)]
pub struct Resource {
    pub id: u64,
    /// The resource is a staging, host-visible allocation.
    pub is_staging: bool,
    /// The memory behind the resource belongs to the host.
    pub is_user: bool,
    /// The resource is a plain buffer.
    pub is_buffer: bool,
    /// The resource has a linear, untiled layout.
    pub is_linear: bool,
    pub width: u32,
    pub height: u16,
    pub depth: u16,
    pub array_size: u16,
}

/// What the library reads of an open transfer: a CPU-visible window onto a
/// region of a resource.
#[derive(Clone, Copy, Debug, PartialEq, Eq, Structural)]
pub struct Transfer {
    pub id: u64,
    /// Address of the first byte of the window.
    pub ptr: usize,
    /// Distance in bytes between two rows of the window.
    pub row_pitch: u32,
    /// Distance in bytes between two slices of the window.
    pub slice_pitch: usize,
}

/// An address in memory that is only read through. The memory belongs to
/// whoever handed the address in: it is never freed or checked here, and
/// those who share it keep their accesses apart.
#[derive(Clone, Copy, Debug, PartialEq, Eq, Structural)]
pub struct ConstMemoryPtr {
    pub ptr: usize,
}

impl ConstMemoryPtr {
    pub fn as_ptr(&self) -> (p: usize)
        ensures
            p == self.ptr,
    {
        self.ptr
    }

    pub fn from_ptr(ptr: usize) -> (p: ConstMemoryPtr)
        ensures
            p == (ConstMemoryPtr { ptr }),
    {
        ConstMemoryPtr { ptr }
    }
}

/// An address in memory that may be written through. The memory belongs to
/// whoever handed the address in: it is never freed or checked here, and
/// those who share it keep their accesses apart.
#[derive(Clone, Copy, Debug, PartialEq, Eq, Structural)]
pub struct MutMemoryPtr {
    pub ptr: usize,
}

impl MutMemoryPtr {
    pub fn as_ptr(&self) -> (p: usize)
        ensures
            p == self.ptr,
    {
        self.ptr
    }

    pub fn from_ptr(ptr: usize) -> (p: MutMemoryPtr)
        ensures
            p == (MutMemoryPtr { ptr }),
    {
        MutMemoryPtr { ptr }
    }
}

/// Direction of the access that a transfer is opened for.
#[derive(Clone, Copy, Debug, PartialEq, Eq, Structural)]
pub enum RWFlags {
    RD,
    WR,
    RW,
}

/// Where the device is asked to place a new resource.
#[derive(Clone, Copy, Debug, PartialEq, Eq, Structural)]
pub enum ResourceType {
    Normal,
    Staging,
}

/// The kinds of image.
#[derive(Clone, Copy, Debug, PartialEq, Eq, Structural)]
pub enum ImageType {
    Image1D,
    Image1DBuffer,
    Image1DArray,
    Image2D,
    Image2DArray,
    Image3D,
}

/// The kinds of memory object.
#[derive(Clone, Copy, Debug, PartialEq, Eq, Structural)]
pub enum MemType {
    Buffer,
    Image(ImageType),
}

/// A region of a resource in the widths that the hardware interface takes.
#[derive(Clone, Copy, Debug, PartialEq, Eq, Structural)]
pub struct PipeBox {
    pub x: i32,
    pub y: i16,
    pub z: i16,
    pub width: i32,
    pub height: i16,
    pub depth: i16,
}

/// The object has at most two dimensions, array layers not counted.
pub open spec fn is_flat(mem_type: MemType) -> bool {
    mem_type != MemType::Image(ImageType::Image2DArray) && mem_type != MemType::Image(
        ImageType::Image3D,
    )
}

/// The object has one dimension and no array layers.
pub open spec fn is_line(mem_type: MemType) -> bool {
    mem_type == MemType::Buffer || mem_type == MemType::Image(ImageType::Image1D) || mem_type
        == MemType::Image(ImageType::Image1DBuffer)
}

/// The origin of a region as the hardware counts it: the layer of a
/// one-dimensional array is its third coordinate.
pub open spec fn hw_base(base: CLVec, mem_type: MemType) -> CLVec {
    if mem_type == MemType::Image(ImageType::Image1DArray) {
        CLVec { x: base.x, y: base.z, z: base.y }
    } else {
        base
    }
}

/// The extent of a region as the hardware counts it: an axis that the object
/// does not have counts one, and the layers of a one-dimensional array are its
/// depth.
pub open spec fn hw_region(region: CLVec, mem_type: MemType) -> CLVec {
    let z: usize = if is_flat(mem_type) {
        1
    } else {
        region.z
    };
    let y: usize = if is_line(mem_type) {
        1
    } else {
        region.y
    };
    if mem_type == MemType::Image(ImageType::Image1DArray) {
        CLVec { x: region.x, y: z, z: y }
    } else {
        CLVec { x: region.x, y, z }
    }
}

/// Every coordinate and extent fits the width that the hardware gives it.
pub open spec fn box_fits(base: CLVec, region: CLVec) -> bool {
    &&& base.x <= i32::MAX
    &&& base.y <= i16::MAX
    &&& base.z <= i16::MAX
    &&& region.x <= i32::MAX
    &&& region.y <= i16::MAX
    &&& region.z <= i16::MAX
}

/// The hardware box of the region `region` at `base` of an object of kind
/// `mem_type`, where it has one.
pub open spec fn spec_pipe_box(base: CLVec, region: CLVec, mem_type: MemType) -> CLResult<
    PipeBox,
> {
    let b = hw_base(base, mem_type);
    let r = hw_region(region, mem_type);
    if box_fits(b, r) {
        Ok(
            PipeBox {
                x: b.x as i32,
                y: b.y as i16,
                z: b.z as i16,
                width: r.x as i32,
                height: r.y as i16,
                depth: r.z as i16,
            },
        )
    } else {
        Err(MemError::OutOfHostMemory)
    }
}

/// Narrows a size to a 32 bit signed quantity.
pub fn to_i32(v: usize) -> (r: CLResult<i32>)
    ensures
        r == (if v <= i32::MAX {
            Ok::<i32, MemError>(v as i32)
        } else {
            Err(MemError::OutOfHostMemory)
        }),
{
    if v > i32::MAX as usize {
        Err(MemError::OutOfHostMemory)
    } else {
        Ok(v as i32)
    }
}

/// Narrows a size to a 16 bit signed quantity.
pub fn to_i16(v: usize) -> (r: CLResult<i16>)
    ensures
        r == (if v <= i16::MAX {
            Ok::<i16, MemError>(v as i16)
        } else {
            Err(MemError::OutOfHostMemory)
        }),
{
    if v > i16::MAX as usize {
        Err(MemError::OutOfHostMemory)
    } else {
        Ok(v as i16)
    }
}

/// Narrows a size to a 32 bit unsigned quantity.
pub fn to_u32(v: usize) -> (r: CLResult<u32>)
    ensures
        r == (if v <= u32::MAX {
            Ok::<u32, MemError>(v as u32)
        } else {
            Err(MemError::OutOfHostMemory)
        }),
{
    if v > u32::MAX as usize {
        Err(MemError::OutOfHostMemory)
    } else {
        Ok(v as u32)
    }
}

/// Builds the hardware box of a region. Fails iff a coordinate or an extent
/// does not fit its hardware width.
pub fn create_pipe_box(base: CLVec, region: CLVec, mem_type: MemType) -> (r: CLResult<PipeBox>)
    ensures
        r == spec_pipe_box(base, region, mem_type),
{
    let mut base = base;
    let mut region = region;
    let flat = match mem_type {
        MemType::Image(ImageType::Image2DArray) | MemType::Image(ImageType::Image3D) => false,
        _ => true,
    };
    let line = match mem_type {
        MemType::Buffer
        | MemType::Image(ImageType::Image1D)
        | MemType::Image(ImageType::Image1DBuffer) => true,
        _ => false,
    };
    if flat {
        region.z = 1;
    }
    if line {
        region.y = 1;
    }
    if let MemType::Image(ImageType::Image1DArray) = mem_type {
        base = CLVec { x: base.x, y: base.z, z: base.y };
        region = CLVec { x: region.x, y: region.z, z: region.y };
    }
    let x = to_i32(base.x)?;
    let y = to_i16(base.y)?;
    let z = to_i16(base.z)?;
    let width = to_i32(region.x)?;
    let height = to_i16(region.y)?;
    let depth = to_i16(region.z)?;
    Ok(PipeBox { x, y, z, width, height, depth })
}

} // verus!
