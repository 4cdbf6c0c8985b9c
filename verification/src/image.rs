use crate::copy::SwCopy;
use crate::buffer::spec_ptr_add;
use crate::image_desc::CLImageDescInfo;
use crate::mappings::{idle, installed, released, reserved, settled, MappingTransfer, Mappings};
use crate::memory::{
    bit_check, spec_bit_check, Buffer, Image, Mem, CL_MEM_HOST_NO_ACCESS, CL_MEM_HOST_READ_ONLY,
    CL_MEM_HOST_WRITE_ONLY,
};
use crate::pipe::{MutMemoryPtr, 
    create_pipe_box, spec_pipe_box, to_u32, Device, ImageType, MemType, RWFlags, Resource,
    Transfer,
};
use crate::placement::{choose_strategy, spec_choose_strategy};
use crate::plan::{
    spec_installed, spec_unmap, ClearImage, CopyPlan, CopyRegion, ImageWrite, MapRegion, MapStep,
    SessionPlan, ShadowRequest, SwCopyPlan, SyncAction, TextureMap, TextureSubdata, UnmapPlan,
    Window, WriteBack,
};
use crate::types::{add_checked, mul_checked, CLResult, CLVec, MemError};
use vstd::prelude::*;

verus! {

/// The image may be read by the host.
pub const PIPE_IMAGE_ACCESS_READ: u16 = 1;

/// The image may be written by the host.
pub const PIPE_IMAGE_ACCESS_WRITE: u16 = 2;

/// The image may be read and written by the host.
pub const PIPE_IMAGE_ACCESS_READ_WRITE: u16 = 3;

/// A window onto a region of an image, with the pitches of the image in it
/// as far as they are declared.
#[derive(Clone, Copy, Debug, PartialEq, Eq, Structural)]
pub struct ImageWindow {
    pub window: Window,
    pub row_pitch: usize,
    pub slice_pitch: usize,
    /// The pitches are those of the transfer, once it is open.
    pub pitch_of_transfer: bool,
}

/// The pitches of a region of pixels that lies densely in memory, where
/// they fit the machine word: pixel after pixel, row after row.
pub open spec fn spec_dense_pitch(pixel_size: u8, region: CLVec) -> CLResult<CLVec> {
    if pixel_size * region.x <= usize::MAX && pixel_size * region.x * region.y <= usize::MAX {
        Ok(
            CLVec {
                x: pixel_size as usize,
                y: (pixel_size * region.x) as usize,
                z: (pixel_size * region.x * region.y) as usize,
            },
        )
    } else {
        Err(MemError::OutOfHostMemory)
    }
}

/// The pitches of a region of pixels that lies densely in memory.
pub fn dense_pitch(pixel_size: u8, region: &CLVec) -> (r: CLResult<CLVec>)
    ensures
        r == spec_dense_pitch(pixel_size, *region),
{
    let row = mul_checked(pixel_size as usize, region.x)?;
    let slice = mul_checked(row, region.y)?;
    Ok(CLVec { x: pixel_size as usize, y: row, z: slice })
}

/// Number of words of 32 bits that hold one pixel.
pub open spec fn spec_pattern_words(pixel_size: u8) -> usize {
    ((pixel_size + 3) / 4) as usize
}

impl Image {
    /// Whether the image lies in a buffer.
    pub open spec fn spec_is_parent_buffer(&self) -> bool {
        self.base.parent matches Some(Mem::Buffer(_))
    }

    /// The window onto the box `bx` of the image's texture on `dev`.
    pub open spec fn spec_tx_image(&self, dev: Device, bx: crate::pipe::PipeBox, rw: RWFlags)
        -> CLResult<TextureMap> {
        if self.base.resources().contains_key(dev.id) {
            Ok(TextureMap { res: self.base.resources()[dev.id], bx, rw })
        } else {
            Err(MemError::OutOfHostMemory)
        }
    }

    /// The window onto the region `region` at `origin` of the image. An image
    /// that lies in a buffer is reached through a window onto that buffer,
    /// with the pitches that the image declares; where `narrow` is set, a
    /// declared row pitch beyond 32 bits is refused. Any other image is
    /// reached through a window onto its texture, whose box is made for the
    /// kind `mem_type`, and its pitches are those of the transfer.
    pub open spec fn spec_region_window(
        &self,
        dev: Device,
        origin: CLVec,
        region: CLVec,
        mem_type: MemType,
        rw: RWFlags,
        narrow: bool,
    ) -> CLResult<ImageWindow> {
        match self.base.parent {
            Some(Mem::Buffer(buffer)) => if narrow && self.image_desc.image_row_pitch > u32::MAX {
                Err(MemError::OutOfHostMemory)
            } else {
                match buffer.spec_window(
                    dev,
                    origin,
                    region,
                    CLVec {
                        x: self.pixel_size as usize,
                        y: self.image_desc.image_row_pitch,
                        z: self.image_desc.image_slice_pitch,
                    },
                    rw,
                ) {
                    Ok(m) => Ok(
                        ImageWindow {
                            window: Window::Buffer(m),
                            row_pitch: self.image_desc.image_row_pitch,
                            slice_pitch: self.image_desc.image_slice_pitch,
                            pitch_of_transfer: false,
                        },
                    ),
                    Err(e) => Err(e),
                }
            },
            _ => match (spec_pipe_box(origin, region, mem_type), self.base.spec_res_of_dev(dev)) {
                (Ok(bx), Ok(res)) => Ok(
                    ImageWindow {
                        window: Window::Texture(TextureMap { res, bx, rw }),
                        row_pitch: 0,
                        slice_pitch: 0,
                        pitch_of_transfer: true,
                    },
                ),
                _ => Err(MemError::OutOfHostMemory),
            },
        }
    }

    /// The copy of a region of the image into host memory.
    pub open spec fn spec_read(
        &self,
        dev: Device,
        region: CLVec,
        src_origin: CLVec,
        dst_row_pitch: usize,
        dst_slice_pitch: usize,
    ) -> CLResult<SwCopyPlan> {
        match self.spec_region_window(
            dev,
            src_origin,
            region,
            self.base.mem_type,
            RWFlags::RD,
            false,
        ) {
            Ok(w) => Ok(
                SwCopyPlan {
                    src: w.window,
                    dst: Window::Host,
                    copy: SwCopy {
                        region,
                        src_origin: CLVec { x: 0, y: 0, z: 0 },
                        src_row_pitch: w.row_pitch,
                        src_slice_pitch: w.slice_pitch,
                        dst_origin: CLVec { x: 0, y: 0, z: 0 },
                        dst_row_pitch,
                        dst_slice_pitch,
                        pixel_size: self.pixel_size,
                    },
                    src_pitch_of_transfer: w.pitch_of_transfer,
                    dst_pitch_of_transfer: false,
                },
            ),
            Err(e) => Err(e),
        }
    }

    /// The write of host memory into a region of the image: a copy in
    /// software into a window onto the buffer that the image lies in, or an
    /// upload into its texture. For the upload, the slices of a
    /// one-dimensional array are its rows.
    pub open spec fn spec_write(
        &self,
        dev: Device,
        region: CLVec,
        src_row_pitch: usize,
        src_slice_pitch: usize,
        dst_origin: CLVec,
    ) -> CLResult<ImageWrite> {
        if self.spec_is_parent_buffer() {
            match self.spec_region_window(
                dev,
                dst_origin,
                region,
                self.base.mem_type,
                RWFlags::WR,
                false,
            ) {
                Ok(w) => Ok(
                    ImageWrite::Software(
                        SwCopyPlan {
                            src: Window::Host,
                            dst: w.window,
                            copy: SwCopy {
                                region,
                                src_origin: CLVec { x: 0, y: 0, z: 0 },
                                src_row_pitch,
                                src_slice_pitch,
                                dst_origin: CLVec { x: 0, y: 0, z: 0 },
                                dst_row_pitch: w.row_pitch,
                                dst_slice_pitch: w.slice_pitch,
                                pixel_size: self.pixel_size,
                            },
                            src_pitch_of_transfer: false,
                            dst_pitch_of_transfer: false,
                        },
                    ),
                ),
                Err(e) => Err(e),
            }
        } else {
            match (
                self.base.spec_res_of_dev(dev),
                spec_pipe_box(dst_origin, region, self.base.mem_type),
            ) {
                (Ok(res), Ok(bx)) => if src_row_pitch <= u32::MAX {
                    Ok(
                        ImageWrite::Subdata(
                            TextureSubdata {
                                res,
                                bx,
                                stride: src_row_pitch as u32,
                                layer_stride: if self.base.mem_type == MemType::Image(
                                    ImageType::Image1DArray,
                                ) {
                                    src_row_pitch
                                } else {
                                    src_slice_pitch
                                },
                            },
                        ),
                    )
                } else {
                    Err(MemError::OutOfHostMemory)
                },
                _ => Err(MemError::OutOfHostMemory),
            }
        }
    }

    /// What it takes to open the session of `dev` on the image: a window
    /// onto the box `bx`, directly or through a staging texture of the
    /// dimensions of the resource and the format of the image.
    pub open spec fn spec_tx_raw_async(&self, dev: Device, bx: crate::pipe::PipeBox, rw: RWFlags)
        -> CLResult<SessionPlan> {
        if self.base.resources().contains_key(dev.id) {
            let res = self.base.resources()[dev.id];
            Ok(
                SessionPlan {
                    res,
                    strategy: spec_choose_strategy(dev, res),
                    region: MapRegion::Texture { bx },
                    shadow: ShadowRequest::Texture {
                        width: res.width,
                        height: res.height,
                        depth: res.depth,
                        array_size: res.array_size,
                        image_type: self.image_desc.image_type,
                        pipe_format: self.pipe_format,
                    },
                    rw,
                },
            )
        } else {
            Err(MemError::OutOfHostMemory)
        }
    }

    /// Whether the image lies in a buffer.
    pub fn is_parent_buffer(&self) -> (r: bool)
        ensures
            r == self.spec_is_parent_buffer(),
    {
        match &self.base.parent {
            Some(Mem::Buffer(_)) => true,
            _ => false,
        }
    }

    /// What the host may do with the image, by the flags of the image: read
    /// it, write it, neither, or both where the flags say nothing.
    pub fn pipe_image_host_access(&self) -> (r: u16)
        ensures
            r == (if spec_bit_check(self.base.flags, CL_MEM_HOST_READ_ONLY) {
                PIPE_IMAGE_ACCESS_READ
            } else if spec_bit_check(self.base.flags, CL_MEM_HOST_WRITE_ONLY) {
                PIPE_IMAGE_ACCESS_WRITE
            } else if spec_bit_check(self.base.flags, CL_MEM_HOST_NO_ACCESS) {
                0
            } else {
                PIPE_IMAGE_ACCESS_READ_WRITE
            }),
    {
        if bit_check(self.base.flags, CL_MEM_HOST_READ_ONLY) {
            PIPE_IMAGE_ACCESS_READ
        } else if bit_check(self.base.flags, CL_MEM_HOST_WRITE_ONLY) {
            PIPE_IMAGE_ACCESS_WRITE
        } else if bit_check(self.base.flags, CL_MEM_HOST_NO_ACCESS) {
            0
        } else {
            PIPE_IMAGE_ACCESS_READ_WRITE
        }
    }

    /// Plans a window onto a box of the image's texture, open for the length
    /// of one operation. Fails iff the root has no resource on `dev`.
    pub fn tx_image(&self, dev: &Device, bx: &crate::pipe::PipeBox, rw: RWFlags) -> (r: CLResult<
        TextureMap,
    >)
        ensures
            r == self.spec_tx_image(*dev, *bx, rw),
    {
        let res = self.base.get_res_of_dev(dev)?;
        Ok(TextureMap { res, bx: *bx, rw })
    }

    /// Plans a window onto a region of the image.
    pub fn region_window(
        &self,
        dev: &Device,
        origin: &CLVec,
        region: &CLVec,
        mem_type: MemType,
        rw: RWFlags,
        narrow: bool,
    ) -> (r: CLResult<ImageWindow>)
        ensures
            r == self.spec_region_window(*dev, *origin, *region, mem_type, rw, narrow),
    {
        match &self.base.parent {
            Some(Mem::Buffer(buffer)) => {
                if narrow {
                    self.image_desc.row_pitch()?;
                }
                let pitch = CLVec::new(
                    self.pixel_size as usize,
                    self.image_desc.image_row_pitch,
                    self.image_desc.image_slice_pitch,
                );
                let m = buffer.tx_region(dev, origin, region, &pitch, rw)?;
                Ok(
                    ImageWindow {
                        window: Window::Buffer(m),
                        row_pitch: self.image_desc.image_row_pitch,
                        slice_pitch: self.image_desc.image_slice_pitch,
                        pitch_of_transfer: false,
                    },
                )
            },
            _ => {
                let bx = create_pipe_box(*origin, *region, mem_type)?;
                let m = self.tx_image(dev, &bx, rw)?;
                Ok(
                    ImageWindow {
                        window: Window::Texture(m),
                        row_pitch: 0,
                        slice_pitch: 0,
                        pitch_of_transfer: true,
                    },
                )
            },
        }
    }

    /// Plans a copy of a region of the image to `dst`, where the pixels lie
    /// densely from the pixel `dst_offset` on: in software, between a window
    /// onto the region of the image and a window onto the bytes of `dst`.
    pub fn copy_to_buffer(
        &self,
        dev: &Device,
        dst: &Buffer,
        src_origin: CLVec,
        dst_offset: usize,
        region: &CLVec,
    ) -> (r: CLResult<SwCopyPlan>)
        ensures
            r == (match (
                self.spec_region_window(
                    *dev,
                    src_origin,
                    *region,
                    self.base.mem_type,
                    RWFlags::RD,
                    true,
                ),
                spec_dense_pitch(self.pixel_size, *region),
            ) {
                (Ok(s), Ok(pitch)) => match dst.spec_window(
                    *dev,
                    CLVec { x: dst_offset, y: 0, z: 0 },
                    *region,
                    pitch,
                    RWFlags::WR,
                ) {
                    Ok(d) => Ok(
                        SwCopyPlan {
                            src: s.window,
                            dst: Window::Buffer(d),
                            copy: SwCopy {
                                region: *region,
                                src_origin: CLVec { x: 0, y: 0, z: 0 },
                                src_row_pitch: s.row_pitch,
                                src_slice_pitch: s.slice_pitch,
                                dst_origin: CLVec { x: 0, y: 0, z: 0 },
                                dst_row_pitch: pitch.y,
                                dst_slice_pitch: pitch.z,
                                pixel_size: self.pixel_size,
                            },
                            src_pitch_of_transfer: s.pitch_of_transfer,
                            dst_pitch_of_transfer: false,
                        },
                    ),
                    Err(e) => Err(e),
                },
                _ => Err(MemError::OutOfHostMemory),
            }),
    {
        let s = self.region_window(dev, &src_origin, region, self.base.mem_type, RWFlags::RD, true)?;
        let pitch = dense_pitch(self.pixel_size, region)?;
        let d = dst.tx_region(dev, &CLVec::new(dst_offset, 0, 0), region, &pitch, RWFlags::WR)?;
        Ok(
            SwCopyPlan {
                src: s.window,
                dst: Window::Buffer(d),
                copy: SwCopy {
                    region: *region,
                    src_origin: CLVec::zero(),
                    src_row_pitch: s.row_pitch,
                    src_slice_pitch: s.slice_pitch,
                    dst_origin: CLVec::zero(),
                    dst_row_pitch: pitch.y,
                    dst_slice_pitch: pitch.z,
                    pixel_size: self.pixel_size,
                },
                src_pitch_of_transfer: s.pitch_of_transfer,
                dst_pitch_of_transfer: false,
            },
        )
    }

    /// Plans a copy of a region of the image to a region of `dst`. Where
    /// neither image lies in a buffer, the device copies between the two
    /// textures; for a one-dimensional array the layer of the destination is
    /// its third coordinate. Else the copy is made in software, between a
    /// window onto each region, because an image in a buffer has the pitches
    /// that its creator declared.
    pub fn copy_to_image(
        &self,
        dev: &Device,
        dst: &Image,
        src_origin: CLVec,
        dst_origin: CLVec,
        region: &CLVec,
    ) -> (r: CLResult<CopyPlan>)
        ensures
            r == (if !self.base.resources().contains_key(dev.id)
                || !dst.base.resources().contains_key(dev.id) {
                Err::<CopyPlan, MemError>(MemError::OutOfHostMemory)
            } else if self.base.spec_parent().mem_type == MemType::Buffer
                || dst.base.spec_parent().mem_type == MemType::Buffer {
                match (
                    self.spec_region_window(
                        *dev,
                        src_origin,
                        *region,
                        self.base.spec_parent().mem_type,
                        RWFlags::RD,
                        true,
                    ),
                    dst.spec_region_window(
                        *dev,
                        dst_origin,
                        *region,
                        dst.base.spec_parent().mem_type,
                        RWFlags::WR,
                        true,
                    ),
                ) {
                    (Ok(s), Ok(d)) => Ok(
                        CopyPlan::Software(
                            SwCopyPlan {
                                src: s.window,
                                dst: d.window,
                                copy: SwCopy {
                                    region: *region,
                                    src_origin: CLVec { x: 0, y: 0, z: 0 },
                                    src_row_pitch: s.row_pitch,
                                    src_slice_pitch: s.slice_pitch,
                                    dst_origin: CLVec { x: 0, y: 0, z: 0 },
                                    dst_row_pitch: d.row_pitch,
                                    dst_slice_pitch: d.slice_pitch,
                                    pixel_size: self.pixel_size,
                                },
                                src_pitch_of_transfer: s.pitch_of_transfer,
                                dst_pitch_of_transfer: d.pitch_of_transfer,
                            },
                        ),
                    ),
                    _ => Err(MemError::OutOfHostMemory),
                }
            } else {
                match spec_pipe_box(src_origin, *region, self.base.spec_parent().mem_type) {
                    Ok(bx) => if dst_origin.x <= u32::MAX && dst_origin.y <= u32::MAX
                        && dst_origin.z <= u32::MAX {
                        let swap = self.base.spec_parent().mem_type == MemType::Image(
                            ImageType::Image1DArray,
                        );
                        Ok(
                            CopyPlan::Hardware(
                                CopyRegion {
                                    src: self.base.resources()[dev.id],
                                    dst: dst.base.resources()[dev.id],
                                    dst_x: dst_origin.x as u32,
                                    dst_y: if swap {
                                        dst_origin.z as u32
                                    } else {
                                        dst_origin.y as u32
                                    },
                                    dst_z: if swap {
                                        dst_origin.y as u32
                                    } else {
                                        dst_origin.z as u32
                                    },
                                    bx,
                                },
                            ),
                        )
                    } else {
                        Err(MemError::OutOfHostMemory)
                    },
                    Err(e) => Err(e),
                }
            }),
    {
        let src_parent = self.base.get_parent();
        let dst_parent = dst.base.get_parent();
        let src_res = self.base.get_res_of_dev(dev)?;
        let dst_res = dst.base.get_res_of_dev(dev)?;
        if src_parent.is_buffer() || dst_parent.is_buffer() {
            let s = self.region_window(
                dev,
                &src_origin,
                region,
                src_parent.mem_type,
                RWFlags::RD,
                true,
            )?;
            let d = dst.region_window(
                dev,
                &dst_origin,
                region,
                dst_parent.mem_type,
                RWFlags::WR,
                true,
            )?;
            Ok(
                CopyPlan::Software(
                    SwCopyPlan {
                        src: s.window,
                        dst: d.window,
                        copy: SwCopy {
                            region: *region,
                            src_origin: CLVec::zero(),
                            src_row_pitch: s.row_pitch,
                            src_slice_pitch: s.slice_pitch,
                            dst_origin: CLVec::zero(),
                            dst_row_pitch: d.row_pitch,
                            dst_slice_pitch: d.slice_pitch,
                            pixel_size: self.pixel_size,
                        },
                        src_pitch_of_transfer: s.pitch_of_transfer,
                        dst_pitch_of_transfer: d.pitch_of_transfer,
                    },
                ),
            )
        } else {
            let bx = create_pipe_box(src_origin, *region, src_parent.mem_type)?;
            let x = to_u32(dst_origin.x)?;
            let mut y = to_u32(dst_origin.y)?;
            let mut z = to_u32(dst_origin.z)?;
            if let MemType::Image(ImageType::Image1DArray) = src_parent.mem_type {
                let t = y;
                y = z;
                z = t;
            }
            Ok(
                CopyPlan::Hardware(
                    CopyRegion { src: src_res, dst: dst_res, dst_x: x, dst_y: y, dst_z: z, bx },
                ),
            )
        }
    }

    /// Plans a fill of a region of the image with one pixel, packed into
    /// whole words of 32 bits: one clear on the device, with the declared
    /// pitches as strides where the image lies in a buffer. Fails iff the
    /// root has no resource on `dev`, or the declared row pitch leaves 32
    /// bits, or the region has no hardware box, as the case may be.
    pub fn fill(&self, dev: &Device, origin: &CLVec, region: &CLVec) -> (r: CLResult<ClearImage>)
        ensures
            r == (if !self.base.resources().contains_key(dev.id) {
                Err::<ClearImage, MemError>(MemError::OutOfHostMemory)
            } else if self.spec_is_parent_buffer() {
                if self.image_desc.image_row_pitch <= u32::MAX {
                    Ok(
                        ClearImage::Buffer {
                            res: self.base.resources()[dev.id],
                            pattern_words: spec_pattern_words(self.pixel_size),
                            origin: *origin,
                            region: *region,
                            row_stride: self.image_desc.image_row_pitch,
                            slice_stride: self.image_desc.image_slice_pitch,
                            pixel_size: self.pixel_size as usize,
                        },
                    )
                } else {
                    Err(MemError::OutOfHostMemory)
                }
            } else {
                match spec_pipe_box(*origin, *region, self.base.mem_type) {
                    Ok(bx) => Ok(
                        ClearImage::Texture {
                            res: self.base.resources()[dev.id],
                            pattern_words: spec_pattern_words(self.pixel_size),
                            bx,
                        },
                    ),
                    Err(e) => Err(e),
                }
            }),
    {
        let res = self.base.get_res_of_dev(dev)?;
        let pixel_size = self.pixel_size as usize;
        let pattern_words = (pixel_size + 3) / 4;
        if self.is_parent_buffer() {
            let row = self.image_desc.row_pitch()?;
            Ok(
                ClearImage::Buffer {
                    res,
                    pattern_words,
                    origin: *origin,
                    region: *region,
                    row_stride: row as usize,
                    slice_stride: self.image_desc.slice_pitch(),
                    pixel_size,
                },
            )
        } else {
            let bx = create_pipe_box(*origin, *region, self.base.mem_type)?;
            Ok(ClearImage::Texture { res, pattern_words, bx })
        }
    }

    /// Plans a read of a region of the image into host memory: a window onto
    /// the region and a copy in software.
    pub fn read(
        &self,
        dev: &Device,
        region: &CLVec,
        src_origin: &CLVec,
        dst_row_pitch: usize,
        dst_slice_pitch: usize,
    ) -> (r: CLResult<SwCopyPlan>)
        ensures
            r == self.spec_read(*dev, *region, *src_origin, dst_row_pitch, dst_slice_pitch),
    {
        let w = self.region_window(
            dev,
            src_origin,
            region,
            self.base.mem_type,
            RWFlags::RD,
            false,
        )?;
        Ok(
            SwCopyPlan {
                src: w.window,
                dst: Window::Host,
                copy: SwCopy {
                    region: *region,
                    src_origin: CLVec::zero(),
                    src_row_pitch: w.row_pitch,
                    src_slice_pitch: w.slice_pitch,
                    dst_origin: CLVec::zero(),
                    dst_row_pitch,
                    dst_slice_pitch,
                    pixel_size: self.pixel_size,
                },
                src_pitch_of_transfer: w.pitch_of_transfer,
                dst_pitch_of_transfer: false,
            },
        )
    }

    /// Plans a write of host memory into a region of the image.
    pub fn write(
        &self,
        dev: &Device,
        region: &CLVec,
        src_row_pitch: usize,
        src_slice_pitch: usize,
        dst_origin: &CLVec,
    ) -> (r: CLResult<ImageWrite>)
        ensures
            r == self.spec_write(*dev, *region, src_row_pitch, src_slice_pitch, *dst_origin),
    {
        if self.is_parent_buffer() {
            let w = self.region_window(
                dev,
                dst_origin,
                region,
                self.base.mem_type,
                RWFlags::WR,
                false,
            )?;
            Ok(
                ImageWrite::Software(
                    SwCopyPlan {
                        src: Window::Host,
                        dst: w.window,
                        copy: SwCopy {
                            region: *region,
                            src_origin: CLVec::zero(),
                            src_row_pitch,
                            src_slice_pitch,
                            dst_origin: CLVec::zero(),
                            dst_row_pitch: w.row_pitch,
                            dst_slice_pitch: w.slice_pitch,
                            pixel_size: self.pixel_size,
                        },
                        src_pitch_of_transfer: false,
                        dst_pitch_of_transfer: false,
                    },
                ),
            )
        } else {
            let res = self.base.get_res_of_dev(dev)?;
            let bx = create_pipe_box(*dst_origin, *region, self.base.mem_type)?;
            let layer_stride = match self.base.mem_type {
                MemType::Image(ImageType::Image1DArray) => src_row_pitch,
                _ => src_slice_pitch,
            };
            Ok(
                ImageWrite::Subdata(
                    TextureSubdata { res, bx, stride: to_u32(src_row_pitch)?, layer_stride },
                ),
            )
        }
    }

    /// Plans the opening of the session of `dev` on the image. Fails iff the
    /// root has no resource on `dev`.
    pub fn tx_raw_async(&self, dev: &Device, bx: &crate::pipe::PipeBox, rw: RWFlags) -> (r:
        CLResult<SessionPlan>)
        ensures
            r == self.spec_tx_raw_async(*dev, *bx, rw),
    {
        let res = self.base.get_res_of_dev(dev)?;
        Ok(
            SessionPlan {
                res,
                strategy: choose_strategy(dev, &res),
                region: MapRegion::Texture { bx: *bx },
                shadow: ShadowRequest::Texture {
                    width: res.width,
                    height: res.height,
                    depth: res.depth,
                    array_size: res.array_size,
                    image_type: self.image_desc.image_type,
                    pipe_format: self.pipe_format,
                },
                rw,
            },
        )
    }
}

impl Image {
    /// The pitches that the image declares, with the width of a pixel.
    pub open spec fn declared_pitch(&self) -> CLVec {
        CLVec {
            x: self.pixel_size as usize,
            y: self.image_desc.image_row_pitch,
            z: self.image_desc.image_slice_pitch,
        }
    }

    /// The pitches of the image in the window of a session, with the width
    /// of a pixel: the row pitch of the transfer where the image has rows,
    /// its slice pitch where the image has slices or layers, and else what
    /// the caller held before.
    pub open spec fn session_pitch(&self, tx: Transfer, row_pitch: usize, slice_pitch: usize)
        -> CLVec {
        CLVec {
            x: self.pixel_size as usize,
            y: if self.image_desc.spec_type_info().0 > 1 {
                tx.row_pitch as usize
            } else {
                row_pitch
            },
            z: if self.image_desc.spec_type_info().0 > 2 || self.image_desc.spec_type_info().1 {
                tx.slice_pitch
            } else {
                slice_pitch
            },
        }
    }

    /// What a map request for `dev` at the pixel `origin` returns, with the
    /// pitches that the caller holds afterwards. An image with host memory
    /// of its own is mapped there, and an image in a buffer through that
    /// buffer; both have the declared pitches. Any other image is mapped
    /// through its own session. Where a session has yet to be opened the
    /// plan for it is returned, and the pitches stay as they were.
    pub open spec fn spec_map(
        &self,
        sessions: Map<u64, MappingTransfer>,
        dev: Device,
        origin: CLVec,
        row_pitch: usize,
        slice_pitch: usize,
    ) -> CLResult<(MapStep, usize, usize)> {
        let declared = self.declared_pitch();
        match self.base.spec_has_user_shadow_buffer(dev) {
            Err(e) => Err(e),
            Ok(true) => match spec_ptr_add(self.base.host_ptr, origin.dot(declared)) {
                Ok(p) => Ok((MapStep::Mapped(MutMemoryPtr { ptr: p }), declared.y, declared.z)),
                Err(e) => Err(e),
            },
            Ok(false) => match self.base.parent {
                Some(Mem::Buffer(buffer)) => if origin.dot(declared) <= usize::MAX {
                    match buffer.spec_map(sessions, dev, origin.dot(declared) as usize) {
                        Ok(MapStep::Mapped(p)) => Ok((MapStep::Mapped(p), declared.y, declared.z)),
                        Ok(MapStep::Open(plan)) => Ok((MapStep::Open(plan), row_pitch, slice_pitch)),
                        Err(e) => Err(e),
                    }
                } else {
                    Err(MemError::OutOfHostMemory)
                },
                _ => if sessions.contains_key(dev.id) {
                    let pitch = self.session_pitch(sessions[dev.id].tx, row_pitch, slice_pitch);
                    match spec_ptr_add(sessions[dev.id].tx.ptr, origin.dot(pitch)) {
                        Ok(p) => Ok((MapStep::Mapped(MutMemoryPtr { ptr: p }), pitch.y, pitch.z)),
                        Err(e) => Err(e),
                    }
                } else {
                    match self.image_desc.spec_bx() {
                        Ok(bx) => match self.spec_tx_raw_async(dev, bx, RWFlags::RW) {
                            Ok(plan) => Ok((MapStep::Open(plan), row_pitch, slice_pitch)),
                            Err(e) => Err(e),
                        },
                        Err(e) => Err(e),
                    }
                },
            },
        }
    }

    /// Whether a map request reserves the session of `dev` in the mapping
    /// state that it is given: iff it succeeds in mapping the image through
    /// that session.
    pub open spec fn spec_map_reserves(
        &self,
        sessions: Map<u64, MappingTransfer>,
        dev: Device,
        origin: CLVec,
        row_pitch: usize,
        slice_pitch: usize,
    ) -> bool {
        &&& self.base.spec_has_user_shadow_buffer(dev) == Ok::<bool, MemError>(false)
        &&& match self.base.parent {
            Some(Mem::Buffer(buffer)) => origin.dot(self.declared_pitch()) <= usize::MAX
                && buffer.spec_map_reserves(
                sessions,
                dev,
                origin.dot(self.declared_pitch()) as usize,
            ),
            _ => sessions.contains_key(dev.id) && self.spec_map(
                sessions,
                dev,
                origin,
                row_pitch,
                slice_pitch,
            ).is_ok(),
        }
    }

    /// The address of the pixel `origin` in the window `tx` of a session
    /// opened for the image, with the pitches that the caller holds
    /// afterwards.
    pub open spec fn spec_map_opened(
        &self,
        tx: Transfer,
        origin: CLVec,
        row_pitch: usize,
        slice_pitch: usize,
    ) -> CLResult<(usize, usize, usize)> {
        let pitch = if self.spec_is_parent_buffer() {
            self.declared_pitch()
        } else {
            self.session_pitch(tx, row_pitch, slice_pitch)
        };
        match spec_ptr_add(tx.ptr, origin.dot(pitch)) {
            Ok(p) => Ok((p, pitch.y, pitch.z)),
            Err(e) => Err(e),
        }
    }

    /// How the data behind the first pointer installed on the image is
    /// brought up to date: an image with host memory of its own is read into
    /// it as a whole; else, where the session of `dev` has a shadow, the
    /// whole image is copied into the shadow; else nothing.
    pub open spec fn spec_sync(&self, sessions: Map<u64, MappingTransfer>, dev: Device)
        -> CLResult<SyncAction> {
        match self.base.spec_has_user_shadow_buffer(dev) {
            Err(e) => Err(e),
            Ok(true) => match self.spec_read(
                dev,
                self.image_desc.spec_size(),
                CLVec { x: 0, y: 0, z: 0 },
                self.image_desc.image_row_pitch,
                self.image_desc.image_slice_pitch,
            ) {
                Ok(plan) => Ok(SyncAction::ReadImage(plan)),
                Err(e) => Err(e),
            },
            Ok(false) => if sessions.contains_key(dev.id) && sessions[dev.id].shadow.is_some() {
                match self.image_desc.spec_bx() {
                    Ok(bx) => Ok(
                        SyncAction::Copy(
                            CopyRegion {
                                src: self.base.resources()[dev.id],
                                dst: sessions[dev.id].shadow.unwrap(),
                                dst_x: 0,
                                dst_y: 0,
                                dst_z: 0,
                                bx,
                            },
                        ),
                    ),
                    Err(e) => Err(e),
                }
            } else {
                Ok(SyncAction::Nothing)
            },
        }
    }

    /// How the data behind the last pointer released on the image is written
    /// back: where the session of `dev` has a shadow, the shadow is copied
    /// into the whole image; else an image with host memory of its own is
    /// written from it as a whole; else nothing.
    pub open spec fn spec_write_back(&self, sessions: Map<u64, MappingTransfer>, dev: Device)
        -> CLResult<WriteBack> {
        if sessions.contains_key(dev.id) && sessions[dev.id].shadow.is_some() {
            match (self.base.spec_res_of_dev(dev), self.image_desc.spec_bx()) {
                (Ok(res), Ok(bx)) => Ok(
                    WriteBack::Copy(
                        CopyRegion {
                            src: sessions[dev.id].shadow.unwrap(),
                            dst: res,
                            dst_x: 0,
                            dst_y: 0,
                            dst_z: 0,
                            bx,
                        },
                    ),
                ),
                _ => Err(MemError::OutOfHostMemory),
            }
        } else {
            match self.base.spec_has_user_shadow_buffer(dev) {
                Err(e) => Err(e),
                Ok(true) => match self.spec_write(
                    dev,
                    self.image_desc.spec_size(),
                    self.image_desc.image_row_pitch,
                    self.image_desc.image_slice_pitch,
                    CLVec { x: 0, y: 0, z: 0 },
                ) {
                    Ok(w) => Ok(WriteBack::WriteImage(w)),
                    Err(e) => Err(e),
                },
                Ok(false) => Ok(WriteBack::Nothing),
            }
        }
    }

    /// Maps the image for `dev` and returns the address of its pixel
    /// `origin`, by `spec_map`. Where the image is mapped, the caller's
    /// pitches become those of the mapping. `maps` is the mapping state of
    /// the object that holds the session: of the buffer that the image lies
    /// in, else of the image itself. It is held under that object's lock
    /// from here until `map_opened` has returned, where that is called.
    ///
    /// The session of `dev` is reserved once more iff the image is mapped
    /// through it. On an error, and where a session has yet to be opened,
    /// nothing changes.
    pub fn map(
        &self,
        maps: &mut Mappings,
        dev: &Device,
        origin: &CLVec,
        row_pitch: &mut usize,
        slice_pitch: &mut usize,
    ) -> (r: CLResult<MapStep>)
        requires
            old(maps).sessions().contains_key(dev.id) ==> old(maps).sessions()[dev.id].pending
                < u32::MAX,
        ensures
            final(maps).pointers() == old(maps).pointers(),
            match self.spec_map(
                old(maps).sessions(),
                *dev,
                *origin,
                *old(row_pitch),
                *old(slice_pitch),
            ) {
                Ok((step, row, slice)) => r == Ok::<MapStep, MemError>(step) && *final(row_pitch)
                    == row && *final(slice_pitch) == slice,
                Err(e) => r == Err::<MapStep, MemError>(e) && *final(row_pitch) == *old(row_pitch)
                    && *final(slice_pitch) == *old(slice_pitch),
            },
            final(maps).sessions() == (if self.spec_map_reserves(
                old(maps).sessions(),
                *dev,
                *origin,
                *old(row_pitch),
                *old(slice_pitch),
            ) {
                reserved(old(maps).sessions(), dev.id)
            } else {
                old(maps).sessions()
            }),
    {
        let declared = CLVec::new(
            self.pixel_size as usize,
            self.image_desc.image_row_pitch,
            self.image_desc.image_slice_pitch,
        );
        proof {
            lemma_dot_nonneg(*origin, declared);
        }
        if self.base.has_user_shadow_buffer(dev)? {
            let offset = CLVec::calc_offset(origin, &declared)?;
            let p = add_checked(self.base.host_ptr, offset)?;
            *row_pitch = declared.y;
            *slice_pitch = declared.z;
            return Ok(MapStep::Mapped(MutMemoryPtr::from_ptr(p)));
        }
        if let Some(Mem::Buffer(buffer)) = &self.base.parent {
            let offset = CLVec::calc_offset(origin, &declared)?;
            let step = buffer.map(maps, dev, offset)?;
            if let MapStep::Mapped(_) = step {
                *row_pitch = declared.y;
                *slice_pitch = declared.z;
            }
            return Ok(step);
        }
        match maps.session(dev) {
            Some(s) => {
                let pitch = self.pitch_in(&s.tx, *row_pitch, *slice_pitch);
                proof {
                    lemma_dot_nonneg(*origin, pitch);
                }
                let offset = CLVec::calc_offset(origin, &pitch)?;
                let p = add_checked(s.tx.ptr, offset)?;
                maps.mark_pending(dev);
                *row_pitch = pitch.y;
                *slice_pitch = pitch.z;
                Ok(MapStep::Mapped(MutMemoryPtr::from_ptr(p)))
            },
            None => {
                let bx = self.image_desc.bx()?;
                let plan = self.tx_raw_async(dev, &bx, RWFlags::RW)?;
                Ok(MapStep::Open(plan))
            },
        }
    }

    fn pitch_in(&self, tx: &Transfer, row_pitch: usize, slice_pitch: usize) -> (r: CLVec)
        ensures
            r == self.session_pitch(*tx, row_pitch, slice_pitch),
    {
        let dims = self.image_desc.dims();
        let row = if dims > 1 {
            tx.row_pitch as usize
        } else {
            row_pitch
        };
        let slice = if dims > 2 || self.image_desc.is_array() {
            tx.slice_pitch
        } else {
            slice_pitch
        };
        CLVec::new(self.pixel_size as usize, row, slice)
    }

    /// Installs the session that was opened for `dev` by the plan of `map`,
    /// reserved once, and returns the address of the pixel `origin` in its
    /// window, by `spec_map_opened`; the caller's pitches become those of
    /// the mapping. Fails iff there is no such address, and then nothing
    /// changes: the transfer goes back to the device.
    pub fn map_opened(
        &self,
        maps: &mut Mappings,
        dev: &Device,
        origin: &CLVec,
        row_pitch: &mut usize,
        slice_pitch: &mut usize,
        tx: Transfer,
        shadow: Option<Resource>,
    ) -> (r: CLResult<MutMemoryPtr>)
        requires
            !old(maps).sessions().contains_key(dev.id),
        ensures
            final(maps).pointers() == old(maps).pointers(),
            match self.spec_map_opened(tx, *origin, *old(row_pitch), *old(slice_pitch)) {
                Ok((p, row, slice)) => r == Ok::<MutMemoryPtr, MemError>(MutMemoryPtr { ptr: p })
                    && *final(row_pitch) == row
                    && *final(slice_pitch) == slice && final(maps).sessions() == old(
                    maps
                ).sessions().insert(dev.id, MappingTransfer { tx, shadow, pending: 1 }),
                Err(e) => r == Err::<MutMemoryPtr, MemError>(e) && *final(row_pitch) == *old(
                    row_pitch,
                )
                    && *final(slice_pitch) == *old(slice_pitch) && final(maps).sessions() == old(
                    maps
                ).sessions(),
            },
    {
        let pitch = if self.is_parent_buffer() {
            CLVec::new(
                self.pixel_size as usize,
                self.image_desc.image_row_pitch,
                self.image_desc.image_slice_pitch,
            )
        } else {
            self.pitch_in(&tx, *row_pitch, *slice_pitch)
        };
        proof {
            lemma_dot_nonneg(*origin, pitch);
        }
        let offset = CLVec::calc_offset(origin, &pitch)?;
        let p = add_checked(tx.ptr, offset)?;
        maps.open_session(dev, tx, shadow);
        *row_pitch = pitch.y;
        *slice_pitch = pitch.z;
        Ok(MutMemoryPtr::from_ptr(p))
    }

    /// Installs the pointer `ptr` that a map request on `dev` returned, in
    /// the image's own mapping state: takes a reference of it and settles
    /// one pending map request of `dev`. Says how the data behind the pointer
    /// is brought up to date: by `spec_sync` where no pointer of the image
    /// was mapped before, else not at all. On an error nothing changes.
    pub fn sync_shadow(&self, maps: &mut Mappings, dev: &Device, ptr: MutMemoryPtr) -> (r: CLResult<
        SyncAction,
    >)
        requires
            old(maps).ref_count(ptr.ptr) < u32::MAX,
            old(maps).sessions().contains_key(dev.id) ==> old(maps).sessions()[dev.id].pending
                > 0,
        ensures
            r == (if old(maps).pointers().dom().is_empty() {
                self.spec_sync(old(maps).sessions(), *dev)
            } else {
                Ok(SyncAction::Nothing)
            }),
            (final(maps).pointers(), final(maps).sessions()) == spec_installed(
                old(maps).pointers(),
                old(maps).sessions(),
                dev.id,
                ptr.ptr,
                r,
            ),
    {
        let action = if maps.is_unmapped() {
            if self.base.has_user_shadow_buffer(dev)? {
                SyncAction::ReadImage(
                    self.read(
                        dev,
                        &self.image_desc.size(),
                        &CLVec::zero(),
                        self.image_desc.image_row_pitch,
                        self.image_desc.image_slice_pitch,
                    )?,
                )
            } else {
                let shadow = match maps.session(dev) {
                    Some(s) => s.shadow,
                    None => None,
                };
                match shadow {
                    Some(shadow) => {
                        let res = self.base.get_res_of_dev(dev)?;
                        let bx = self.image_desc.bx()?;
                        SyncAction::Copy(
                            CopyRegion { src: res, dst: shadow, dst_x: 0, dst_y: 0, dst_z: 0, bx },
                        )
                    },
                    None => SyncAction::Nothing,
                }
            }
        } else {
            SyncAction::Nothing
        };
        maps.increase_ref(dev, ptr.ptr);
        Ok(action)
    }

    /// Releases one reference of the mapped pointer `ptr` in the image's own
    /// mapping state, and says what is left to do, by `spec_unmap`: the
    /// write-back of the image, where this was the last reference of its
    /// last mapped pointer, and the transfer to hand back, where the session
    /// of `dev` is idle afterwards and has been destroyed.
    pub fn unmap(&self, maps: &mut Mappings, dev: &Device, ptr: MutMemoryPtr) -> (r: CLResult<UnmapPlan>)
        ensures
            (r, final(maps).pointers(), final(maps).sessions()) == spec_unmap(
                old(maps).pointers(),
                old(maps).sessions(),
                dev.id,
                ptr.ptr,
                self.spec_write_back(old(maps).sessions(), *dev),
            ),
    {
        if !maps.contains_ptr(ptr.ptr) {
            return Ok(UnmapPlan { write_back: WriteBack::Nothing, retire: None });
        }
        let write_back = if maps.is_last_reference(ptr.ptr) {
            let shadow = match maps.session(dev) {
                Some(s) => s.shadow,
                None => None,
            };
            match shadow {
                Some(shadow) => {
                    let res = self.base.get_res_of_dev(dev)?;
                    let bx = self.image_desc.bx()?;
                    WriteBack::Copy(
                        CopyRegion { src: shadow, dst: res, dst_x: 0, dst_y: 0, dst_z: 0, bx },
                    )
                },
                None => {
                    if self.base.has_user_shadow_buffer(dev)? {
                        WriteBack::WriteImage(
                            self.write(
                                dev,
                                &self.image_desc.size(),
                                self.image_desc.image_row_pitch,
                                self.image_desc.image_slice_pitch,
                                &CLVec::zero(),
                            )?,
                        )
                    } else {
                        WriteBack::Nothing
                    }
                },
            }
        } else {
            WriteBack::Nothing
        };
        maps.decrease_ref(ptr.ptr, dev);
        let retire = maps.clean_up_tx(dev);
        Ok(UnmapPlan { write_back, retire })
    }
}

/// The offset of a point is not negative.
pub proof fn lemma_dot_nonneg(point: CLVec, pitch: CLVec)
    ensures
        point.dot(pitch) >= 0,
{
    crate::types::lemma_mul_nonneg(point.x as int, pitch.x as int);
    crate::types::lemma_mul_nonneg(point.y as int, pitch.y as int);
    crate::types::lemma_mul_nonneg(point.z as int, pitch.z as int);
}

impl Mem {
    /// Releases one reference of the mapped pointer `ptr` of the object, as
    /// the buffer or the image that it is.
    pub fn unmap(&self, maps: &mut Mappings, dev: &Device, ptr: MutMemoryPtr) -> (r: CLResult<UnmapPlan>)
        ensures
            (r, final(maps).pointers(), final(maps).sessions()) == spec_unmap(
                old(maps).pointers(),
                old(maps).sessions(),
                dev.id,
                ptr.ptr,
                match self {
                    Mem::Buffer(b) => b.spec_write_back(old(maps).sessions(), *dev),
                    Mem::Image(i) => i.spec_write_back(old(maps).sessions(), *dev),
                },
            ),
    {
        match self {
            Mem::Buffer(b) => b.unmap(maps, dev, ptr),
            Mem::Image(i) => i.unmap(maps, dev, ptr),
        }
    }
}

impl Buffer {
    /// Plans a copy of pixels that lie densely in the buffer from byte
    /// `src_offset` on to a region of `dst`: in software, between a window
    /// onto the bytes of the buffer and a window onto the region of the
    /// image.
    pub fn copy_to_image(
        &self,
        dev: &Device,
        dst: &Image,
        src_offset: usize,
        dst_origin: CLVec,
        region: &CLVec,
    ) -> (r: CLResult<SwCopyPlan>)
        ensures
            r == (match spec_dense_pitch(dst.pixel_size, *region) {
                Ok(pitch) => if region.has_span(pitch) {
                    match (
                        self.spec_tx(*dev, src_offset, region.span(pitch) as usize, RWFlags::RD),
                        dst.spec_region_window(
                            *dev,
                            dst_origin,
                            *region,
                            dst.base.mem_type,
                            RWFlags::WR,
                            true,
                        ),
                    ) {
                        (Ok(s), Ok(d)) => Ok(
                            SwCopyPlan {
                                src: Window::Buffer(s),
                                dst: d.window,
                                copy: SwCopy {
                                    region: *region,
                                    src_origin: CLVec { x: 0, y: 0, z: 0 },
                                    src_row_pitch: pitch.y,
                                    src_slice_pitch: pitch.z,
                                    dst_origin: CLVec { x: 0, y: 0, z: 0 },
                                    dst_row_pitch: d.row_pitch,
                                    dst_slice_pitch: d.slice_pitch,
                                    pixel_size: dst.pixel_size,
                                },
                                src_pitch_of_transfer: false,
                                dst_pitch_of_transfer: d.pitch_of_transfer,
                            },
                        ),
                        _ => Err(MemError::OutOfHostMemory),
                    }
                } else {
                    Err(MemError::OutOfHostMemory)
                },
                Err(e) => Err(e),
            }),
    {
        let pitch = dense_pitch(dst.pixel_size, region)?;
        let size = CLVec::calc_size(region, &pitch)?;
        let s = self.tx(dev, src_offset, size, RWFlags::RD)?;
        let d = dst.region_window(dev, &dst_origin, region, dst.base.mem_type, RWFlags::WR, true)?;
        Ok(
            SwCopyPlan {
                src: Window::Buffer(s),
                dst: d.window,
                copy: SwCopy {
                    region: *region,
                    src_origin: CLVec::zero(),
                    src_row_pitch: pitch.y,
                    src_slice_pitch: pitch.z,
                    dst_origin: CLVec::zero(),
                    dst_row_pitch: d.row_pitch,
                    dst_slice_pitch: d.slice_pitch,
                    pixel_size: dst.pixel_size,
                },
                src_pitch_of_transfer: false,
                dst_pitch_of_transfer: d.pitch_of_transfer,
            },
        )
    }
}

} // verus!
