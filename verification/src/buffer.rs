use crate::copy::SwCopy;
use crate::mappings::{idle, installed, released, reserved, settled, MappingTransfer, Mappings};
use crate::memory::{Buffer, MemBase};
use crate::pipe::{MutMemoryPtr, 
    create_pipe_box, spec_pipe_box, to_i32, to_u32, Device, MemType, RWFlags, Resource, Transfer,
};
use crate::placement::{choose_strategy, spec_choose_strategy};
use crate::plan::{
    spec_installed, spec_unmap, BufferMap, BufferSubdata, ClearBuffer, CopyRegion, MapRegion,
    MapStep, SessionPlan, ShadowRequest, SwCopyPlan, SyncAction, UnmapPlan, Window, WriteBack,
};
use crate::types::{add_checked, CLResult, CLVec, MemError};
use vstd::prelude::*;

verus! {

/// The pitches of a span of bytes with the given distances between rows and
/// between slices.
pub open spec fn byte_pitch(row_pitch: usize, slice_pitch: usize) -> CLVec {
    CLVec { x: 1, y: row_pitch, z: slice_pitch }
}

/// The copy that a rectangular transfer of bytes runs once its windows are
/// open.
pub open spec fn byte_copy(
    region: CLVec,
    src_origin: CLVec,
    src_row_pitch: usize,
    src_slice_pitch: usize,
    dst_origin: CLVec,
    dst_row_pitch: usize,
    dst_slice_pitch: usize,
) -> SwCopy {
    SwCopy {
        region,
        src_origin,
        src_row_pitch,
        src_slice_pitch,
        dst_origin,
        dst_row_pitch,
        dst_slice_pitch,
        pixel_size: 1,
    }
}

/// The address `offset` bytes after `ptr`, where there is one.
pub open spec fn spec_ptr_add(ptr: usize, offset: int) -> CLResult<usize> {
    if 0 <= ptr + offset <= usize::MAX {
        Ok((ptr + offset) as usize)
    } else {
        Err(MemError::OutOfHostMemory)
    }
}

impl Buffer {
    /// The offset `offset` of the buffer as an offset in the allocation of
    /// its root.
    pub open spec fn spec_apply_offset(&self, offset: usize) -> CLResult<usize> {
        if self.offset + offset <= usize::MAX {
            Ok((self.offset + offset) as usize)
        } else {
            Err(MemError::OutOfHostMemory)
        }
    }

    /// The window onto the `size` bytes of the buffer from `offset` on: a
    /// window onto the root's resource on `dev`, at the buffer's own offset
    /// plus `offset`. There is none iff the root has no resource on `dev` or
    /// the offset or the size leaves the 31 bits that the device takes.
    pub open spec fn spec_tx(&self, dev: Device, offset: usize, size: usize, rw: RWFlags)
        -> CLResult<BufferMap> {
        if self.offset + offset <= i32::MAX && size <= i32::MAX
            && self.base.resources().contains_key(dev.id) {
            Ok(
                BufferMap {
                    res: self.base.resources()[dev.id],
                    offset: (self.offset + offset) as i32,
                    size: size as i32,
                    rw,
                },
            )
        } else {
            Err(MemError::OutOfHostMemory)
        }
    }

    /// The window onto the region `region` at `origin` of the buffer, seen as
    /// rows and slices with the pitches `pitch`: from the first byte of the
    /// region to the last.
    pub open spec fn spec_window(
        &self,
        dev: Device,
        origin: CLVec,
        region: CLVec,
        pitch: CLVec,
        rw: RWFlags,
    ) -> CLResult<BufferMap> {
        match CLVec::spec_offset_size(origin, region, pitch) {
            Ok((offset, size)) => self.spec_tx(dev, offset, size, rw),
            Err(e) => Err(e),
        }
    }

    /// The upload of `size` bytes to the buffer at `offset`.
    pub open spec fn spec_write(&self, dev: Device, offset: usize, size: usize) -> CLResult<
        BufferSubdata,
    > {
        if self.offset + offset <= u32::MAX && size <= u32::MAX
            && self.base.resources().contains_key(dev.id) {
            Ok(
                BufferSubdata {
                    res: self.base.resources()[dev.id],
                    offset: (self.offset + offset) as u32,
                    size: size as u32,
                },
            )
        } else {
            Err(MemError::OutOfHostMemory)
        }
    }

    /// What it takes to open the session of `dev` on the buffer: a window
    /// onto all of the buffer, directly or through a staging buffer of its
    /// size.
    pub open spec fn spec_tx_raw_async(&self, dev: Device, rw: RWFlags) -> CLResult<SessionPlan> {
        if self.base.resources().contains_key(dev.id) && self.offset <= i32::MAX && self.base.size
            <= i32::MAX {
            Ok(
                SessionPlan {
                    res: self.base.resources()[dev.id],
                    strategy: spec_choose_strategy(dev, self.base.resources()[dev.id]),
                    region: MapRegion::Buffer {
                        offset: self.offset as i32,
                        size: self.base.size as i32,
                    },
                    shadow: ShadowRequest::Buffer { size: self.base.size as u32 },
                    rw,
                },
            )
        } else {
            Err(MemError::OutOfHostMemory)
        }
    }

    /// How the data behind the first pointer installed on the buffer is
    /// brought up to date: a buffer with host memory of its own is read into
    /// it as a whole; else, where the session of `dev` has a shadow, the
    /// range of the buffer is copied into the shadow; else nothing.
    pub open spec fn spec_sync(&self, sessions: Map<u64, MappingTransfer>, dev: Device)
        -> CLResult<SyncAction> {
        match self.base.spec_has_user_shadow_buffer(dev) {
            Err(e) => Err(e),
            Ok(true) => match self.spec_tx(dev, 0, self.base.size, RWFlags::RD) {
                Ok(m) => Ok(SyncAction::ReadBuffer(m)),
                Err(e) => Err(e),
            },
            Ok(false) => if sessions.contains_key(dev.id) && sessions[dev.id].shadow.is_some() {
                match spec_pipe_box(
                    CLVec { x: self.offset, y: 0, z: 0 },
                    CLVec { x: self.base.size, y: 1, z: 1 },
                    MemType::Buffer,
                ) {
                    Ok(bx) => Ok(
                        SyncAction::Copy(
                            CopyRegion {
                                src: self.base.resources()[dev.id],
                                dst: sessions[dev.id].shadow.unwrap(),
                                dst_x: 0,
                                dst_y: 0,
                                dst_z: 0,
                                bx,
                            },
                        ),
                    ),
                    Err(e) => Err(e),
                }
            } else {
                Ok(SyncAction::Nothing)
            },
        }
    }

    /// How the data behind the last pointer released on the buffer is written
    /// back: where the session of `dev` has a shadow, the shadow is copied
    /// into the range of the buffer; else a buffer with host memory of its
    /// own is written from it as a whole; else nothing.
    pub open spec fn spec_write_back(&self, sessions: Map<u64, MappingTransfer>, dev: Device)
        -> CLResult<WriteBack> {
        if sessions.contains_key(dev.id) && sessions[dev.id].shadow.is_some() {
            if self.base.resources().contains_key(dev.id) && self.offset <= u32::MAX
                && self.base.size <= i32::MAX {
                Ok(
                    WriteBack::Copy(
                        CopyRegion {
                            src: sessions[dev.id].shadow.unwrap(),
                            dst: self.base.resources()[dev.id],
                            dst_x: self.offset as u32,
                            dst_y: 0,
                            dst_z: 0,
                            bx: spec_pipe_box(
                                CLVec { x: 0, y: 0, z: 0 },
                                CLVec { x: self.base.size, y: 1, z: 1 },
                                MemType::Buffer,
                            ).unwrap(),
                        },
                    ),
                )
            } else {
                Err(MemError::OutOfHostMemory)
            }
        } else {
            match self.base.spec_has_user_shadow_buffer(dev) {
                Err(e) => Err(e),
                Ok(true) => match self.spec_write(dev, 0, self.base.size) {
                    Ok(w) => Ok(WriteBack::WriteBuffer(w)),
                    Err(e) => Err(e),
                },
                Ok(false) => Ok(WriteBack::Nothing),
            }
        }
    }

    /// What a map request for `dev` at `offset` returns. A buffer with host
    /// memory of its own is mapped there. Else the address lies in the window
    /// of the session of `dev`; where `dev` has no session yet, the plan to
    /// open one is returned.
    pub open spec fn spec_map(&self, sessions: Map<u64, MappingTransfer>, dev: Device, offset: usize)
        -> CLResult<MapStep> {
        match self.base.spec_has_user_shadow_buffer(dev) {
            Err(e) => Err(e),
            Ok(true) => match spec_ptr_add(self.base.host_ptr, offset as int) {
                Ok(p) => Ok(MapStep::Mapped(MutMemoryPtr { ptr: p })),
                Err(e) => Err(e),
            },
            Ok(false) => if sessions.contains_key(dev.id) {
                match spec_ptr_add(sessions[dev.id].tx.ptr, offset as int) {
                    Ok(p) => Ok(MapStep::Mapped(MutMemoryPtr { ptr: p })),
                    Err(e) => Err(e),
                }
            } else {
                match self.spec_tx_raw_async(dev, RWFlags::RW) {
                    Ok(plan) => Ok(MapStep::Open(plan)),
                    Err(e) => Err(e),
                }
            },
        }
    }

    /// Whether a map request for `dev` at `offset` reserves the session of
    /// `dev`: iff it succeeds in mapping the buffer through that session.
    pub open spec fn spec_map_reserves(
        &self,
        sessions: Map<u64, MappingTransfer>,
        dev: Device,
        offset: usize,
    ) -> bool {
        self.spec_map(sessions, dev, offset).is_ok() && self.base.spec_has_user_shadow_buffer(dev)
            == Ok::<bool, MemError>(false) && sessions.contains_key(dev.id)
    }

    /// The copy on the device of `size` bytes of the buffer from `src_offset`
    /// on to `dst` at `dst_offset`, between the resources of the two roots,
    /// with the offset of each buffer added to its side once. There is none
    /// iff a root has no resource on `dev` or an offset or the size leaves
    /// the width that the device takes.
    pub open spec fn spec_copy_to_buffer(
        &self,
        dev: Device,
        dst: Buffer,
        src_offset: usize,
        dst_offset: usize,
        size: usize,
    ) -> CLResult<CopyRegion> {
        if self.offset + src_offset <= i32::MAX && size <= i32::MAX && dst.offset + dst_offset
            <= u32::MAX && self.base.resources().contains_key(dev.id)
            && dst.base.resources().contains_key(dev.id) {
            Ok(
                CopyRegion {
                    src: self.base.resources()[dev.id],
                    dst: dst.base.resources()[dev.id],
                    dst_x: (dst.offset + dst_offset) as u32,
                    dst_y: 0,
                    dst_z: 0,
                    bx: crate::pipe::PipeBox {
                        x: (self.offset + src_offset) as i32,
                        y: 0,
                        z: 0,
                        width: size as i32,
                        height: 1,
                        depth: 1,
                    },
                },
            )
        } else {
            Err(MemError::OutOfHostMemory)
        }
    }

    /// Fails iff the sum leaves the machine word.
    pub fn apply_offset(&self, offset: usize) -> (r: CLResult<usize>)
        ensures
            r == self.spec_apply_offset(offset),
    {
        add_checked(self.offset, offset)
    }

    /// Plans a window onto `size` bytes of the buffer from `offset` on, open
    /// for the length of one operation.
    pub fn tx(&self, dev: &Device, offset: usize, size: usize, rw: RWFlags) -> (r: CLResult<
        BufferMap,
    >)
        ensures
            r == self.spec_tx(*dev, offset, size, rw),
    {
        let offset = self.apply_offset(offset)?;
        let res = self.base.get_res_of_dev(dev)?;
        Ok(BufferMap { res, offset: to_i32(offset)?, size: to_i32(size)?, rw })
    }

    /// Plans a window onto a region of the buffer.
    pub fn tx_region(
        &self,
        dev: &Device,
        origin: &CLVec,
        region: &CLVec,
        pitch: &CLVec,
        rw: RWFlags,
    ) -> (r: CLResult<BufferMap>)
        ensures
            r == self.spec_window(*dev, *origin, *region, *pitch, rw),
    {
        let (offset, size) = CLVec::calc_offset_size(origin, region, pitch)?;
        self.tx(dev, offset, size, rw)
    }

    /// Plans a copy of a region of the buffer into a region of `dst`: in
    /// software, between a window onto each region, each starting at the
    /// region's first byte.
    pub fn copy_rect(
        &self,
        dst: &Buffer,
        dev: &Device,
        region: &CLVec,
        src_origin: &CLVec,
        src_row_pitch: usize,
        src_slice_pitch: usize,
        dst_origin: &CLVec,
        dst_row_pitch: usize,
        dst_slice_pitch: usize,
    ) -> (r: CLResult<SwCopyPlan>)
        ensures
            r == (match (
                self.spec_window(
                    *dev,
                    *src_origin,
                    *region,
                    byte_pitch(src_row_pitch, src_slice_pitch),
                    RWFlags::RD,
                ),
                dst.spec_window(
                    *dev,
                    *dst_origin,
                    *region,
                    byte_pitch(dst_row_pitch, dst_slice_pitch),
                    RWFlags::WR,
                ),
            ) {
                (Ok(s), Ok(d)) => Ok(
                    SwCopyPlan {
                        src: Window::Buffer(s),
                        dst: Window::Buffer(d),
                        copy: byte_copy(
                            *region,
                            CLVec { x: 0, y: 0, z: 0 },
                            src_row_pitch,
                            src_slice_pitch,
                            CLVec { x: 0, y: 0, z: 0 },
                            dst_row_pitch,
                            dst_slice_pitch,
                        ),
                        src_pitch_of_transfer: false,
                        dst_pitch_of_transfer: false,
                    },
                ),
                _ => Err(MemError::OutOfHostMemory),
            }),
    {
        let src = self.tx_region(
            dev,
            src_origin,
            region,
            &CLVec::new(1, src_row_pitch, src_slice_pitch),
            RWFlags::RD,
        )?;
        let dst = dst.tx_region(
            dev,
            dst_origin,
            region,
            &CLVec::new(1, dst_row_pitch, dst_slice_pitch),
            RWFlags::WR,
        )?;
        Ok(
            SwCopyPlan {
                src: Window::Buffer(src),
                dst: Window::Buffer(dst),
                copy: SwCopy {
                    region: *region,
                    src_origin: CLVec::zero(),
                    src_row_pitch,
                    src_slice_pitch,
                    dst_origin: CLVec::zero(),
                    dst_row_pitch,
                    dst_slice_pitch,
                    pixel_size: 1,
                },
                src_pitch_of_transfer: false,
                dst_pitch_of_transfer: false,
            },
        )
    }

    /// Plans a copy of `size` bytes of the buffer from `src_offset` on to
    /// `dst` at `dst_offset`: one copy on the device.
    pub fn copy_to_buffer(
        &self,
        dev: &Device,
        dst: &Buffer,
        src_offset: usize,
        dst_offset: usize,
        size: usize,
    ) -> (r: CLResult<CopyRegion>)
        ensures
            r == self.spec_copy_to_buffer(*dev, *dst, src_offset, dst_offset, size),
    {
        let src_offset = self.apply_offset(src_offset)?;
        let dst_offset = dst.apply_offset(dst_offset)?;
        let src_res = self.base.get_res_of_dev(dev)?;
        let dst_res = dst.base.get_res_of_dev(dev)?;
        let bx = create_pipe_box(
            CLVec::new(src_offset, 0, 0),
            CLVec::new(size, 1, 1),
            MemType::Buffer,
        )?;
        let dst_x = to_u32(dst_offset)?;
        Ok(CopyRegion { src: src_res, dst: dst_res, dst_x, dst_y: 0, dst_z: 0, bx })
    }

    /// Plans a fill of `size` bytes of the buffer from `offset` on: one clear
    /// on the device. Fails iff the root has no resource on `dev` or the
    /// offset or the size leaves 32 bits.
    pub fn fill(&self, dev: &Device, offset: usize, size: usize) -> (r: CLResult<ClearBuffer>)
        ensures
            r == (if self.offset + offset <= u32::MAX && size <= u32::MAX
                && self.base.resources().contains_key(dev.id) {
                Ok::<ClearBuffer, MemError>(
                    ClearBuffer {
                        res: self.base.resources()[dev.id],
                        offset: (self.offset + offset) as u32,
                        size: size as u32,
                    },
                )
            } else {
                Err(MemError::OutOfHostMemory)
            }),
    {
        let offset = self.apply_offset(offset)?;
        let res = self.base.get_res_of_dev(dev)?;
        Ok(ClearBuffer { res, offset: to_u32(offset)?, size: to_u32(size)? })
    }

    /// Plans a read of `size` bytes of the buffer from `offset` on: a window
    /// onto exactly these bytes, whose content is then copied out.
    pub fn read(&self, dev: &Device, offset: usize, size: usize) -> (r: CLResult<BufferMap>)
        ensures
            r == self.spec_tx(*dev, offset, size, RWFlags::RD),
    {
        self.tx(dev, offset, size, RWFlags::RD)
    }

    /// Plans a read of a region of the buffer into host memory: a window
    /// onto the region, starting at its first byte, and a copy in software
    /// to `dst_origin` of the host memory.
    pub fn read_rect(
        &self,
        dev: &Device,
        region: &CLVec,
        src_origin: &CLVec,
        src_row_pitch: usize,
        src_slice_pitch: usize,
        dst_origin: &CLVec,
        dst_row_pitch: usize,
        dst_slice_pitch: usize,
    ) -> (r: CLResult<SwCopyPlan>)
        ensures
            r == (match self.spec_window(
                *dev,
                *src_origin,
                *region,
                byte_pitch(src_row_pitch, src_slice_pitch),
                RWFlags::RD,
            ) {
                Ok(s) => Ok(
                    SwCopyPlan {
                        src: Window::Buffer(s),
                        dst: Window::Host,
                        copy: byte_copy(
                            *region,
                            CLVec { x: 0, y: 0, z: 0 },
                            src_row_pitch,
                            src_slice_pitch,
                            *dst_origin,
                            dst_row_pitch,
                            dst_slice_pitch,
                        ),
                        src_pitch_of_transfer: false,
                        dst_pitch_of_transfer: false,
                    },
                ),
                Err(e) => Err(e),
            }),
    {
        let src = self.tx_region(
            dev,
            src_origin,
            region,
            &CLVec::new(1, src_row_pitch, src_slice_pitch),
            RWFlags::RD,
        )?;
        Ok(
            SwCopyPlan {
                src: Window::Buffer(src),
                dst: Window::Host,
                copy: SwCopy {
                    region: *region,
                    src_origin: CLVec::zero(),
                    src_row_pitch,
                    src_slice_pitch,
                    dst_origin: *dst_origin,
                    dst_row_pitch,
                    dst_slice_pitch,
                    pixel_size: 1,
                },
                src_pitch_of_transfer: false,
                dst_pitch_of_transfer: false,
            },
        )
    }

    /// Plans a write of `size` bytes of host memory to the buffer at
    /// `offset`: one upload by the device. Fails iff the root has no resource
    /// on `dev` or the offset or the size leaves 32 bits.
    pub fn write(&self, dev: &Device, offset: usize, size: usize) -> (r: CLResult<BufferSubdata>)
        ensures
            r == self.spec_write(*dev, offset, size),
    {
        let offset = self.apply_offset(offset)?;
        let res = self.base.get_res_of_dev(dev)?;
        Ok(BufferSubdata { res, offset: to_u32(offset)?, size: to_u32(size)? })
    }

    /// Plans a write of a region of host memory to a region of the buffer: a
    /// window onto the region, starting at its first byte, and a copy in
    /// software from `src_origin` of the host memory.
    pub fn write_rect(
        &self,
        dev: &Device,
        region: &CLVec,
        src_origin: &CLVec,
        src_row_pitch: usize,
        src_slice_pitch: usize,
        dst_origin: &CLVec,
        dst_row_pitch: usize,
        dst_slice_pitch: usize,
    ) -> (r: CLResult<SwCopyPlan>)
        ensures
            r == (match self.spec_window(
                *dev,
                *dst_origin,
                *region,
                byte_pitch(dst_row_pitch, dst_slice_pitch),
                RWFlags::WR,
            ) {
                Ok(d) => Ok(
                    SwCopyPlan {
                        src: Window::Host,
                        dst: Window::Buffer(d),
                        copy: byte_copy(
                            *region,
                            *src_origin,
                            src_row_pitch,
                            src_slice_pitch,
                            CLVec { x: 0, y: 0, z: 0 },
                            dst_row_pitch,
                            dst_slice_pitch,
                        ),
                        src_pitch_of_transfer: false,
                        dst_pitch_of_transfer: false,
                    },
                ),
                Err(e) => Err(e),
            }),
    {
        let dst = self.tx_region(
            dev,
            dst_origin,
            region,
            &CLVec::new(1, dst_row_pitch, dst_slice_pitch),
            RWFlags::WR,
        )?;
        Ok(
            SwCopyPlan {
                src: Window::Host,
                dst: Window::Buffer(dst),
                copy: SwCopy {
                    region: *region,
                    src_origin: *src_origin,
                    src_row_pitch,
                    src_slice_pitch,
                    dst_origin: CLVec::zero(),
                    dst_row_pitch,
                    dst_slice_pitch,
                    pixel_size: 1,
                },
                src_pitch_of_transfer: false,
                dst_pitch_of_transfer: false,
            },
        )
    }

    /// Plans the opening of the session of `dev` on the buffer. Fails iff the
    /// root has no resource on `dev` or the offset or the size of the buffer
    /// leaves the 31 bits that the device takes.
    pub fn tx_raw_async(&self, dev: &Device, rw: RWFlags) -> (r: CLResult<SessionPlan>)
        ensures
            r == self.spec_tx_raw_async(*dev, rw),
    {
        let res = self.base.get_res_of_dev(dev)?;
        let offset = to_i32(self.offset)?;
        let size = to_i32(self.base.size)?;
        Ok(
            SessionPlan {
                res,
                strategy: choose_strategy(dev, &res),
                region: MapRegion::Buffer { offset, size },
                shadow: ShadowRequest::Buffer { size: size as u32 },
                rw,
            },
        )
    }

    /// Maps the buffer for `dev` and returns the address of its byte
    /// `offset`. `maps` is the mapping state of the buffer, held under its
    /// lock from here until `map_opened` has returned, where that is called.
    ///
    /// A buffer with host memory of its own is mapped there, without a
    /// session. Else the session of `dev` is reserved once more and the
    /// address lies in its window; where `dev` has no session yet, nothing
    /// changes and the plan to open one is returned. On an error nothing
    /// changes.
    pub fn map(&self, maps: &mut Mappings, dev: &Device, offset: usize) -> (r: CLResult<MapStep>)
        requires
            old(maps).sessions().contains_key(dev.id) ==> old(maps).sessions()[dev.id].pending
                < u32::MAX,
        ensures
            final(maps).pointers() == old(maps).pointers(),
            r == self.spec_map(old(maps).sessions(), *dev, offset),
            final(maps).sessions() == (if self.spec_map_reserves(
                old(maps).sessions(),
                *dev,
                offset,
            ) {
                reserved(old(maps).sessions(), dev.id)
            } else {
                old(maps).sessions()
            }),
    {
        if self.base.has_user_shadow_buffer(dev)? {
            let p = add_checked(self.base.host_ptr, offset)?;
            return Ok(MapStep::Mapped(MutMemoryPtr::from_ptr(p)));
        }
        match maps.session(dev) {
            Some(s) => {
                let p = add_checked(s.tx.ptr, offset)?;
                maps.mark_pending(dev);
                Ok(MapStep::Mapped(MutMemoryPtr::from_ptr(p)))
            },
            None => {
                let plan = self.tx_raw_async(dev, RWFlags::RW)?;
                Ok(MapStep::Open(plan))
            },
        }
    }

    /// Installs the session that was opened for `dev` by the plan of `map`,
    /// reserved once, and returns the address of byte `offset` of the buffer
    /// in its window. Fails iff there is no such address, and then nothing
    /// changes: the transfer goes back to the device.
    pub fn map_opened(
        &self,
        maps: &mut Mappings,
        dev: &Device,
        offset: usize,
        tx: Transfer,
        shadow: Option<Resource>,
    ) -> (r: CLResult<MutMemoryPtr>)
        requires
            !old(maps).sessions().contains_key(dev.id),
        ensures
            r == (match spec_ptr_add(tx.ptr, offset as int) {
                Ok(p) => Ok(MutMemoryPtr { ptr: p }),
                Err(e) => Err(e),
            }),
            final(maps).pointers() == old(maps).pointers(),
            final(maps).sessions() == (if r.is_ok() {
                old(maps).sessions().insert(dev.id, MappingTransfer { tx, shadow, pending: 1 })
            } else {
                old(maps).sessions()
            }),
    {
        let p = add_checked(tx.ptr, offset)?;
        maps.open_session(dev, tx, shadow);
        Ok(MutMemoryPtr::from_ptr(p))
    }

    /// Installs the pointer `ptr` that a map request on `dev` returned: takes
    /// a reference of it and settles one pending map request of `dev`. Says
    /// how the data behind the pointer is brought up to date: by `spec_sync`
    /// where no pointer of the buffer was mapped before, else not at all. On
    /// an error nothing changes.
    pub fn sync_shadow(&self, maps: &mut Mappings, dev: &Device, ptr: MutMemoryPtr) -> (r: CLResult<
        SyncAction,
    >)
        requires
            old(maps).ref_count(ptr.ptr) < u32::MAX,
            old(maps).sessions().contains_key(dev.id) ==> old(maps).sessions()[dev.id].pending
                > 0,
        ensures
            r == (if old(maps).pointers().dom().is_empty() {
                self.spec_sync(old(maps).sessions(), *dev)
            } else {
                Ok(SyncAction::Nothing)
            }),
            (final(maps).pointers(), final(maps).sessions()) == spec_installed(
                old(maps).pointers(),
                old(maps).sessions(),
                dev.id,
                ptr.ptr,
                r,
            ),
    {
        let action = if maps.is_unmapped() {
            if self.base.has_user_shadow_buffer(dev)? {
                SyncAction::ReadBuffer(self.tx(dev, 0, self.base.size, RWFlags::RD)?)
            } else {
                let shadow = match maps.session(dev) {
                    Some(s) => s.shadow,
                    None => None,
                };
                match shadow {
                    Some(shadow) => {
                        let res = self.base.get_res_of_dev(dev)?;
                        let bx = create_pipe_box(
                            CLVec::new(self.offset, 0, 0),
                            CLVec::new(self.base.size, 1, 1),
                            MemType::Buffer,
                        )?;
                        SyncAction::Copy(
                            CopyRegion { src: res, dst: shadow, dst_x: 0, dst_y: 0, dst_z: 0, bx },
                        )
                    },
                    None => SyncAction::Nothing,
                }
            }
        } else {
            SyncAction::Nothing
        };
        maps.increase_ref(dev, ptr.ptr);
        Ok(action)
    }

    /// Releases one reference of the mapped pointer `ptr`, and says what is
    /// left to do, by `spec_unmap`: the write-back of the buffer, where this
    /// was the last reference of its last mapped pointer, and the transfer to
    /// hand back, where the session of `dev` is idle afterwards and has been
    /// destroyed.
    pub fn unmap(&self, maps: &mut Mappings, dev: &Device, ptr: MutMemoryPtr) -> (r: CLResult<UnmapPlan>)
        ensures
            (r, final(maps).pointers(), final(maps).sessions()) == spec_unmap(
                old(maps).pointers(),
                old(maps).sessions(),
                dev.id,
                ptr.ptr,
                self.spec_write_back(old(maps).sessions(), *dev),
            ),
    {
        if !maps.contains_ptr(ptr.ptr) {
            return Ok(UnmapPlan { write_back: WriteBack::Nothing, retire: None });
        }
        let write_back = if maps.is_last_reference(ptr.ptr) {
            let shadow = match maps.session(dev) {
                Some(s) => s.shadow,
                None => None,
            };
            match shadow {
                Some(shadow) => {
                    let res = self.base.get_res_of_dev(dev)?;
                    let offset = to_u32(self.offset)?;
                    let bx = create_pipe_box(
                        CLVec::zero(),
                        CLVec::new(self.base.size, 1, 1),
                        MemType::Buffer,
                    )?;
                    WriteBack::Copy(
                        CopyRegion { src: shadow, dst: res, dst_x: offset, dst_y: 0, dst_z: 0, bx },
                    )
                },
                None => {
                    if self.base.has_user_shadow_buffer(dev)? {
                        WriteBack::WriteBuffer(self.write(dev, 0, self.base.size)?)
                    } else {
                        WriteBack::Nothing
                    }
                },
            }
        } else {
            WriteBack::Nothing
        };
        maps.decrease_ref(ptr.ptr, dev);
        let retire = maps.clean_up_tx(dev);
        Ok(UnmapPlan { write_back, retire })
    }
}

impl MemBase {
    /// Whether `ptr` is a mapped pointer of the object whose mapping state
    /// is `maps`.
    pub fn is_mapped_ptr(&self, maps: &Mappings, ptr: usize) -> (r: bool)
        ensures
            r == maps.pointers().contains_key(ptr),
    {
        maps.contains_ptr(ptr)
    }
}

} // verus!
