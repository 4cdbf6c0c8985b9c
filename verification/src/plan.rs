use crate::copy::SwCopy;
use crate::mappings::{idle, released, MappingTransfer};
use crate::pipe::{ImageType, MutMemoryPtr, PipeBox, RWFlags, Resource, Transfer};
use crate::placement::Strategy;
use crate::types::{CLResult, CLVec, MemError};
use vstd::prelude::*;

verus! {

/// A window onto a range of a buffer resource, to be opened by the device.
#[derive(Clone, Copy, Debug, PartialEq, Eq, Structural)]
pub struct BufferMap {
    pub res: Resource,
    pub offset: i32,
    pub size: i32,
    pub rw: RWFlags,
}

/// A window onto a box of a texture resource, to be opened by the device.
#[derive(Clone, Copy, Debug, PartialEq, Eq, Structural)]
pub struct TextureMap {
    pub res: Resource,
    pub bx: PipeBox,
    pub rw: RWFlags,
}

/// One side of a copy in software.
#[derive(Clone, Copy, Debug, PartialEq, Eq, Structural)]
pub enum Window {
    /// Memory that the caller supplies.
    Host,
    /// A window onto a buffer, opened for this copy and closed after it.
    Buffer(BufferMap),
    /// A window onto a texture, opened for this copy and closed after it.
    Texture(TextureMap),
}

/// A copy in software between two windows. The pitches of a side that is a
/// window onto a texture are known only once the window is open: they are
/// those of its transfer.
#[derive(Clone, Copy, Debug, PartialEq, Eq, Structural)]
pub struct SwCopyPlan {
    pub src: Window,
    pub dst: Window,
    /// The copy, with the pitches as far as they are declared.
    pub copy: SwCopy,
    /// The pitches of the source are those of its transfer.
    pub src_pitch_of_transfer: bool,
    /// The pitches of the destination are those of its transfer.
    pub dst_pitch_of_transfer: bool,
}

impl SwCopyPlan {
    /// The copy to run once both windows are open.
    pub open spec fn spec_resolve(self, src_tx: Transfer, dst_tx: Transfer) -> SwCopy {
        SwCopy {
            src_row_pitch: if self.src_pitch_of_transfer {
                src_tx.row_pitch as usize
            } else {
                self.copy.src_row_pitch
            },
            src_slice_pitch: if self.src_pitch_of_transfer {
                src_tx.slice_pitch
            } else {
                self.copy.src_slice_pitch
            },
            dst_row_pitch: if self.dst_pitch_of_transfer {
                dst_tx.row_pitch as usize
            } else {
                self.copy.dst_row_pitch
            },
            dst_slice_pitch: if self.dst_pitch_of_transfer {
                dst_tx.slice_pitch
            } else {
                self.copy.dst_slice_pitch
            },
            ..self.copy
        }
    }

    /// The copy to run once both windows are open. The transfer of a side
    /// whose pitches are declared is not looked at.
    pub fn resolve(&self, src_tx: &Transfer, dst_tx: &Transfer) -> (r: SwCopy)
        ensures
            r == self.spec_resolve(*src_tx, *dst_tx),
    {
        let mut c = self.copy;
        if self.src_pitch_of_transfer {
            c.src_row_pitch = src_tx.row_pitch as usize;
            c.src_slice_pitch = src_tx.slice_pitch;
        }
        if self.dst_pitch_of_transfer {
            c.dst_row_pitch = dst_tx.row_pitch as usize;
            c.dst_slice_pitch = dst_tx.slice_pitch;
        }
        c
    }
}

/// A copy of a box of one resource into another by the device.
#[derive(Clone, Copy, Debug, PartialEq, Eq, Structural)]
pub struct CopyRegion {
    pub src: Resource,
    pub dst: Resource,
    pub dst_x: u32,
    pub dst_y: u32,
    pub dst_z: u32,
    /// The box of the source.
    pub bx: PipeBox,
}

/// How a copy between two memory objects is carried out.
#[derive(Clone, Copy, Debug, PartialEq, Eq, Structural)]
pub enum CopyPlan {
    Hardware(CopyRegion),
    Software(SwCopyPlan),
}

/// An upload of host memory into a range of a buffer resource by the device.
#[derive(Clone, Copy, Debug, PartialEq, Eq, Structural)]
pub struct BufferSubdata {
    pub res: Resource,
    pub offset: u32,
    pub size: u32,
}

/// An upload of host memory into a box of a texture resource by the device.
#[derive(Clone, Copy, Debug, PartialEq, Eq, Structural)]
pub struct TextureSubdata {
    pub res: Resource,
    pub bx: PipeBox,
    pub stride: u32,
    pub layer_stride: usize,
}

/// How host memory is written into an image.
#[derive(Clone, Copy, Debug, PartialEq, Eq, Structural)]
pub enum ImageWrite {
    Software(SwCopyPlan),
    Subdata(TextureSubdata),
}

/// A clear of a range of a buffer resource by the device.
#[derive(Clone, Copy, Debug, PartialEq, Eq, Structural)]
pub struct ClearBuffer {
    pub res: Resource,
    pub offset: u32,
    pub size: u32,
}

/// A clear of a region of an image by the device, with a pattern packed into
/// `pattern_words` words of 32 bits.
#[derive(Clone, Copy, Debug, PartialEq, Eq, Structural)]
pub enum ClearImage {
    /// The image lies in a buffer: a clear with strides.
    Buffer {
        res: Resource,
        pattern_words: usize,
        origin: CLVec,
        region: CLVec,
        row_stride: usize,
        slice_stride: usize,
        pixel_size: usize,
    },
    /// The image is a texture.
    Texture { res: Resource, pattern_words: usize, bx: PipeBox },
}

/// The part of a resource that a session opens.
#[derive(Clone, Copy, Debug, PartialEq, Eq, Structural)]
pub enum MapRegion {
    Buffer { offset: i32, size: i32 },
    Texture { bx: PipeBox },
}

/// The staging resource that stands in for a resource which cannot be mapped
/// directly: of the same dimensions and format.
#[derive(Clone, Copy, Debug, PartialEq, Eq, Structural)]
pub enum ShadowRequest {
    Buffer { size: u32 },
    Texture {
        width: u32,
        height: u16,
        depth: u16,
        array_size: u16,
        image_type: ImageType,
        pipe_format: u32,
    },
}

/// What it takes to open the mapping session of a device on an object.
#[derive(Clone, Copy, Debug, PartialEq, Eq, Structural)]
pub struct SessionPlan {
    pub res: Resource,
    /// Whether a direct window is tried before a shadow is made.
    pub strategy: Strategy,
    pub region: MapRegion,
    pub shadow: ShadowRequest,
    pub rw: RWFlags,
}

/// What the device has answered while a session is opened.
#[derive(Clone, Copy, Debug, PartialEq, Eq, Structural)]
pub enum SessionEvent {
    /// Nothing yet.
    Start,
    /// The answer to `MapDirectly`.
    DirectMapped(Option<Transfer>),
    /// The answer to `CreateShadow`.
    ShadowCreated(Option<Resource>),
    /// The answer to `MapCoherent` on the given shadow.
    ShadowMapped(Resource, Option<Transfer>),
}

/// What to do next while a session is opened.
#[derive(Clone, Copy, Debug, PartialEq, Eq, Structural)]
pub enum SessionAction {
    /// Open a direct, unsynchronized window onto the resource.
    MapDirectly { res: Resource, region: MapRegion, rw: RWFlags },
    /// Create a staging resource.
    CreateShadow(ShadowRequest),
    /// Open a coherent, persistent, unsynchronized window onto the shadow.
    MapCoherent { staging: Resource, region: MapRegion, rw: RWFlags },
    /// The session can be installed with this transfer and shadow.
    Opened { tx: Transfer, shadow: Option<Resource> },
    /// The session cannot be opened.
    Failed(MemError),
}

impl SessionPlan {
    /// The window onto the shadow: all of a staging buffer, the same box of a
    /// staging texture.
    pub open spec fn shadow_region(self) -> MapRegion {
        match self.region {
            MapRegion::Buffer { offset, size } => MapRegion::Buffer { offset: 0, size },
            MapRegion::Texture { bx } => MapRegion::Texture { bx },
        }
    }

    /// The next action after `event`: a direct window is tried first iff the
    /// strategy is direct; where it is not, or the device refuses the window,
    /// a shadow is created and then mapped; where the device refuses either
    /// of those, the session fails for want of resources.
    pub open spec fn spec_step(self, event: SessionEvent) -> SessionAction {
        match event {
            SessionEvent::Start => if self.strategy == Strategy::Direct {
                SessionAction::MapDirectly { res: self.res, region: self.region, rw: self.rw }
            } else {
                SessionAction::CreateShadow(self.shadow)
            },
            SessionEvent::DirectMapped(Some(tx)) => SessionAction::Opened { tx, shadow: None },
            SessionEvent::DirectMapped(None) => SessionAction::CreateShadow(self.shadow),
            SessionEvent::ShadowCreated(Some(shadow)) => SessionAction::MapCoherent {
                staging: shadow,
                region: self.shadow_region(),
                rw: self.rw,
            },
            SessionEvent::ShadowCreated(None) => SessionAction::Failed(MemError::OutOfResources),
            SessionEvent::ShadowMapped(shadow, Some(tx)) => SessionAction::Opened {
                tx,
                shadow: Some(shadow),
            },
            SessionEvent::ShadowMapped(_, None) => SessionAction::Failed(MemError::OutOfResources),
        }
    }

    /// Decides what to do next while the session is opened.
    pub fn step(&self, event: SessionEvent) -> (r: SessionAction)
        ensures
            r == self.spec_step(event),
    {
        match event {
            SessionEvent::Start => match self.strategy {
                Strategy::Direct => SessionAction::MapDirectly {
                    res: self.res,
                    region: self.region,
                    rw: self.rw,
                },
                Strategy::Shadow => SessionAction::CreateShadow(self.shadow),
            },
            SessionEvent::DirectMapped(Some(tx)) => SessionAction::Opened { tx, shadow: None },
            SessionEvent::DirectMapped(None) => SessionAction::CreateShadow(self.shadow),
            SessionEvent::ShadowCreated(Some(shadow)) => {
                let region = match self.region {
                    MapRegion::Buffer { offset, size } => MapRegion::Buffer { offset: 0, size },
                    MapRegion::Texture { bx } => MapRegion::Texture { bx },
                };
                SessionAction::MapCoherent { staging: shadow, region, rw: self.rw }
            },
            SessionEvent::ShadowCreated(None) => SessionAction::Failed(MemError::OutOfResources),
            SessionEvent::ShadowMapped(shadow, Some(tx)) => SessionAction::Opened {
                tx,
                shadow: Some(shadow),
            },
            SessionEvent::ShadowMapped(_, None) => SessionAction::Failed(MemError::OutOfResources),
        }
    }
}

/// What a map request asks of its caller.
#[derive(Clone, Copy, Debug, PartialEq, Eq, Structural)]
pub enum MapStep {
    /// The object is mapped at this address.
    Mapped(MutMemoryPtr),
    /// The device has no session on the object yet: open one by this plan,
    /// and hand the transfer to `map_opened`.
    Open(SessionPlan),
}

/// How the data behind a freshly installed pointer is brought up to date.
#[derive(Clone, Copy, Debug, PartialEq, Eq, Structural)]
pub enum SyncAction {
    /// Nothing to do.
    Nothing,
    /// Read the whole buffer into the host memory of the object.
    ReadBuffer(BufferMap),
    /// Read the whole image into the host memory of the object.
    ReadImage(SwCopyPlan),
    /// Copy the resource into the shadow on the device.
    Copy(CopyRegion),
}

/// How the data behind the last released pointer is written back.
#[derive(Clone, Copy, Debug, PartialEq, Eq, Structural)]
pub enum WriteBack {
    /// Nothing to do.
    Nothing,
    /// Write the host memory of the object into the whole buffer.
    WriteBuffer(BufferSubdata),
    /// Write the host memory of the object into the whole image.
    WriteImage(ImageWrite),
    /// Copy the shadow into the resource on the device.
    Copy(CopyRegion),
}

/// What an unmap asks of its caller: first the write-back, then the transfer
/// of the retired session, to be handed back to the device.
#[derive(Clone, Copy, Debug, PartialEq, Eq, Structural)]
pub struct UnmapPlan {
    pub write_back: WriteBack,
    pub retire: Option<Transfer>,
}

/// What an unmap of the pointer `ptr` on the device `dev` returns, and the
/// reference counts and the sessions that it leaves, where `write_back` is
/// the write-back of the object on that device.
///
/// A pointer that is not mapped is left alone: nothing changes and nothing
/// is to do. Else one reference of the pointer is released. Where that
/// leaves the object without any mapped pointer the write-back is due, and
/// where it cannot be planned the unmap fails and nothing changes. Then the
/// session of `dev` is destroyed if it is idle, and its transfer is handed
/// back. No session of another device changes.
pub open spec fn spec_unmap(
    pointers: Map<usize, u32>,
    sessions: Map<u64, MappingTransfer>,
    dev: u64,
    ptr: usize,
    write_back: CLResult<WriteBack>,
) -> (CLResult<UnmapPlan>, Map<usize, u32>, Map<u64, MappingTransfer>) {
    if !pointers.contains_key(ptr) {
        (Ok(UnmapPlan { write_back: WriteBack::Nothing, retire: None }), pointers, sessions)
    } else {
        let left = released(pointers, ptr);
        let due = if left.dom().is_empty() {
            write_back
        } else {
            Ok(WriteBack::Nothing)
        };
        match due {
            Err(e) => (Err(e), pointers, sessions),
            Ok(w) => if idle(sessions, left, dev) {
                (
                    Ok(UnmapPlan { write_back: w, retire: Some(sessions[dev].tx) }),
                    left,
                    sessions.remove(dev),
                )
            } else {
                (Ok(UnmapPlan { write_back: w, retire: None }), left, sessions)
            },
        }
    }
}

/// The reference counts and the sessions that the installation of the
/// pointer `ptr` of a map request on `dev` leaves, where `action` is what
/// was returned: on an error nothing changes.
pub open spec fn spec_installed(
    pointers: Map<usize, u32>,
    sessions: Map<u64, MappingTransfer>,
    dev: u64,
    ptr: usize,
    action: CLResult<SyncAction>,
) -> (Map<usize, u32>, Map<u64, MappingTransfer>) {
    if action.is_ok() {
        (crate::mappings::installed(pointers, ptr), crate::mappings::settled(sessions, dev))
    } else {
        (pointers, sessions)
    }
}

} // verus!
