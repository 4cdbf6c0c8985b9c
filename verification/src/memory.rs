use crate::image_desc::{type_dims, type_is_array, CLImageDescInfo, ImageDesc};
use crate::mappings::{MappingTransfer, Mappings};
use crate::pipe::{Device, MemType, Resource, ResourceType, Transfer};
use crate::types::{add_checked, mul_checked, CLResult, MemError};
use std::collections::HashMap;
use std::sync::Arc;
use vstd::prelude::*;

verus! {

/// The object uses the host memory that its creator supplied.
pub const CL_MEM_USE_HOST_PTR: u64 = 8;

/// The object should live in memory that the host reaches cheaply.
pub const CL_MEM_ALLOC_HOST_PTR: u64 = 16;

/// The object starts with a copy of the host memory that its creator
/// supplied.
pub const CL_MEM_COPY_HOST_PTR: u64 = 32;

/// The host only writes the object.
pub const CL_MEM_HOST_WRITE_ONLY: u64 = 128;

/// The host only reads the object.
pub const CL_MEM_HOST_READ_ONLY: u64 = 256;

/// The host does not access the object.
pub const CL_MEM_HOST_NO_ACCESS: u64 = 512;

/// Whether `flags` has a bit of `bit`.
pub open spec fn spec_bit_check(flags: u64, bit: u64) -> bool {
    flags & bit != 0
}

/// Whether `flags` has a bit of `bit`.
pub fn bit_check(flags: u64, bit: u64) -> (r: bool)
    ensures
        r == spec_bit_check(flags, bit),
{
    flags & bit != 0
}

/// Channel order and channel data type of the pixels of an image.
#[derive(Clone, Copy, Debug, PartialEq, Eq, Structural)]
pub struct ImageFormat {
    pub image_channel_order: u32,
    pub image_channel_data_type: u32,
}

/// What is known of the foreign surface behind an imported object.
pub struct GLObject {
    pub gl_object_target: u32,
    pub gl_object_type: u32,
    pub gl_object_name: u32,
    /// For a face of a cube map: the imported resource behind each staging
    /// resource, by the identity of the staging resource.
    pub shadow_map: Option<HashMap<u64, Resource>>,
}

/// A memory object: a buffer or an image.
pub enum Mem {
    Buffer(Arc<Buffer>),
    Image(Arc<Image>),
}

/// What buffers and images have in common. It does not change after the
/// object has been created; the mapping state of the object is held apart,
/// under the object's lock.
pub struct MemBase {
    /// Identity of the object.
    pub id: u64,
    /// The object that this one is a part of: the buffer behind a sub-buffer,
    /// the buffer or image behind an image.
    pub parent: Option<Mem>,
    pub mem_type: MemType,
    pub flags: u64,
    pub size: usize,
    /// Address of the host memory behind the object, or zero. The memory
    /// belongs to the creator of the object and is never freed here.
    pub host_ptr: usize,
    pub props: Vec<u64>,
    pub gl_obj: Option<GLObject>,
    /// The resource of each device, by the identity of the device: present
    /// iff the object has no parent.
    pub res: Option<HashMap<u64, Resource>>,
}

/// A buffer: a range of bytes of the allocation of its root.
pub struct Buffer {
    pub base: MemBase,
    /// Offset in bytes of the buffer in the allocation of its root.
    pub offset: usize,
}

/// An image: pixels of a fixed format in up to three dimensions, in a
/// texture of its own or in the buffer that is its parent.
pub struct Image {
    pub base: MemBase,
    pub image_format: ImageFormat,
    /// The hardware format of the pixels.
    pub pipe_format: u32,
    pub image_desc: ImageDesc,
    pub image_elem_size: u8,
    /// Width in bytes of one pixel.
    pub pixel_size: u8,
}

/// What the device is asked for when a buffer is created.
#[derive(Clone, Copy, Debug, PartialEq, Eq, Structural)]
pub struct CreateBuffer {
    pub size: usize,
    pub host_ptr: usize,
    pub copy_host_data: bool,
    pub res_type: ResourceType,
}

/// What the device is asked for when a texture is created.
#[derive(Clone, Copy, Debug, PartialEq, Eq, Structural)]
pub struct CreateTexture {
    /// The descriptor with one for every extent that the kind does not have.
    pub desc: ImageDesc,
    pub format: ImageFormat,
    pub host_ptr: usize,
    pub copy_host_data: bool,
    pub res_type: ResourceType,
}

/// Where a new resource is placed: in staging memory iff the creator asked
/// for memory that the host reaches cheaply.
pub open spec fn spec_resource_type(flags: u64) -> ResourceType {
    if spec_bit_check(flags, CL_MEM_ALLOC_HOST_PTR) {
        ResourceType::Staging
    } else {
        ResourceType::Normal
    }
}

/// The host address that an object keeps: the one supplied, iff the object
/// uses the host memory of its creator, else zero.
pub open spec fn spec_kept_host_ptr(flags: u64, host_ptr: usize) -> usize {
    if spec_bit_check(flags, CL_MEM_USE_HOST_PTR) {
        host_ptr
    } else {
        0
    }
}

/// The descriptor that a texture is created from: one for every extent that
/// the kind of image does not have.
pub open spec fn spec_sanitized(desc: ImageDesc) -> ImageDesc {
    ImageDesc {
        image_depth: if type_dims(desc.image_type) < 3 {
            1
        } else {
            desc.image_depth
        },
        image_height: if type_dims(desc.image_type) < 2 {
            1
        } else {
            desc.image_height
        },
        image_array_size: if type_is_array(desc.image_type) {
            desc.image_array_size
        } else {
            1
        },
        ..desc
    }
}

fn resource_type(flags: u64) -> (r: ResourceType)
    ensures
        r == spec_resource_type(flags),
{
    if bit_check(flags, CL_MEM_ALLOC_HOST_PTR) {
        ResourceType::Staging
    } else {
        ResourceType::Normal
    }
}

fn kept_host_ptr(flags: u64, host_ptr: usize) -> (r: usize)
    ensures
        r == spec_kept_host_ptr(flags, host_ptr),
{
    if bit_check(flags, CL_MEM_USE_HOST_PTR) {
        host_ptr
    } else {
        0
    }
}

/// The descriptor that a texture is created from.
pub fn sanitized(desc: &ImageDesc) -> (r: ImageDesc)
    ensures
        r == spec_sanitized(*desc),
{
    let mut d = *desc;
    let dims = desc.dims();
    if dims < 3 {
        d.image_depth = 1;
    }
    if dims < 2 {
        d.image_height = 1;
    }
    if !desc.is_array() {
        d.image_array_size = 1;
    }
    d
}

impl Mem {
    /// The part that the object has in common with every memory object.
    pub open spec fn spec_base(&self) -> MemBase {
        match self {
            Mem::Buffer(b) => b.base,
            Mem::Image(i) => i.base,
        }
    }

    /// The part that the object has in common with every memory object.
    pub fn base(&self) -> (r: &MemBase)
        ensures
            *r == self.spec_base(),
    {
        match self {
            Mem::Buffer(b) => &b.base,
            Mem::Image(i) => &i.base,
        }
    }
}

impl MemBase {
    /// The object at the root of the chain of parents.
    pub open spec fn spec_root(&self) -> MemBase
        decreases self,
    {
        match self.parent {
            Some(p) => p.spec_base().spec_root(),
            None => *self,
        }
    }

    /// The parent, or the object itself where it has none.
    pub open spec fn spec_parent(&self) -> MemBase {
        match self.parent {
            Some(p) => p.spec_base(),
            None => *self,
        }
    }

    /// The resource table that serves the object: that of its root.
    pub open spec fn resources(&self) -> Map<u64, Resource> {
        match self.spec_root().res {
            Some(m) => m@,
            None => Map::empty(),
        }
    }

    /// The resource of the object on `dev`, if it has one.
    pub open spec fn spec_res_of_dev(&self, dev: Device) -> CLResult<Resource> {
        if self.resources().contains_key(dev.id) {
            Ok(self.resources()[dev.id])
        } else {
            Err(MemError::OutOfHostMemory)
        }
    }

    /// Whether the host memory of the object is a copy apart from its
    /// resource on `dev`, to be kept in step with it.
    pub open spec fn spec_has_user_shadow_buffer(&self, dev: Device) -> CLResult<bool> {
        match self.spec_res_of_dev(dev) {
            Ok(r) => Ok(!r.is_user && spec_bit_check(self.flags, CL_MEM_USE_HOST_PTR)),
            Err(e) => Err(e),
        }
    }

    /// Exactly one holds of an object: it owns resources, or it has a parent.
    pub open spec fn wf(&self) -> bool {
        self.res.is_some() != self.parent.is_some()
    }

    /// What the device is asked for when a buffer with these flags is
    /// created.
    pub fn new_buffer_request(flags: u64, size: usize, host_ptr: usize) -> (r: CreateBuffer)
        ensures
            r == (CreateBuffer {
                size,
                host_ptr,
                copy_host_data: spec_bit_check(flags, CL_MEM_COPY_HOST_PTR),
                res_type: spec_resource_type(flags),
            }),
    {
        CreateBuffer {
            size,
            host_ptr,
            copy_host_data: bit_check(flags, CL_MEM_COPY_HOST_PTR),
            res_type: resource_type(flags),
        }
    }

    /// Makes a buffer of the resources that the device created for it, one
    /// per device. `res` is `None` where the device failed to create them,
    /// and the buffer is refused iff it is.
    pub fn new_buffer(
        id: u64,
        flags: u64,
        size: usize,
        host_ptr: usize,
        props: Vec<u64>,
        res: Option<HashMap<u64, Resource>>,
    ) -> (r: CLResult<Arc<Buffer>>)
        ensures
            res.is_none() ==> r == Err::<Arc<Buffer>, MemError>(MemError::OutOfResources),
            res.is_some() ==> r.is_ok() && *r.unwrap() == (Buffer {
                base: MemBase {
                    id,
                    parent: None,
                    mem_type: MemType::Buffer,
                    flags,
                    size,
                    host_ptr: spec_kept_host_ptr(flags, host_ptr),
                    props,
                    gl_obj: None,
                    res,
                },
                offset: 0,
            }),
            r.is_ok() ==> r.unwrap().base.wf(),
    {
        if res.is_none() {
            return Err(MemError::OutOfResources);
        }
        Ok(
            Arc::new(
                Buffer {
                    base: MemBase {
                        id,
                        parent: None,
                        mem_type: MemType::Buffer,
                        flags,
                        size,
                        host_ptr: kept_host_ptr(flags, host_ptr),
                        props,
                        gl_obj: None,
                        res,
                    },
                    offset: 0,
                },
            ),
        )
    }

    /// Makes a buffer of the `size` bytes of `parent` from `offset` on. The
    /// sub-buffer owns no resource. Its offset counts from the start of the
    /// root's allocation, and its host address is that of the parent, moved
    /// by `offset`, where the parent has one. Fails iff one of the two sums
    /// leaves the machine word.
    pub fn new_sub_buffer(id: u64, parent: Arc<Buffer>, flags: u64, offset: usize, size: usize) -> (r:
        CLResult<Arc<Buffer>>)
        ensures
            r.is_ok() <==> parent.offset + offset <= usize::MAX && (parent.base.host_ptr != 0
                ==> parent.base.host_ptr + offset <= usize::MAX),
            r.is_err() ==> r == Err::<Arc<Buffer>, MemError>(MemError::OutOfHostMemory),
            r.is_ok() ==> *r.unwrap() == (Buffer {
                base: MemBase {
                    id,
                    parent: Some(Mem::Buffer(parent)),
                    mem_type: MemType::Buffer,
                    flags,
                    size,
                    host_ptr: if parent.base.host_ptr == 0 {
                        0
                    } else {
                        (parent.base.host_ptr + offset) as usize
                    },
                    props: r.unwrap().base.props,
                    gl_obj: None,
                    res: None,
                },
                offset: (parent.offset + offset) as usize,
            }) && r.unwrap().base.props@.len() == 0 && r.unwrap().base.wf(),
    {
        let host_ptr = if parent.base.host_ptr == 0 {
            0
        } else {
            add_checked(parent.base.host_ptr, offset)?
        };
        let offset = add_checked(parent.offset, offset)?;
        Ok(
            Arc::new(
                Buffer {
                    base: MemBase {
                        id,
                        parent: Some(Mem::Buffer(parent)),
                        mem_type: MemType::Buffer,
                        flags,
                        size,
                        host_ptr,
                        props: Vec::new(),
                        gl_obj: None,
                        res: None,
                    },
                    offset,
                },
            ),
        )
    }

    /// What the device is asked for when an image is created: a texture iff
    /// the image has no parent.
    pub fn new_image_request(
        has_parent: bool,
        flags: u64,
        image_format: &ImageFormat,
        image_desc: &ImageDesc,
        host_ptr: usize,
    ) -> (r: Option<CreateTexture>)
        ensures
            r == (if has_parent {
                None
            } else {
                Some(
                    CreateTexture {
                        desc: spec_sanitized(*image_desc),
                        format: *image_format,
                        host_ptr,
                        copy_host_data: spec_bit_check(flags, CL_MEM_COPY_HOST_PTR),
                        res_type: spec_resource_type(flags),
                    },
                )
            }),
    {
        if has_parent {
            None
        } else {
            Some(
                CreateTexture {
                    desc: sanitized(image_desc),
                    format: *image_format,
                    host_ptr,
                    copy_host_data: bit_check(flags, CL_MEM_COPY_HOST_PTR),
                    res_type: resource_type(flags),
                },
            )
        }
    }

    /// What to ask next where the device failed to create a texture: staging
    /// memory is only a hint, so a request for it is made once more for
    /// normal memory; any other failure stands.
    pub fn new_image_retry(request: &CreateTexture) -> (r: Option<CreateTexture>)
        ensures
            r == (if request.res_type == ResourceType::Staging {
                Some(CreateTexture { res_type: ResourceType::Normal, ..*request })
            } else {
                None
            }),
    {
        match request.res_type {
            ResourceType::Staging => Some(
                CreateTexture {
                    desc: request.desc,
                    format: request.format,
                    host_ptr: request.host_ptr,
                    copy_host_data: request.copy_host_data,
                    res_type: ResourceType::Normal,
                },
            ),
            ResourceType::Normal => None,
        }
    }

    /// Makes an image. `texture` holds the resources that the device created
    /// for it, one per device; it is `None` where the device failed, or where
    /// none was asked for because the image has a parent. The size of the
    /// image is the number of its pixels, array layers counted, times the
    /// width of a pixel. The image keeps the descriptor as it was declared.
    ///
    /// Fails with `OutOfResources` iff the image has no parent and no
    /// texture, else with `OutOfHostMemory` iff its size leaves the machine
    /// word.
    pub fn new_image(
        id: u64,
        parent: Option<Mem>,
        mem_type: MemType,
        flags: u64,
        image_format: &ImageFormat,
        image_desc: ImageDesc,
        image_elem_size: u8,
        host_ptr: usize,
        props: Vec<u64>,
        pixel_size: u8,
        pipe_format: u32,
        texture: Option<HashMap<u64, Resource>>,
    ) -> (r: CLResult<Arc<Image>>)
        ensures
            r == Err::<Arc<Image>, MemError>(MemError::OutOfResources) <==> parent.is_none()
                && texture.is_none(),
            r == Err::<Arc<Image>, MemError>(MemError::OutOfHostMemory) <==> !(parent.is_none()
                && texture.is_none()) && spec_sanitized(image_desc).spec_pixels() * pixel_size
                > usize::MAX,
            r.is_ok() ==> *r.unwrap() == (Image {
                base: MemBase {
                    id,
                    parent,
                    mem_type,
                    flags,
                    size: (spec_sanitized(image_desc).spec_pixels() * pixel_size) as usize,
                    host_ptr: spec_kept_host_ptr(flags, host_ptr),
                    props,
                    gl_obj: None,
                    res: if parent.is_none() {
                        texture
                    } else {
                        None
                    },
                },
                image_format: *image_format,
                pipe_format,
                image_desc,
                image_elem_size,
                pixel_size,
            }) && r.unwrap().base.wf(),
    {
        let res = if parent.is_none() {
            if texture.is_none() {
                return Err(MemError::OutOfResources);
            }
            texture
        } else {
            None
        };
        let internal = sanitized(&image_desc);
        let ghost n = internal.spec_pixels();
        let ghost p = pixel_size as int;
        proof {
            lemma_pixels_nonneg(internal);
            assert(n * p >= 0) by (nonlinear_arith)
                requires
                    n >= 0,
                    p >= 0,
            ;
            if p >= 1 {
                assert(n * p >= n) by (nonlinear_arith)
                    requires
                        n >= 0,
                        p >= 1,
                ;
            } else {
                assert(n * p == 0) by (nonlinear_arith)
                    requires
                        p == 0,
                ;
            }
        }
        if pixel_size == 0 {
            return Ok(
                Arc::new(
                    Image {
                        base: MemBase {
                            id,
                            parent,
                            mem_type,
                            flags,
                            size: 0,
                            host_ptr: kept_host_ptr(flags, host_ptr),
                            props,
                            gl_obj: None,
                            res,
                        },
                        image_format: *image_format,
                        pipe_format,
                        image_desc,
                        image_elem_size,
                        pixel_size,
                    },
                ),
            );
        }
        let pixels = internal.pixels()?;
        let size = mul_checked(pixels, pixel_size as usize)?;
        Ok(
            Arc::new(
                Image {
                    base: MemBase {
                        id,
                        parent,
                        mem_type,
                        flags,
                        size,
                        host_ptr: kept_host_ptr(flags, host_ptr),
                        props,
                        gl_obj: None,
                        res,
                    },
                    image_format: *image_format,
                    pipe_format,
                    image_desc,
                    image_elem_size,
                    pixel_size,
                },
            ),
        )
    }

    /// Whether the object is a buffer.
    pub fn is_buffer(&self) -> (r: bool)
        ensures
            r == (self.mem_type == MemType::Buffer),
    {
        match self.mem_type {
            MemType::Buffer => true,
            _ => false,
        }
    }

    /// The parent, or the object itself where it has none.
    pub fn get_parent(&self) -> (r: &MemBase)
        ensures
            *r == self.spec_parent(),
    {
        match &self.parent {
            Some(p) => p.base(),
            None => self,
        }
    }

    /// The object at the root of the chain of parents: the one that owns the
    /// resources.
    pub fn get_root(&self) -> (r: &MemBase)
        ensures
            *r == self.spec_root(),
        decreases self,
    {
        match &self.parent {
            Some(p) => p.base().get_root(),
            None => self,
        }
    }

    /// Whether the two objects are parts of one object, or one and the same.
    pub fn has_same_parent(&self, other: &MemBase) -> (r: bool)
        ensures
            r == (self.spec_parent().id == other.spec_parent().id),
    {
        self.get_parent().id == other.get_parent().id
    }

    /// Whether the object stands for shared virtual memory. `in_svm` says
    /// whether the host address of the object's parent lies in an allocation
    /// of shared virtual memory.
    pub fn is_svm(&self, in_svm: bool) -> (r: bool)
        ensures
            r == (in_svm && spec_bit_check(self.spec_parent().flags, CL_MEM_USE_HOST_PTR)),
    {
        let mem = self.get_parent();
        in_svm && bit_check(mem.flags, CL_MEM_USE_HOST_PTR)
    }

    /// The resource of the object on `dev`: that of its root. Fails iff the
    /// root has none for that device.
    pub fn get_res_of_dev(&self, dev: &Device) -> (r: CLResult<Resource>)
        ensures
            r == self.spec_res_of_dev(*dev),
    {
        match &self.get_root().res {
            Some(resources) => match resources.get(&dev.id) {
                Some(r) => Ok(*r),
                None => Err(MemError::OutOfHostMemory),
            },
            None => Err(MemError::OutOfHostMemory),
        }
    }

    /// Whether the host memory of the object is a copy apart from its
    /// resource on `dev`. Fails iff the object has no resource there.
    pub fn has_user_shadow_buffer(&self, dev: &Device) -> (r: CLResult<bool>)
        ensures
            r == self.spec_has_user_shadow_buffer(*dev),
    {
        let r = self.get_res_of_dev(dev)?;
        Ok(!r.is_user && bit_check(self.flags, CL_MEM_USE_HOST_PTR))
    }

    /// Address of the host memory behind the object, or zero.
    pub fn host_ptr(&self) -> (r: usize)
        ensures
            r == self.host_ptr,
    {
        self.host_ptr
    }
}

/// What is left to do when a memory object is destroyed: first the release
/// callbacks are called, in this order, then the transfers are handed back,
/// each to the device named with it.
pub struct Teardown {
    pub callbacks: Vec<u64>,
    pub transfers: Vec<(u64, Transfer)>,
}

/// Takes a memory object down. The release callbacks `cbs`, which were
/// registered in this order, are to be called in the reverse order. Every
/// session that is still open is destroyed, and its transfer goes back to
/// its device.
pub fn teardown(cbs: &Vec<u64>, maps: &mut Mappings) -> (r: Teardown)
    ensures
        r.callbacks@ == cbs@.reverse(),
        final(maps).sessions() == Map::<u64, MappingTransfer>::empty(),
        final(maps).pointers() == old(maps).pointers(),
        r.transfers@.len() == old(maps).sessions().dom().len(),
        forall|i: int|
            0 <= i < r.transfers@.len() ==> old(maps).sessions().contains_key(
                (#[trigger] r.transfers@[i]).0,
            ) && r.transfers@[i].1 == old(maps).sessions()[r.transfers@[i].0].tx,
        forall|d: u64|
            old(maps).sessions().contains_key(d) ==> r.transfers@.contains(
                (d, #[trigger] old(maps).sessions()[d].tx),
            ),
{
    let mut callbacks: Vec<u64> = Vec::new();
    let mut i = cbs.len();
    while i > 0
        invariant
            i <= cbs@.len(),
            callbacks@.len() == cbs@.len() - i,
            forall|j: int| 0 <= j < callbacks@.len() ==> callbacks@[j] == cbs@[cbs@.len() - 1 - j],
        decreases i,
    {
        i -= 1;
        callbacks.push(cbs[i]);
    }
    assert(callbacks@ =~= cbs@.reverse());
    let transfers = maps.drain();
    Teardown { callbacks, transfers }
}

/// The number of pixels of an image is not negative.
pub proof fn lemma_pixels_nonneg(desc: ImageDesc)
    ensures
        desc.spec_pixels() >= 0,
{
    let w = desc.image_width as int;
    let h = desc.rows();
    let d = desc.slices();
    let l = desc.layers();
    assert(w * h * d * l >= 0) by (nonlinear_arith)
        requires
            w >= 0,
            h >= 0,
            d >= 0,
            l >= 0,
    ;
}

} // verus!
