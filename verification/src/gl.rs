use crate::image_desc::ImageDesc;
use crate::memory::{Buffer, GLObject, Image, ImageFormat, Mem, MemBase};
use crate::pipe::{ImageType, MemType, Resource};
use crate::types::{mul_checked, CLResult, MemError};
use std::collections::HashMap;
use std::sync::Arc;
use vstd::prelude::*;
use vstd::std_specs::hash::spec_hash_map_iter;
use vstd::std_specs::iter::IteratorSpec;

verus! {

/// The hardware format of an object without pixels.
pub const PIPE_FORMAT_NONE: u32 = 0;

/// Dimensions of a foreign surface.
#[derive(Clone, Copy, Debug, PartialEq, Eq, Structural)]
pub struct GLMemProps {
    pub height: u16,
    pub depth: u16,
    pub width: u32,
    pub offset: u32,
    pub array_size: u16,
    pub pixel_size: u8,
    pub stride: u32,
}

impl GLMemProps {
    /// Number of bytes in the surface: the product of its extents, its
    /// layers and the width of a pixel.
    pub open spec fn spec_size(self) -> int {
        self.height * self.depth * self.array_size * self.width * self.pixel_size
    }

    /// Number of bytes in the surface. Fails iff it leaves the machine word.
    pub fn size(&self) -> (r: CLResult<usize>)
        ensures
            r == (if self.spec_size() <= usize::MAX {
                Ok::<usize, MemError>(self.spec_size() as usize)
            } else {
                Err(MemError::OutOfHostMemory)
            }),
    {
        let h = self.height as usize;
        let d = self.depth as usize;
        let a = self.array_size as usize;
        let w = self.width as usize;
        let p = self.pixel_size as usize;
        if h == 0 || d == 0 || a == 0 || w == 0 || p == 0 {
            assert(h * d * a * w * p == 0) by (nonlinear_arith)
                requires
                    h == 0 || d == 0 || a == 0 || w == 0 || p == 0,
            ;
            return Ok(0);
        }
        proof {
            assert(h * d >= 1 && h * d * a >= h * d && h * d * a * w >= h * d * a && h * d * a * w
                * p >= h * d * a * w) by (nonlinear_arith)
                requires
                    h >= 1,
                    d >= 1,
                    a >= 1,
                    w >= 1,
                    p >= 1,
            ;
        }
        let hd = mul_checked(h, d)?;
        let hda = mul_checked(hd, a)?;
        let hdaw = mul_checked(hda, w)?;
        mul_checked(hdaw, p)
    }
}

/// The format of the pixels of a foreign surface, and its hardware format.
#[derive(Clone, Copy, Debug, PartialEq, Eq, Structural)]
pub struct GLFormat {
    pub image_format: ImageFormat,
    pub pipe_format: u32,
}

/// What is known of a foreign surface that is to be imported.
#[derive(Clone, Copy, Debug, PartialEq, Eq, Structural)]
pub struct GLImport {
    /// The texture target of the surface.
    pub target: u32,
    /// The name of the surface.
    pub obj: u32,
    /// The kind of memory object that the target stands for.
    pub mem_type: MemType,
    /// The kind of foreign object that the target stands for.
    pub gl_object_type: u32,
    /// The surface is a buffer.
    pub is_gl_buffer: bool,
    /// The surface is one face of a cube map.
    pub is_cube_map_face: bool,
    /// The format of the pixels of the surface, where its foreign format has
    /// one.
    pub format: Option<GLFormat>,
    /// The dimensions of the surface.
    pub props: GLMemProps,
}

/// The descriptor of an image that is imported from a foreign surface.
pub open spec fn gl_image_desc(image_type: ImageType, props: GLMemProps) -> ImageDesc {
    ImageDesc {
        image_type,
        image_width: props.width as usize,
        image_height: props.height as usize,
        image_depth: props.depth as usize,
        image_array_size: props.array_size as usize,
        image_row_pitch: 0,
        image_slice_pitch: 0,
        num_mip_levels: 1,
        num_samples: 1,
    }
}

/// The kind of image of an imported surface that is not a buffer: the kind
/// that its target stands for, or a line of pixels in a buffer where the
/// target stands for a buffer.
pub open spec fn gl_image_type(mem_type: MemType) -> ImageType {
    match mem_type {
        MemType::Image(t) => t,
        MemType::Buffer => ImageType::Image1DBuffer,
    }
}

/// Which imported resource lies behind which staging resource: `map` holds
/// the imported resource of a device under the identity of the staging
/// resource of that device, and nothing else.
pub open spec fn is_shadow_map(
    map: Map<u64, Resource>,
    shadow: Map<u64, Resource>,
    imported: Map<u64, Resource>,
) -> bool {
    &&& forall|d: u64| #[trigger] shadow.contains_key(d) ==> map.contains_key(shadow[d].id)
    &&& forall|id: u64| #[trigger]
        map.contains_key(id) ==> exists|d: u64| #[trigger]
            shadow.contains_key(d) && shadow[d].id == id && imported.contains_key(d) && map[id]
                == imported[d]
}

/// Pairs each staging resource with the imported resource of its device.
pub fn shadow_map_of(shadow: &HashMap<u64, Resource>, imported: &HashMap<u64, Resource>) -> (r:
    HashMap<u64, Resource>)
    requires
        forall|d: u64| #[trigger] shadow@.contains_key(d) ==> imported@.contains_key(d),
    ensures
        is_shadow_map(r@, shadow@, imported@),
{
    let mut map: HashMap<u64, Resource> = HashMap::new();
    let ghost all = spec_hash_map_iter(shadow).remaining();
    for pair in iter: shadow.iter()
        invariant
            iter.seq() == all,
            all == spec_hash_map_iter(shadow).remaining(),
            forall|d: u64| #[trigger] shadow@.contains_key(d) ==> imported@.contains_key(d),
            forall|j: int|
                0 <= j < iter.index() ==> map@.contains_key((#[trigger] all[j]).1.id),
            forall|id: u64| #[trigger]
                map@.contains_key(id) ==> exists|d: u64| #[trigger]
                    shadow@.contains_key(d) && shadow@[d].id == id && imported@.contains_key(d)
                        && map@[id] == imported@[d],
    {
        let (k, v) = pair;
        proof {
            assert(shadow@.contains_key(*all[iter.index()].0));
            assert(shadow@[*all[iter.index()].0] == *all[iter.index()].1);
        }
        match imported.get(k) {
            Some(res) => {
                map.insert(v.id, *res);
            },
            None => {},
        }
    }
    proof {
        assert forall|d: u64| #[trigger] shadow@.contains_key(d) implies map@.contains_key(
            shadow@[d].id,
        ) by {
            assert(all.contains((&d, &shadow@[d])));
            let j = choose|j: int| 0 <= j < all.len() && all[j] == (&d, &shadow@[d]);
            assert(map@.contains_key(all[j].1.id));
        }
    }
    map
}

impl MemBase {
    /// Makes a memory object of a foreign surface that was imported:
    /// `imported` holds the resource of each device. A surface that is a
    /// buffer gives a buffer at the offset of the surface, any other an image
    /// of the dimensions of the surface. The object has no parent, no host
    /// memory, and the size of the surface.
    ///
    /// A face of a cube map does not lie linearly in memory: the object is
    /// then served by the staging resources `shadow`, one per device, and
    /// remembers which imported resource lies behind each.
    ///
    /// Fails with `OutOfHostMemory` iff the surface is no buffer and its
    /// format is unknown, or else with `OutOfResources` iff it is a face of a
    /// cube map and has no staging resources, or else with `OutOfHostMemory`
    /// iff its size leaves the machine word.
    pub fn from_gl(
        id: u64,
        flags: u64,
        gl: &GLImport,
        imported: HashMap<u64, Resource>,
        shadow: Option<HashMap<u64, Resource>>,
    ) -> (r: CLResult<Mem>)
        requires
            gl.mem_type != MemType::Buffer ==> gl.props.offset == 0,
            gl.is_cube_map_face && shadow.is_some() ==> forall|d: u64| #[trigger]
                shadow.unwrap()@.contains_key(d) ==> imported@.contains_key(d),
        ensures
            r.is_ok() <==> (gl.is_gl_buffer || gl.format.is_some()) && (gl.is_cube_map_face
                ==> shadow.is_some()) && gl.props.spec_size() <= usize::MAX,
            r.is_err() ==> r == Err::<Mem, MemError>(
                if !gl.is_gl_buffer && gl.format.is_none() {
                    MemError::OutOfHostMemory
                } else if gl.is_cube_map_face && shadow.is_none() {
                    MemError::OutOfResources
                } else {
                    MemError::OutOfHostMemory
                },
            ),
            r.is_ok() ==> {
                let base = r.unwrap().spec_base();
                &&& base.id == id
                &&& base.parent.is_none()
                &&& base.mem_type == gl.mem_type
                &&& base.flags == flags
                &&& base.size == gl.props.spec_size()
                &&& base.host_ptr == 0
                &&& base.props@.len() == 0
                &&& base.wf()
                &&& base.res.unwrap()@ == (if gl.is_cube_map_face {
                    shadow.unwrap()@
                } else {
                    imported@
                })
                &&& base.gl_obj.is_some()
                &&& base.gl_obj.unwrap().gl_object_target == gl.target
                &&& base.gl_obj.unwrap().gl_object_type == gl.gl_object_type
                &&& base.gl_obj.unwrap().gl_object_name == gl.obj
                &&& base.gl_obj.unwrap().shadow_map.is_some() == gl.is_cube_map_face
                &&& gl.is_cube_map_face ==> is_shadow_map(
                    base.gl_obj.unwrap().shadow_map.unwrap()@,
                    shadow.unwrap()@,
                    imported@,
                )
            },
            r.is_ok() && gl.is_gl_buffer ==> (r.unwrap() matches Mem::Buffer(b) && b.offset
                == gl.props.offset),
            r.is_ok() && !gl.is_gl_buffer ==> (r.unwrap() matches Mem::Image(i) && i.image_format
                == gl.format.unwrap().image_format && i.pipe_format
                == gl.format.unwrap().pipe_format && i.image_desc
                == gl_image_desc(gl_image_type(gl.mem_type), gl.props) && i.image_elem_size
                == gl.props.pixel_size && i.pixel_size == gl.props.pixel_size),
    {
        let (image_format, pipe_format) = if gl.is_gl_buffer {
            (ImageFormat { image_channel_order: 0, image_channel_data_type: 0 }, PIPE_FORMAT_NONE)
        } else {
            match gl.format {
                Some(f) => (f.image_format, f.pipe_format),
                None => {
                    return Err(MemError::OutOfHostMemory);
                },
            }
        };
        // Cube maps faces are not linear in memory, so copy all contents
        // of desired face into a 2D image and copy it back after gl release.
        let (shadow_map, texture) = if gl.is_cube_map_face {
            match shadow {
                Some(shadow) => (Some(shadow_map_of(&shadow, &imported)), shadow),
                None => {
                    return Err(MemError::OutOfResources);
                },
            }
        } else {
            (None, imported)
        };
        let size = gl.props.size()?;
        let base = MemBase {
            id,
            parent: None,
            mem_type: gl.mem_type,
            flags,
            size,
            host_ptr: 0,
            props: Vec::new(),
            gl_obj: Some(
                GLObject {
                    gl_object_target: gl.target,
                    gl_object_type: gl.gl_object_type,
                    gl_object_name: gl.obj,
                    shadow_map,
                },
            ),
            res: Some(texture),
        };
        if gl.is_gl_buffer {
            Ok(Mem::Buffer(Arc::new(Buffer { base, offset: gl.props.offset as usize })))
        } else {
            let image_type = match gl.mem_type {
                MemType::Image(t) => t,
                MemType::Buffer => ImageType::Image1DBuffer,
            };
            Ok(
                Mem::Image(
                    Arc::new(
                        Image {
                            base,
                            image_format,
                            pipe_format,
                            image_desc: ImageDesc {
                                image_type,
                                image_width: gl.props.width as usize,
                                image_height: gl.props.height as usize,
                                image_depth: gl.props.depth as usize,
                                image_array_size: gl.props.array_size as usize,
                                image_row_pitch: 0,
                                image_slice_pitch: 0,
                                num_mip_levels: 1,
                                num_samples: 1,
                            },
                            image_elem_size: gl.props.pixel_size,
                            pixel_size: gl.props.pixel_size,
                        },
                    ),
                ),
            )
        }
    }
}

} // verus!
