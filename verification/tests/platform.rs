use gpumem::copy::{copy_fits, copy_linear, sw_copy, SwCopy};
use gpumem::gl::{GLFormat, GLImport, GLMemProps};
use gpumem::memory::{ImageFormat, Mem, MemBase};
use gpumem::pipe::{
    create_pipe_box, to_i16, to_i32, to_u32, ConstMemoryPtr, ImageType, MemType, PipeBox, Resource,
};
use gpumem::push::{class_to_subc, IncType, MthdHeader, Push, MAX_MTHD_SIZE};
use gpumem::sampler::{
    Sampler, SamplerState, TexFilter, TexWrap, CL_ADDRESS_CLAMP, CL_ADDRESS_CLAMP_TO_EDGE,
    CL_ADDRESS_MIRRORED_REPEAT, CL_ADDRESS_NONE, CL_ADDRESS_REPEAT, CL_FILTER_LINEAR,
    CL_FILTER_NEAREST,
};
use gpumem::types::{add_checked, mul_checked, CLVec, MemError};
use std::collections::HashMap;

#[test]
fn error_codes() {
    assert_eq!(MemError::OutOfResources.code(), -5);
    assert_eq!(MemError::OutOfHostMemory.code(), -6);
}

#[test]
fn offsets_and_sizes() {
    let pitch = CLVec::new(4, 64, 1024);
    assert_eq!(CLVec::calc_offset(&CLVec::new(1, 2, 3), &pitch), Ok(4 + 128 + 3072));
    assert_eq!(CLVec::calc_size(&CLVec::new(5, 2, 3), &pitch), Ok(20 + 64 + 2048));
    assert_eq!(
        CLVec::calc_offset_size(&CLVec::new(1, 2, 3), &CLVec::new(5, 2, 3), &pitch),
        Ok((3204, 2132))
    );
    assert_eq!(CLVec::calc_size(&CLVec::new(5, 1, 1), &pitch), Ok(20));
    assert_eq!(CLVec::calc_size(&CLVec::new(5, 0, 1), &pitch), Err(MemError::OutOfHostMemory));
    assert_eq!(CLVec::calc_size(&CLVec::new(5, 1, 0), &pitch), Err(MemError::OutOfHostMemory));
    assert_eq!(
        CLVec::calc_offset(&CLVec::new(usize::MAX, 0, 0), &pitch),
        Err(MemError::OutOfHostMemory)
    );
    assert_eq!(
        CLVec::calc_offset(&CLVec::new(usize::MAX, 1, 0), &CLVec::new(1, 1, 1)),
        Err(MemError::OutOfHostMemory)
    );
    assert_eq!(CLVec::calc_offset(&CLVec::new(usize::MAX, 9, 9), &CLVec::new(1, 0, 0)), Ok(usize::MAX));
    assert_eq!(mul_checked(1 << 40, 1 << 40), Err(MemError::OutOfHostMemory));
    assert_eq!(mul_checked(3, 4), Ok(12));
    assert_eq!(add_checked(usize::MAX, 1), Err(MemError::OutOfHostMemory));
    assert_eq!(add_checked(3, 4), Ok(7));
    assert_eq!(CLVec::zero(), CLVec::new(0, 0, 0));
}

#[test]
fn pipe_boxes() {
    let base = CLVec::new(1, 2, 3);
    let region = CLVec::new(4, 5, 6);
    let bx = |x, y, z, width, height, depth| PipeBox {
        x,
        y,
        z,
        width,
        height,
        depth,
    };
    assert_eq!(
        create_pipe_box(base, region, MemType::Image(ImageType::Image3D)),
        Ok(bx(1, 2, 3, 4, 5, 6))
    );
    assert_eq!(
        create_pipe_box(base, region, MemType::Image(ImageType::Image2DArray)),
        Ok(bx(1, 2, 3, 4, 5, 6))
    );
    assert_eq!(
        create_pipe_box(base, region, MemType::Image(ImageType::Image2D)),
        Ok(bx(1, 2, 3, 4, 5, 1))
    );
    assert_eq!(
        create_pipe_box(base, region, MemType::Image(ImageType::Image1D)),
        Ok(bx(1, 2, 3, 4, 1, 1))
    );
    assert_eq!(
        create_pipe_box(base, region, MemType::Image(ImageType::Image1DBuffer)),
        Ok(bx(1, 2, 3, 4, 1, 1))
    );
    assert_eq!(create_pipe_box(base, region, MemType::Buffer), Ok(bx(1, 2, 3, 4, 1, 1)));
    assert_eq!(
        create_pipe_box(base, region, MemType::Image(ImageType::Image1DArray)),
        Ok(bx(1, 3, 2, 4, 1, 5))
    );
    let max = CLVec::new(i32::MAX as usize, i16::MAX as usize, i16::MAX as usize);
    assert!(create_pipe_box(max, max, MemType::Image(ImageType::Image3D)).is_ok());
    for bad in [
        CLVec::new(i32::MAX as usize + 1, 0, 0),
        CLVec::new(0, i16::MAX as usize + 1, 0),
        CLVec::new(0, 0, i16::MAX as usize + 1),
    ] {
        assert_eq!(
            create_pipe_box(bad, region, MemType::Image(ImageType::Image3D)),
            Err(MemError::OutOfHostMemory)
        );
        assert_eq!(
            create_pipe_box(base, bad, MemType::Image(ImageType::Image3D)),
            Err(MemError::OutOfHostMemory)
        );
    }
    assert_eq!(to_i32(i32::MAX as usize), Ok(i32::MAX));
    assert_eq!(to_i16(i16::MAX as usize + 1), Err(MemError::OutOfHostMemory));
    assert_eq!(to_u32(u32::MAX as usize), Ok(u32::MAX));
    assert_eq!(to_u32(u32::MAX as usize + 1), Err(MemError::OutOfHostMemory));
    assert_eq!(ConstMemoryPtr::from_ptr(9).as_ptr(), 9);
}

fn params(region: CLVec, pixel_size: u8) -> SwCopy {
    SwCopy {
        region,
        src_origin: CLVec::zero(),
        src_row_pitch: 0,
        src_slice_pitch: 0,
        dst_origin: CLVec::zero(),
        dst_row_pitch: 0,
        dst_slice_pitch: 0,
        pixel_size,
    }
}

#[test]
fn software_copy_of_a_region() {
    // source: 2 slices of 3 rows of 4 bytes, densely; copy 2x2x2 from (1,1,0)
    let src: Vec<u8> = (0..24).collect();
    let mut dst = vec![0xffu8; 20];
    let p = SwCopy {
        src_origin: CLVec::new(1, 1, 0),
        src_row_pitch: 4,
        src_slice_pitch: 12,
        dst_origin: CLVec::new(1, 0, 0),
        dst_row_pitch: 3,
        dst_slice_pitch: 8,
        ..params(CLVec::new(2, 2, 2), 1)
    };
    assert!(copy_fits(&p, src.len(), dst.len()));
    sw_copy(
        &src,
        &mut dst,
        &p.region,
        &p.src_origin,
        p.src_row_pitch,
        p.src_slice_pitch,
        &p.dst_origin,
        p.dst_row_pitch,
        p.dst_slice_pitch,
        p.pixel_size,
    );
    let f = 0xffu8;
    assert_eq!(
        dst,
        vec![f, 5, 6, f, 9, 10, f, f, f, 17, 18, f, 21, 22, f, f, f, f, f, f]
    );
}

#[test]
fn software_copy_of_wide_pixels_and_overlapping_rows() {
    let src: Vec<u8> = (1..=16).collect();
    let mut dst = vec![0u8; 12];
    // rows of two pixels of 4 bytes, written 4 bytes apart: the later row wins
    sw_copy(
        &src,
        &mut dst,
        &CLVec::new(2, 2, 1),
        &CLVec::zero(),
        8,
        0,
        &CLVec::zero(),
        4,
        0,
        4,
    );
    assert_eq!(dst, vec![1, 2, 3, 4, 9, 10, 11, 12, 13, 14, 15, 16]);
    // a region without rows copies nothing
    let mut dst = vec![7u8; 4];
    sw_copy(&src, &mut dst, &CLVec::new(4, 0, 9), &CLVec::zero(), 1 << 60, 1 << 60, &CLVec::zero(), 1, 1, 1);
    sw_copy(&src, &mut dst, &CLVec::new(4, 9, 0), &CLVec::zero(), 1 << 60, 1 << 60, &CLVec::zero(), 1, 1, 1);
    assert_eq!(dst, vec![7u8; 4]);
}

#[test]
fn copy_fits_tests_the_last_row() {
    let p = SwCopy {
        src_row_pitch: 4,
        src_slice_pitch: 12,
        dst_row_pitch: 2,
        dst_slice_pitch: 4,
        ..params(CLVec::new(2, 2, 2), 1)
    };
    // last source row starts at 4 + 12, last destination row at 2 + 4
    assert!(copy_fits(&p, 18, 8));
    assert!(!copy_fits(&p, 17, 8));
    assert!(!copy_fits(&p, 18, 7));
    assert!(copy_fits(&params(CLVec::new(9, 0, 9), 1), 0, 0));
    assert!(copy_fits(&params(CLVec::new(0, 1, 1), 1), 0, 0));
    let huge = SwCopy {
        src_row_pitch: usize::MAX,
        ..params(CLVec::new(1, 3, 1), 1)
    };
    assert!(!copy_fits(&huge, usize::MAX, usize::MAX));
}

#[test]
fn linear_copy_round_trip() {
    let data = [9u8, 8, 7];
    let mut resource = vec![0u8; 8];
    // what the device does on an upload at offset 2, and what a window at 2 shows
    resource[2..5].copy_from_slice(&data);
    let mut back = [1u8; 5];
    copy_linear(&resource[2..5], &mut back, 3);
    assert_eq!(back, [9, 8, 7, 1, 1]);
    copy_linear(&resource, &mut back, 0);
    assert_eq!(back, [9, 8, 7, 1, 1]);
}

fn res(id: u64) -> Resource {
    Resource {
        id,
        is_staging: false,
        is_user: false,
        is_buffer: false,
        is_linear: true,
        width: 8,
        height: 8,
        depth: 1,
        array_size: 1,
    }
}

fn gl(is_buffer: bool, cube: bool, format: bool) -> GLImport {
    GLImport {
        target: 0x0DE1,
        obj: 42,
        mem_type: if is_buffer {
            MemType::Buffer
        } else {
            MemType::Image(ImageType::Image2D)
        },
        gl_object_type: 0x2001,
        is_gl_buffer: is_buffer,
        is_cube_map_face: cube,
        format: if format {
            Some(GLFormat {
                image_format: ImageFormat {
                    image_channel_order: 0x10B5,
                    image_channel_data_type: 0x10D2,
                },
                pipe_format: 67,
            })
        } else {
            None
        },
        props: GLMemProps {
            height: 8,
            depth: 1,
            width: 8,
            offset: if is_buffer { 16 } else { 0 },
            array_size: 1,
            pixel_size: 4,
            stride: 32,
        },
    }
}

#[test]
fn import_from_foreign_surface() {
    let imported: HashMap<u64, Resource> = [(1, res(10))].into_iter().collect();
    match MemBase::from_gl(5, 3, &gl(true, false, false), imported.clone(), None).unwrap() {
        Mem::Buffer(b) => {
            assert_eq!(b.offset, 16);
            assert_eq!(b.base.size, 256);
            assert_eq!(b.base.mem_type, MemType::Buffer);
            assert_eq!((b.base.id, b.base.flags, b.base.host_ptr), (5, 3, 0));
            assert!(b.base.parent.is_none());
            assert_eq!(b.base.res.as_ref().unwrap().get(&1), Some(&res(10)));
            let obj = b.base.gl_obj.as_ref().unwrap();
            assert_eq!(
                (obj.gl_object_target, obj.gl_object_type, obj.gl_object_name),
                (0x0DE1, 0x2001, 42)
            );
            assert!(obj.shadow_map.is_none());
        }
        Mem::Image(_) => panic!("a buffer was imported"),
    }
    let shadow: HashMap<u64, Resource> = [(1, res(11))].into_iter().collect();
    match MemBase::from_gl(5, 0, &gl(false, true, true), imported.clone(), Some(shadow)).unwrap() {
        Mem::Image(i) => {
            assert_eq!(i.pipe_format, 67);
            assert_eq!(i.image_elem_size, 4);
            assert_eq!(i.pixel_size, 4);
            assert_eq!(i.image_desc.image_type, ImageType::Image2D);
            assert_eq!(
                (i.image_desc.image_width, i.image_desc.image_height, i.image_desc.image_depth),
                (8, 8, 1)
            );
            assert_eq!((i.image_desc.num_mip_levels, i.image_desc.num_samples), (1, 1));
            assert_eq!(i.base.res.as_ref().unwrap().get(&1), Some(&res(11)));
            let map = i.base.gl_obj.as_ref().unwrap().shadow_map.as_ref().unwrap();
            assert_eq!(map.get(&11), Some(&res(10)));
            assert_eq!(map.len(), 1);
        }
        Mem::Buffer(_) => panic!("an image was imported"),
    }
    assert!(matches!(
        MemBase::from_gl(5, 0, &gl(false, false, false), imported.clone(), None),
        Err(MemError::OutOfHostMemory)
    ));
    assert!(matches!(
        MemBase::from_gl(5, 0, &gl(false, true, true), imported.clone(), None),
        Err(MemError::OutOfResources)
    ));
    let big = GLImport {
        props: GLMemProps {
            height: u16::MAX,
            depth: u16::MAX,
            width: u32::MAX,
            offset: 0,
            array_size: u16::MAX,
            pixel_size: 255,
            stride: 0,
        },
        ..gl(false, false, true)
    };
    assert_eq!(big.props.size().is_ok(), usize::BITS > 64);
    assert_eq!(gl(true, false, false).props.size(), Ok(256));
}

#[test]
fn samplers() {
    assert_eq!(Sampler::nir_to_cl(0, 0, 0), (CL_ADDRESS_NONE, CL_FILTER_NEAREST, false));
    assert_eq!(Sampler::nir_to_cl(1, 1, 7), (CL_ADDRESS_CLAMP_TO_EDGE, CL_FILTER_LINEAR, true));
    assert_eq!(Sampler::nir_to_cl(2, 0, 1).0, CL_ADDRESS_CLAMP);
    assert_eq!(Sampler::nir_to_cl(3, 0, 1).0, CL_ADDRESS_REPEAT);
    assert_eq!(Sampler::nir_to_cl(4, 0, 1).0, CL_ADDRESS_MIRRORED_REPEAT);
    let state = |filter, wrap, unnormalized| SamplerState {
        min_img_filter: filter,
        mag_img_filter: filter,
        unnormalized_coords: unnormalized,
        wrap_r: wrap,
        wrap_s: wrap,
        wrap_t: wrap,
    };
    assert_eq!(
        Sampler::cl_to_pipe((CL_ADDRESS_CLAMP, CL_FILTER_LINEAR, true)),
        state(TexFilter::Linear, TexWrap::ClampToBorder, false)
    );
    assert_eq!(
        Sampler::cl_to_pipe((CL_ADDRESS_NONE, CL_FILTER_NEAREST, false)),
        state(TexFilter::Nearest, TexWrap::ClampToEdge, true)
    );
    assert_eq!(
        Sampler::cl_to_pipe((CL_ADDRESS_CLAMP_TO_EDGE, CL_FILTER_NEAREST, false)).wrap_s,
        TexWrap::ClampToEdge
    );
    assert_eq!(
        Sampler::cl_to_pipe((CL_ADDRESS_REPEAT, CL_FILTER_NEAREST, false)).wrap_s,
        TexWrap::Repeat
    );
    assert_eq!(
        Sampler::new(1, true, CL_ADDRESS_MIRRORED_REPEAT, CL_FILTER_LINEAR, None).pipe(),
        state(TexFilter::Linear, TexWrap::MirrorRepeat, false)
    );
}

#[test]
fn method_headers() {
    assert_eq!(MAX_MTHD_SIZE, 0x1fff);
    for (class, subc) in [
        (0x9097u16, 0u8),
        (0xc397, 0),
        (0x90c0, 1),
        (0xc6c0, 1),
        (0x9039, 2),
        (0x902d, 3),
        (0x90b5, 4),
        (0xc1b5, 4),
    ] {
        assert_eq!(class_to_subc(class), subc);
    }
    let h = MthdHeader::new(IncType::NInc, 3, 0x1234, 5);
    assert_eq!(h.to_bits(), 0x2000_0000 | (5 << 16) | (3 << 13) | (0x1234 >> 2));
    assert_eq!(h.inc_type(), Some(IncType::NInc));
    assert_eq!(h.subc(), 3);
    assert_eq!(h.addr(), 0x1234);
    assert_eq!(h.len(), 5);
    assert_eq!(MthdHeader::new(IncType::ZeroInc, 0, 0, 0).to_bits(), 0xa000_0000);
    assert_eq!(MthdHeader::new(IncType::OneInc, 0, 0, 0).to_bits(), 0x6000_0000);
    assert_eq!(MthdHeader::new(IncType::OneInc, 0, 0, 0).inc_type(), Some(IncType::OneInc));
    assert_eq!(MthdHeader::new(IncType::ZeroInc, 0, 0, 0).inc_type(), Some(IncType::ZeroInc));
    let immd = MthdHeader::new_immd(0x1eef, 7, 0x7ffc);
    assert_eq!(immd, 0x8000_0000 | (0x1eef << 16) | (7 << 13) | 0x1fff);
    assert_eq!(MthdHeader(immd).inc_type(), None);
    assert_eq!(MthdHeader(immd).subc(), 7);
    assert_eq!(MthdHeader(immd).addr(), 0x7ffc);

    let mut h = MthdHeader::new(IncType::NInc, 3, 0x1234, 5);
    h.set_inc_type(IncType::ZeroInc);
    assert_eq!(h.inc_type(), Some(IncType::ZeroInc));
    assert_eq!((h.subc(), h.addr(), h.len()), (3, 0x1234, 5));
    h.set_inc_type(IncType::OneInc);
    assert_eq!(h.to_bits(), 0x6000_0000 | (5 << 16) | (3 << 13) | (0x1234 >> 2));
    assert_eq!(IncType::NInc.number(), 0);
    assert_eq!(IncType::OneInc.number(), 3);
    assert_eq!(IncType::ZeroInc.number(), 5);
    // the new size is masked after it was moved to its place: the size field ends up clear
    h.add_len(2);
    assert_eq!(h.to_bits(), 0x6000_0000 | (3 << 13) | (0x1234 >> 2));
    assert_eq!((h.subc(), h.addr()), (3, 0x1234));
}

#[test]
fn push_buffer() {
    let mut p = Push::new();
    assert_eq!(p.len(), 0);
    // a small value is the immediate of its header
    p.push_method(0x9097, 0x100, 0x12);
    let mut out = [0u32; 1];
    p.flush(&mut out);
    assert_eq!(out, [0x8000_0000 | (0x12 << 16) | (0x100 >> 2)]);
    assert_eq!(p.len(), 0);
    // inline data follows a header
    p.push_inline_data(&[1, 2, 3]);
    p.push_inline_data(&[]);
    let mut out = [0u32; 3];
    p.flush(&mut out);
    assert_eq!(out, [1, 2, 3]);

    // a large value follows a header for one dword; the next address joins it
    let header = 0x2000_0000 | (1 << 16) | (1 << 13) | (0x200 >> 2);
    p.push_array_method(0x90c0, 0x200, 0x1_0000);
    assert_eq!(p.len(), 2);
    p.mthd_to_bits(1, 0x204, 7);
    let mut out = [0u32; 3];
    p.flush(&mut out);
    assert_eq!(out, [header & !0x1fff_0000, 0x1_0000, 7]);

    // the same address again turns the method into one that does not increment
    p.mthd_to_bits(1, 0x200, 0x1_0000);
    p.mthd_to_bits(1, 0x200, 0x2_0000);
    let mut out = [0u32; 3];
    p.flush(&mut out);
    assert_eq!(out, [0xa000_0000 | (1 << 13) | (0x200 >> 2), 0x1_0000, 0x2_0000]);

    // another subchannel or address starts a new method
    p.mthd_to_bits(1, 0x200, 0x1_0000);
    p.mthd_to_bits(2, 0x204, 0x2_0000);
    p.mthd_to_bits(2, 0x300, 5);
    let mut out = [0u32; 5];
    p.flush(&mut out);
    assert_eq!(
        out,
        [
            header,
            0x1_0000,
            0x2000_0000 | (1 << 16) | (2 << 13) | (0x204 >> 2),
            0x2_0000,
            0x8000_0000 | (5 << 16) | (2 << 13) | (0x300 >> 2)
        ]
    );
}
