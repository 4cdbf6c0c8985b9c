use gpumem::image_desc::{CLImageDescInfo, ImageDesc};
use gpumem::mappings::{MappingTransfer, Mappings};
use gpumem::memory::{
    teardown, Buffer, Image, ImageFormat, Mem, MemBase, CL_MEM_ALLOC_HOST_PTR,
    CL_MEM_COPY_HOST_PTR, CL_MEM_HOST_NO_ACCESS, CL_MEM_HOST_READ_ONLY, CL_MEM_HOST_WRITE_ONLY,
    CL_MEM_USE_HOST_PTR,
};
use gpumem::pipe::{
    Device, ImageType, MemType, MutMemoryPtr, PipeBox, RWFlags, Resource, ResourceType, Transfer,
};
use gpumem::placement::{can_map_directly, choose_strategy, Strategy};
use gpumem::plan::{
    BufferMap, BufferSubdata, ClearBuffer, ClearImage, CopyPlan, CopyRegion, ImageWrite,
    MapRegion, MapStep, SessionAction, SessionEvent, ShadowRequest, SyncAction, TextureMap,
    TextureSubdata, UnmapPlan, Window, WriteBack,
};
use gpumem::types::{CLVec, MemError};
use std::collections::HashMap;
use std::sync::Arc;

fn dev(id: u64, unified_memory: bool) -> Device {
    Device { id, unified_memory }
}

fn buffer_res(id: u64) -> Resource {
    Resource {
        id,
        is_staging: false,
        is_user: false,
        is_buffer: true,
        is_linear: true,
        width: 4096,
        height: 1,
        depth: 1,
        array_size: 1,
    }
}

fn tiled_res(id: u64) -> Resource {
    Resource {
        id,
        is_staging: false,
        is_user: false,
        is_buffer: false,
        is_linear: false,
        width: 64,
        height: 8,
        depth: 1,
        array_size: 5,
    }
}

fn on(devs: &[(u64, Resource)]) -> Option<HashMap<u64, Resource>> {
    Some(devs.iter().cloned().collect())
}

fn buffer(size: usize, flags: u64, host_ptr: usize, res: &[(u64, Resource)]) -> Arc<Buffer> {
    MemBase::new_buffer(1, flags, size, host_ptr, Vec::new(), on(res)).unwrap()
}

fn tx(id: u64, ptr: usize) -> Transfer {
    Transfer {
        id,
        ptr,
        row_pitch: 256,
        slice_pitch: 2048,
    }
}

fn desc(image_type: ImageType, w: usize, h: usize, d: usize, a: usize) -> ImageDesc {
    ImageDesc {
        image_type,
        image_width: w,
        image_height: h,
        image_depth: d,
        image_array_size: a,
        image_row_pitch: 0,
        image_slice_pitch: 0,
        num_mip_levels: 0,
        num_samples: 0,
    }
}

fn image(
    parent: Option<Mem>,
    image_type: ImageType,
    d: ImageDesc,
    flags: u64,
    host_ptr: usize,
    res: Option<HashMap<u64, Resource>>,
) -> Arc<Image> {
    MemBase::new_image(
        7,
        parent,
        MemType::Image(image_type),
        flags,
        &ImageFormat {
            image_channel_order: 0x10B5,
            image_channel_data_type: 0x10D2,
        },
        d,
        4,
        host_ptr,
        Vec::new(),
        4,
        67,
        res,
    )
    .unwrap()
}

#[test]
fn unified_linear_is_mapped_directly_without_shadow() {
    let d = dev(1, true);
    let r = buffer_res(10);
    assert!(can_map_directly(&d, &r));
    assert_eq!(choose_strategy(&d, &r), Strategy::Direct);

    let b = buffer(4096, 0, 0, &[(1, r)]);
    let mut maps = Mappings::new();
    let plan = match b.map(&mut maps, &d, 16).unwrap() {
        MapStep::Open(plan) => plan,
        MapStep::Mapped(_) => panic!("no session yet"),
    };
    assert_eq!(plan.strategy, Strategy::Direct);
    assert_eq!(plan.region, MapRegion::Buffer { offset: 0, size: 4096 });
    assert_eq!(plan.rw, RWFlags::RW);
    assert_eq!(
        plan.step(SessionEvent::Start),
        SessionAction::MapDirectly {
            res: r,
            region: MapRegion::Buffer { offset: 0, size: 4096 },
            rw: RWFlags::RW
        }
    );
    let t = tx(5, 0x1000);
    assert_eq!(
        plan.step(SessionEvent::DirectMapped(Some(t))),
        SessionAction::Opened { tx: t, shadow: None }
    );
    assert!(maps.session(&d).is_none());
    let ptr = b.map_opened(&mut maps, &d, 16, t, None).unwrap();
    assert_eq!(ptr.as_ptr(), 0x1010);
    assert_eq!(
        maps.session(&d),
        Some(MappingTransfer {
            tx: t,
            shadow: None,
            pending: 1
        })
    );
    assert_eq!(b.sync_shadow(&mut maps, &d, ptr).unwrap(), SyncAction::Nothing);
    assert_eq!(maps.session(&d).unwrap().pending, 0);
    assert!(b.base.is_mapped_ptr(&maps, 0x1010));
    assert_eq!(
        b.unmap(&mut maps, &d, ptr).unwrap(),
        UnmapPlan {
            write_back: WriteBack::Nothing,
            retire: Some(t)
        }
    );
    assert!(maps.session(&d).is_none());
    assert!(!b.base.is_mapped_ptr(&maps, 0x1010));
}

#[test]
fn discrete_tiled_is_shadowed_and_synced_once() {
    let d = dev(1, false);
    let r = tiled_res(10);
    assert!(!can_map_directly(&d, &r));
    assert_eq!(choose_strategy(&d, &r), Strategy::Shadow);

    let b = buffer(4096, 0, 0, &[(1, r)]);
    let mut maps = Mappings::new();
    let plan = match b.map(&mut maps, &d, 0).unwrap() {
        MapStep::Open(plan) => plan,
        MapStep::Mapped(_) => panic!("no session yet"),
    };
    assert_eq!(plan.strategy, Strategy::Shadow);
    assert_eq!(
        plan.step(SessionEvent::Start),
        SessionAction::CreateShadow(ShadowRequest::Buffer { size: 4096 })
    );
    let shadow = Resource {
        id: 11,
        is_staging: true,
        ..buffer_res(11)
    };
    assert_eq!(
        plan.step(SessionEvent::ShadowCreated(Some(shadow))),
        SessionAction::MapCoherent {
            staging: shadow,
            region: MapRegion::Buffer { offset: 0, size: 4096 },
            rw: RWFlags::RW
        }
    );
    let t = tx(5, 0x8000);
    assert_eq!(
        plan.step(SessionEvent::ShadowMapped(shadow, Some(t))),
        SessionAction::Opened {
            tx: t,
            shadow: Some(shadow)
        }
    );
    let first = b.map_opened(&mut maps, &d, 0, t, Some(shadow)).unwrap();
    // a second map before the first pointer is installed or released
    let second = match b.map(&mut maps, &d, 64).unwrap() {
        MapStep::Mapped(p) => p,
        MapStep::Open(_) => panic!("the session exists"),
    };
    assert_eq!(second.as_ptr(), 0x8040);
    assert_eq!(maps.session(&d).unwrap().pending, 2);

    let whole = PipeBox {
        x: 0,
        y: 0,
        z: 0,
        width: 4096,
        height: 1,
        depth: 1,
    };
    assert_eq!(
        b.sync_shadow(&mut maps, &d, first).unwrap(),
        SyncAction::Copy(CopyRegion {
            src: r,
            dst: shadow,
            dst_x: 0,
            dst_y: 0,
            dst_z: 0,
            bx: whole
        })
    );
    assert_eq!(b.sync_shadow(&mut maps, &d, second).unwrap(), SyncAction::Nothing);
    assert_eq!(maps.session(&d).unwrap().pending, 0);

    assert_eq!(
        b.unmap(&mut maps, &d, first).unwrap(),
        UnmapPlan {
            write_back: WriteBack::Nothing,
            retire: None
        }
    );
    assert_eq!(
        b.unmap(&mut maps, &d, second).unwrap(),
        UnmapPlan {
            write_back: WriteBack::Copy(CopyRegion {
                src: shadow,
                dst: r,
                dst_x: 0,
                dst_y: 0,
                dst_z: 0,
                bx: whole
            }),
            retire: Some(t)
        }
    );
    assert!(maps.is_unmapped());
}

#[test]
fn direct_map_refused_falls_back_to_shadow_and_failures_are_reported() {
    let d = dev(1, true);
    let b = buffer(4096, 0, 0, &[(1, buffer_res(10))]);
    let mut maps = Mappings::new();
    let plan = match b.map(&mut maps, &d, 0).unwrap() {
        MapStep::Open(plan) => plan,
        MapStep::Mapped(_) => panic!("no session yet"),
    };
    assert_eq!(
        plan.step(SessionEvent::DirectMapped(None)),
        SessionAction::CreateShadow(ShadowRequest::Buffer { size: 4096 })
    );
    assert_eq!(
        plan.step(SessionEvent::ShadowCreated(None)),
        SessionAction::Failed(MemError::OutOfResources)
    );
    assert_eq!(
        plan.step(SessionEvent::ShadowMapped(buffer_res(11), None)),
        SessionAction::Failed(MemError::OutOfResources)
    );
    assert!(maps.session(&d).is_none());
}

#[test]
fn array_layers_of_2d_array_are_its_depth() {
    let d = ImageDesc {
        image_row_pitch: 0,
        ..desc(ImageType::Image2DArray, 16, 8, 0, 5)
    };
    assert_eq!(d.size(), CLVec::new(16, 8, 5));
    assert_eq!(desc(ImageType::Image1DArray, 16, 8, 3, 5).size(), CLVec::new(16, 5, 3));
    assert_eq!(desc(ImageType::Image1D, 16, 0, 0, 5).size(), CLVec::new(16, 1, 1));
    assert_eq!(desc(ImageType::Image3D, 16, 4, 2, 5).size(), CLVec::new(16, 4, 2));
}

#[test]
fn unmap_on_one_device_leaves_the_session_of_another() {
    let a = dev(1, true);
    let bdev = dev(2, false);
    let ra = buffer_res(10);
    let rb = buffer_res(20);
    let b = buffer(4096, 0, 0, &[(1, ra), (2, rb)]);
    let mut maps = Mappings::new();

    let ta = tx(1, 0x1000);
    let tb = tx(2, 0x9000);
    let shadow_b = Resource {
        is_staging: true,
        ..buffer_res(21)
    };
    assert!(matches!(b.map(&mut maps, &a, 0).unwrap(), MapStep::Open(_)));
    let pa = b.map_opened(&mut maps, &a, 0, ta, None).unwrap();
    assert!(matches!(b.map(&mut maps, &bdev, 0).unwrap(), MapStep::Open(_)));
    let pb = b.map_opened(&mut maps, &bdev, 8, tb, Some(shadow_b)).unwrap();
    // the first pointer of the object is brought up to date, by the session of its device
    assert_eq!(b.sync_shadow(&mut maps, &a, pa).unwrap(), SyncAction::Nothing);
    assert_eq!(b.sync_shadow(&mut maps, &bdev, pb).unwrap(), SyncAction::Nothing);

    let session_b = maps.session(&bdev).unwrap();
    let plan = b.unmap(&mut maps, &a, pa).unwrap();
    assert_eq!(
        plan,
        UnmapPlan {
            write_back: WriteBack::Nothing,
            retire: None
        }
    );
    assert_eq!(maps.session(&bdev), Some(session_b));
    assert!(maps.session(&a).is_some());
    assert!(maps.contains_ptr(pb.as_ptr()));

    // the last unmap writes back through the session of its own device only
    let plan = b.unmap(&mut maps, &bdev, pb).unwrap();
    assert_eq!(plan.retire, Some(tb));
    assert!(matches!(plan.write_back, WriteBack::Copy(c) if c.src == shadow_b && c.dst == rb));
    assert!(maps.session(&bdev).is_none());
    assert_eq!(maps.session(&a).unwrap().tx, ta);
}

#[test]
fn second_unmap_is_a_noop() {
    let d = dev(1, true);
    let b = buffer(64, 0, 0, &[(1, buffer_res(10))]);
    let mut maps = Mappings::new();
    let p = b.map_opened(&mut maps, &d, 0, tx(1, 0x100), None).unwrap();
    b.sync_shadow(&mut maps, &d, p).unwrap();
    assert!(b.unmap(&mut maps, &d, p).unwrap().retire.is_some());
    assert_eq!(
        b.unmap(&mut maps, &d, p).unwrap(),
        UnmapPlan {
            write_back: WriteBack::Nothing,
            retire: None
        }
    );
    assert!(maps.is_unmapped());
    assert_eq!(maps.count(p.as_ptr()), 0);
    // through the object as a whole
    let m = Mem::Buffer(b.clone());
    assert_eq!(
        m.unmap(&mut maps, &d, MutMemoryPtr::from_ptr(0x5555)).unwrap(),
        UnmapPlan {
            write_back: WriteBack::Nothing,
            retire: None
        }
    );
}

#[test]
fn pointer_references_are_counted() {
    let d = dev(1, true);
    let mut maps = Mappings::new();
    assert!(maps.is_unmapped());
    maps.open_session(&d, tx(1, 0x100), None);
    maps.mark_pending(&d);
    assert_eq!(maps.session(&d).unwrap().pending, 2);
    assert!(maps.increase_ref(&d, 0x100));
    assert!(!maps.increase_ref(&d, 0x100));
    assert_eq!(maps.count(0x100), 2);
    assert_eq!(maps.session(&d).unwrap().pending, 0);
    assert!(!maps.is_last_reference(0x100));
    assert_eq!(maps.decrease_ref(0x100, &d), (false, None));
    assert!(maps.is_last_reference(0x100));
    assert!(!maps.is_last_reference(0x104));
    assert_eq!(maps.clean_up_tx(&d), None);
    assert_eq!(maps.decrease_ref(0x100, &d), (true, None));
    assert_eq!(maps.decrease_ref(0x100, &d), (false, None));
    assert!(!maps.contains_ptr(0x100));
    assert_eq!(maps.clean_up_tx(&dev(9, true)), None);
    assert_eq!(maps.clean_up_tx(&d), Some(tx(1, 0x100)));
    assert_eq!(maps.clean_up_tx(&d), None);
    // a device without session is left alone
    maps.unmark_pending(&d);
    assert!(maps.session(&d).is_none());
}

#[test]
fn pending_map_keeps_session_alive() {
    let d = dev(1, true);
    let b = buffer(64, 0, 0, &[(1, buffer_res(10))]);
    let mut maps = Mappings::new();
    let p = b.map_opened(&mut maps, &d, 0, tx(1, 0x100), None).unwrap();
    b.sync_shadow(&mut maps, &d, p).unwrap();
    // a second map is under way while the first pointer is released
    assert!(matches!(b.map(&mut maps, &d, 4).unwrap(), MapStep::Mapped(q) if q.as_ptr() == 0x104));
    let plan = b.unmap(&mut maps, &d, p).unwrap();
    assert_eq!(plan.retire, None);
    assert_eq!(maps.session(&d).unwrap().pending, 1);
}

#[test]
fn host_pointer_buffer_is_mapped_in_place() {
    let d = dev(1, false);
    let r = buffer_res(10);
    let b = buffer(256, CL_MEM_USE_HOST_PTR, 0x7000, &[(1, r)]);
    assert_eq!(b.base.host_ptr(), 0x7000);
    assert_eq!(b.base.has_user_shadow_buffer(&d), Ok(true));
    let mut maps = Mappings::new();
    let p = match b.map(&mut maps, &d, 32).unwrap() {
        MapStep::Mapped(p) => p,
        MapStep::Open(_) => panic!("host memory needs no session"),
    };
    assert_eq!(p.as_ptr(), 0x7020);
    assert!(maps.session(&d).is_none());
    assert_eq!(
        b.sync_shadow(&mut maps, &d, p).unwrap(),
        SyncAction::ReadBuffer(BufferMap {
            res: r,
            offset: 0,
            size: 256,
            rw: RWFlags::RD
        })
    );
    assert_eq!(
        b.unmap(&mut maps, &d, p).unwrap(),
        UnmapPlan {
            write_back: WriteBack::WriteBuffer(BufferSubdata {
                res: r,
                offset: 0,
                size: 256
            }),
            retire: None
        }
    );
    // a resource that is the host memory itself has nothing to keep in step
    let user = Resource { is_user: true, ..r };
    let b = buffer(256, CL_MEM_USE_HOST_PTR, 0x7000, &[(1, user)]);
    assert_eq!(b.base.has_user_shadow_buffer(&d), Ok(false));
    // without the flag the address is forgotten
    let b = buffer(256, CL_MEM_COPY_HOST_PTR, 0x7000, &[(1, r)]);
    assert_eq!(b.base.host_ptr(), 0);
}

#[test]
fn sub_buffer_maps_where_its_parent_does() {
    let d = dev(1, true);
    let r = buffer_res(10);
    let parent = buffer(4096, CL_MEM_USE_HOST_PTR, 0x7000, &[(1, r)]);
    let sub = MemBase::new_sub_buffer(2, parent.clone(), CL_MEM_USE_HOST_PTR, 256, 512).unwrap();
    assert_eq!(sub.offset, 256);
    assert_eq!(sub.base.size, 512);
    assert_eq!(sub.base.host_ptr(), 0x7100);
    assert_eq!(sub.base.get_res_of_dev(&d), Ok(r));
    assert!(sub.base.has_same_parent(&parent.base));
    assert!(parent.base.has_same_parent(&sub.base));
    let mut m1 = Mappings::new();
    let mut m2 = Mappings::new();
    assert_eq!(sub.map(&mut m1, &d, 8), parent.map(&mut m2, &d, 264));

    // through sessions: the window of the sub-buffer starts at its offset
    let parent = buffer(4096, 0, 0, &[(1, r)]);
    let sub = MemBase::new_sub_buffer(2, parent.clone(), 0, 256, 512).unwrap();
    assert_eq!(sub.base.host_ptr(), 0);
    let plan = match sub.map(&mut m1, &d, 8).unwrap() {
        MapStep::Open(plan) => plan,
        MapStep::Mapped(_) => panic!("no session yet"),
    };
    assert_eq!(plan.res, r);
    assert_eq!(plan.region, MapRegion::Buffer { offset: 256, size: 512 });
    let base = 0x10000;
    let ps = sub.map_opened(&mut m1, &d, 8, tx(1, base + 256), None).unwrap();
    let pp = parent.map_opened(&mut m2, &d, 264, tx(2, base), None).unwrap();
    assert_eq!(ps, pp);

    // the offset of the sub-buffer is applied once
    let dst = buffer(4096, 0, 0, &[(1, buffer_res(30))]);
    assert_eq!(
        sub.copy_to_buffer(&d, &dst, 16, 32, 64),
        parent.copy_to_buffer(&d, &dst, 256 + 16, 32, 64)
    );
    assert_eq!(
        sub.copy_to_buffer(&d, &dst, 16, 32, 64).unwrap(),
        CopyRegion {
            src: r,
            dst: buffer_res(30),
            dst_x: 32,
            dst_y: 0,
            dst_z: 0,
            bx: PipeBox {
                x: 272,
                y: 0,
                z: 0,
                width: 64,
                height: 1,
                depth: 1
            }
        }
    );
    assert_eq!(
        dst.copy_to_buffer(&d, &sub, 0, 8, 4).unwrap().dst_x,
        264
    );
}

#[test]
fn sub_buffer_offset_overflow_is_refused() {
    let parent = buffer(4096, CL_MEM_USE_HOST_PTR, usize::MAX - 4, &[(1, buffer_res(10))]);
    assert!(matches!(
        MemBase::new_sub_buffer(2, parent.clone(), 0, 5, 1),
        Err(MemError::OutOfHostMemory)
    ));
    assert!(MemBase::new_sub_buffer(2, parent, 0, 4, 1).is_ok());
}

#[test]
fn buffer_transfers_validate_before_anything_is_opened() {
    let d = dev(1, true);
    let r = buffer_res(10);
    let b = buffer(4096, 0, 0, &[(1, r)]);
    assert_eq!(
        b.read(&d, 16, 32),
        Ok(BufferMap {
            res: r,
            offset: 16,
            size: 32,
            rw: RWFlags::RD
        })
    );
    assert_eq!(
        b.tx(&d, 0, 8, RWFlags::WR).unwrap().rw,
        RWFlags::WR
    );
    assert_eq!(
        b.write(&d, 16, 32),
        Ok(BufferSubdata {
            res: r,
            offset: 16,
            size: 32
        })
    );
    assert_eq!(
        b.fill(&d, 4, 8),
        Ok(ClearBuffer {
            res: r,
            offset: 4,
            size: 8
        })
    );
    // a device that the object was never realized on
    assert_eq!(b.read(&dev(2, true), 0, 1), Err(MemError::OutOfHostMemory));
    assert_eq!(b.base.get_res_of_dev(&dev(2, true)), Err(MemError::OutOfHostMemory));
    // ranges that the device cannot take
    assert_eq!(b.read(&d, 0x8000_0000, 1), Err(MemError::OutOfHostMemory));
    assert_eq!(b.read(&d, 0, 0x8000_0000), Err(MemError::OutOfHostMemory));
    assert!(b.read(&d, 0x7fff_ffff, 0x7fff_ffff).is_ok());
    assert_eq!(b.write(&d, u32::MAX as usize + 1, 1), Err(MemError::OutOfHostMemory));
    assert!(b.write(&d, u32::MAX as usize, u32::MAX as usize).is_ok());
    assert_eq!(b.fill(&d, 0, u32::MAX as usize + 1), Err(MemError::OutOfHostMemory));
    assert_eq!(b.apply_offset(usize::MAX), Ok(usize::MAX));
    let sub = MemBase::new_sub_buffer(2, b.clone(), 0, 1, 1).unwrap();
    assert_eq!(sub.apply_offset(usize::MAX), Err(MemError::OutOfHostMemory));
    assert_eq!(sub.read(&d, usize::MAX, 1), Err(MemError::OutOfHostMemory));
    // mapping
    let mut maps = Mappings::new();
    assert_eq!(b.map(&mut maps, &dev(2, true), 0), Err(MemError::OutOfHostMemory));
    assert_eq!(
        b.map_opened(&mut maps, &d, 2, tx(1, usize::MAX - 1), None),
        Err(MemError::OutOfHostMemory)
    );
    assert!(maps.session(&d).is_none());
    let big = buffer(0x8000_0000, 0, 0, &[(1, r)]);
    assert_eq!(big.map(&mut maps, &d, 0), Err(MemError::OutOfHostMemory));
    assert_eq!(big.tx_raw_async(&d, RWFlags::RW), Err(MemError::OutOfHostMemory));
}

#[test]
fn rectangular_transfers_open_a_window_onto_the_region() {
    let d = dev(1, true);
    let r = buffer_res(10);
    let b = buffer(4096, 0, 0, &[(1, r)]);
    let region = CLVec::new(4, 3, 2);
    let plan = b
        .read_rect(&d, &region, &CLVec::new(1, 2, 1), 16, 64, &CLVec::new(5, 6, 7), 8, 32)
        .unwrap();
    // offset 1 + 2 * 16 + 1 * 64, length 4 + 2 * 16 + 1 * 64
    assert_eq!(
        plan.src,
        Window::Buffer(BufferMap {
            res: r,
            offset: 97,
            size: 100,
            rw: RWFlags::RD
        })
    );
    assert_eq!(plan.dst, Window::Host);
    assert_eq!(plan.copy.region, region);
    assert_eq!(plan.copy.src_origin, CLVec::zero());
    assert_eq!(plan.copy.dst_origin, CLVec::new(5, 6, 7));
    assert_eq!((plan.copy.src_row_pitch, plan.copy.src_slice_pitch), (16, 64));
    assert_eq!((plan.copy.dst_row_pitch, plan.copy.dst_slice_pitch), (8, 32));
    assert_eq!(plan.copy.pixel_size, 1);
    assert_eq!(plan.resolve(&tx(1, 0), &tx(2, 0)), plan.copy);

    let plan = b
        .write_rect(&d, &region, &CLVec::new(5, 6, 7), 8, 32, &CLVec::new(1, 2, 1), 16, 64)
        .unwrap();
    assert_eq!(plan.src, Window::Host);
    assert_eq!(
        plan.dst,
        Window::Buffer(BufferMap {
            res: r,
            offset: 97,
            size: 100,
            rw: RWFlags::WR
        })
    );
    assert_eq!(plan.copy.src_origin, CLVec::new(5, 6, 7));
    assert_eq!(plan.copy.dst_origin, CLVec::zero());

    let other = buffer(4096, 0, 0, &[(1, buffer_res(30))]);
    let plan = b
        .copy_rect(&other, &d, &region, &CLVec::zero(), 4, 12, &CLVec::new(0, 1, 0), 8, 24)
        .unwrap();
    assert!(matches!(plan.src, Window::Buffer(m) if m.offset == 0 && m.size == 4 + 2 * 4 + 12));
    assert!(matches!(plan.dst, Window::Buffer(m) if m.offset == 8 && m.size == 4 + 2 * 8 + 24 && m.res.id == 30));
    // a region without rows has no extent
    assert_eq!(
        b.read_rect(&d, &CLVec::new(4, 0, 1), &CLVec::zero(), 16, 64, &CLVec::zero(), 8, 32),
        Err(MemError::OutOfHostMemory)
    );
    assert_eq!(
        b.read_rect(&d, &region, &CLVec::new(0, 0, usize::MAX), 1, 2, &CLVec::zero(), 8, 32),
        Err(MemError::OutOfHostMemory)
    );
}

#[test]
fn new_buffer_and_image_requests() {
    let req = MemBase::new_buffer_request(CL_MEM_ALLOC_HOST_PTR | CL_MEM_COPY_HOST_PTR, 64, 0x10);
    assert_eq!(req.res_type, ResourceType::Staging);
    assert!(req.copy_host_data);
    assert_eq!((req.size, req.host_ptr), (64, 0x10));
    let req = MemBase::new_buffer_request(0, 64, 0);
    assert_eq!(req.res_type, ResourceType::Normal);
    assert!(!req.copy_host_data);
    assert!(matches!(
        MemBase::new_buffer(1, 0, 64, 0, Vec::new(), None),
        Err(MemError::OutOfResources)
    ));

    let format = ImageFormat {
        image_channel_order: 1,
        image_channel_data_type: 2,
    };
    let d = desc(ImageType::Image1D, 16, 9, 9, 9);
    let req = MemBase::new_image_request(false, CL_MEM_ALLOC_HOST_PTR, &format, &d, 0).unwrap();
    assert_eq!(req.desc, desc(ImageType::Image1D, 16, 1, 1, 1));
    assert_eq!(req.res_type, ResourceType::Staging);
    let again = MemBase::new_image_retry(&req).unwrap();
    assert_eq!(again.res_type, ResourceType::Normal);
    assert_eq!(again.desc, req.desc);
    assert_eq!(MemBase::new_image_retry(&again), None);
    assert_eq!(MemBase::new_image_request(true, 0, &format, &d, 0), None);
    assert_eq!(
        gpumem::memory::sanitized(&desc(ImageType::Image2DArray, 4, 5, 6, 7)),
        desc(ImageType::Image2DArray, 4, 5, 1, 7)
    );
}

#[test]
fn image_size_and_failures() {
    let i = image(
        None,
        ImageType::Image2DArray,
        desc(ImageType::Image2DArray, 16, 8, 77, 5),
        0,
        0,
        on(&[(1, tiled_res(10))]),
    );
    // 16 * 8 * 5 pixels of 4 bytes; the declared descriptor is kept
    assert_eq!(i.base.size, 2560);
    assert_eq!(i.image_desc.image_depth, 77);
    assert!(!i.is_parent_buffer());
    assert!(!i.base.is_buffer());
    let no_texture = MemBase::new_image(
        1,
        None,
        MemType::Image(ImageType::Image2D),
        0,
        &i.image_format,
        desc(ImageType::Image2D, 1, 1, 1, 1),
        4,
        0,
        Vec::new(),
        4,
        0,
        None,
    );
    assert!(matches!(no_texture, Err(MemError::OutOfResources)));
    let too_big = MemBase::new_image(
        1,
        None,
        MemType::Image(ImageType::Image2D),
        0,
        &i.image_format,
        desc(ImageType::Image2D, usize::MAX, 2, 1, 1),
        4,
        0,
        Vec::new(),
        4,
        0,
        on(&[(1, tiled_res(10))]),
    );
    assert!(matches!(too_big, Err(MemError::OutOfHostMemory)));
    assert_eq!(
        desc(ImageType::Image2D, usize::MAX, 2, 1, 1).pixels(),
        Err(MemError::OutOfHostMemory)
    );
    assert_eq!(desc(ImageType::Image2D, usize::MAX, 0, 1, 1).pixels(), Ok(0));
    assert_eq!(desc(ImageType::Image3D, 2, 3, 4, 5).pixels(), Ok(24));
    assert_eq!(desc(ImageType::Image1DArray, 2, 3, 4, 5).pixels(), Ok(10));
}

#[test]
fn image_descriptor_info() {
    let d = ImageDesc {
        image_row_pitch: 1 << 33,
        image_slice_pitch: 9,
        ..desc(ImageType::Image2DArray, 16, 8, 1, 5)
    };
    assert_eq!(d.type_info(), (2, true));
    assert_eq!(d.dims(), 2);
    assert_eq!(d.dims_with_array(), 3);
    assert!(d.has_slice());
    assert!(d.is_array());
    assert_eq!(d.row_pitch(), Err(MemError::OutOfHostMemory));
    assert_eq!(d.slice_pitch(), 9);
    assert_eq!(d.width(), Ok(16));
    assert_eq!(d.height(), Ok(8));
    assert_eq!(
        d.bx(),
        Ok(PipeBox {
            x: 0,
            y: 0,
            z: 0,
            width: 16,
            height: 8,
            depth: 5
        })
    );
    let d = desc(ImageType::Image1D, 1 << 33, 1 << 33, 0, 0);
    assert_eq!(d.type_info(), (1, false));
    assert_eq!(d.dims_with_array(), 1);
    assert!(!d.has_slice());
    assert_eq!(d.width(), Err(MemError::OutOfHostMemory));
    assert_eq!(d.height(), Err(MemError::OutOfHostMemory));
    assert_eq!(d.bx(), Err(MemError::OutOfHostMemory));
    assert_eq!(desc(ImageType::Image3D, 1, 1, 1, 1).type_info(), (3, false));
    assert!(desc(ImageType::Image3D, 1, 1, 1, 1).has_slice());
    assert_eq!(desc(ImageType::Image1DBuffer, 1, 1, 1, 1).dims(), 1);
    assert_eq!(
        desc(ImageType::Image1DArray, 16, 0, 0, 5).bx(),
        Ok(PipeBox {
            x: 0,
            y: 0,
            z: 0,
            width: 16,
            height: 1,
            depth: 5
        })
    );
}

#[test]
fn image_in_texture_is_read_written_and_filled_through_boxes() {
    let d = dev(1, false);
    let r = tiled_res(10);
    let i = image(
        None,
        ImageType::Image1DArray,
        desc(ImageType::Image1DArray, 16, 0, 0, 5),
        CL_MEM_HOST_READ_ONLY,
        0,
        on(&[(1, r)]),
    );
    assert_eq!(i.pipe_image_host_access(), gpumem::image::PIPE_IMAGE_ACCESS_READ);
    let region = CLVec::new(4, 2, 1);
    let origin = CLVec::new(1, 3, 0);
    // the layers of a one-dimensional array are the depth of its box
    let bx = PipeBox {
        x: 1,
        y: 0,
        z: 3,
        width: 4,
        height: 1,
        depth: 2,
    };
    let plan = i.read(&d, &region, &origin, 64, 128).unwrap();
    assert_eq!(
        plan.src,
        Window::Texture(TextureMap {
            res: r,
            bx,
            rw: RWFlags::RD
        })
    );
    assert!(plan.src_pitch_of_transfer);
    assert!(!plan.dst_pitch_of_transfer);
    assert_eq!(plan.copy.pixel_size, 4);
    let run = plan.resolve(&tx(1, 0), &tx(2, 0));
    assert_eq!((run.src_row_pitch, run.src_slice_pitch), (256, 2048));
    assert_eq!((run.dst_row_pitch, run.dst_slice_pitch), (64, 128));

    assert_eq!(
        i.write(&d, &region, 64, 128, &origin),
        Ok(ImageWrite::Subdata(TextureSubdata {
            res: r,
            bx,
            stride: 64,
            layer_stride: 64
        }))
    );
    assert_eq!(
        i.write(&d, &region, 1 << 33, 128, &origin),
        Err(MemError::OutOfHostMemory)
    );
    assert_eq!(
        i.fill(&d, &origin, &region),
        Ok(ClearImage::Texture {
            res: r,
            pattern_words: 1,
            bx
        })
    );
    assert_eq!(
        i.tx_image(&d, &bx, RWFlags::WR),
        Ok(TextureMap {
            res: r,
            bx,
            rw: RWFlags::WR
        })
    );
    assert_eq!(i.tx_image(&dev(3, true), &bx, RWFlags::WR), Err(MemError::OutOfHostMemory));
    assert_eq!(
        i.read(&d, &CLVec::new(1 << 40, 1, 1), &origin, 64, 128),
        Err(MemError::OutOfHostMemory)
    );
    assert_eq!(
        image(None, ImageType::Image2D, desc(ImageType::Image2D, 1, 1, 1, 1), CL_MEM_HOST_WRITE_ONLY, 0, on(&[(1, r)]))
            .pipe_image_host_access(),
        gpumem::image::PIPE_IMAGE_ACCESS_WRITE
    );
    assert_eq!(
        image(None, ImageType::Image2D, desc(ImageType::Image2D, 1, 1, 1, 1), CL_MEM_HOST_NO_ACCESS, 0, on(&[(1, r)]))
            .pipe_image_host_access(),
        0
    );
    assert_eq!(
        image(None, ImageType::Image2D, desc(ImageType::Image2D, 1, 1, 1, 1), 0, 0, on(&[(1, r)]))
            .pipe_image_host_access(),
        gpumem::image::PIPE_IMAGE_ACCESS_READ_WRITE
    );
}

fn image_in_buffer(parent: &Arc<Buffer>, row_pitch: usize) -> Arc<Image> {
    image(
        Some(Mem::Buffer(parent.clone())),
        ImageType::Image2D,
        ImageDesc {
            image_row_pitch: row_pitch,
            image_slice_pitch: 0,
            ..desc(ImageType::Image2D, 16, 8, 0, 0)
        },
        0,
        0,
        None,
    )
}

#[test]
fn image_in_buffer_goes_through_the_buffer_with_declared_pitches() {
    let d = dev(1, true);
    let r = buffer_res(10);
    let root = buffer(4096, 0, 0, &[(1, r)]);
    let sub = MemBase::new_sub_buffer(2, root.clone(), 0, 128, 1024).unwrap();
    let i = image_in_buffer(&sub, 80);
    assert!(i.is_parent_buffer());
    assert_eq!(i.base.get_res_of_dev(&d), Ok(r));
    assert!(i.base.get_parent().is_buffer());
    assert_eq!(i.base.get_root().id, root.base.id);

    let region = CLVec::new(4, 2, 1);
    let origin = CLVec::new(1, 3, 0);
    let plan = i.read(&d, &region, &origin, 16, 32).unwrap();
    // offset of the sub-buffer once, then 1 pixel of 4 bytes and 3 rows of 80
    assert_eq!(
        plan.src,
        Window::Buffer(BufferMap {
            res: r,
            offset: 128 + 4 + 240,
            size: 16 + 80,
            rw: RWFlags::RD
        })
    );
    assert!(!plan.src_pitch_of_transfer);
    assert_eq!((plan.copy.src_row_pitch, plan.copy.src_slice_pitch), (80, 0));

    match i.write(&d, &region, 16, 32, &origin).unwrap() {
        ImageWrite::Software(plan) => {
            assert_eq!(plan.src, Window::Host);
            assert!(matches!(plan.dst, Window::Buffer(m) if m.offset == 372 && m.rw == RWFlags::WR));
            assert_eq!((plan.copy.dst_row_pitch, plan.copy.dst_slice_pitch), (80, 0));
            assert_eq!((plan.copy.src_row_pitch, plan.copy.src_slice_pitch), (16, 32));
        }
        ImageWrite::Subdata(_) => panic!("an image in a buffer is written in software"),
    }
    assert_eq!(
        i.fill(&d, &origin, &region),
        Ok(ClearImage::Buffer {
            res: r,
            pattern_words: 1,
            origin,
            region,
            row_stride: 80,
            slice_stride: 0,
            pixel_size: 4
        })
    );

    // copies with an image in a buffer are made in software
    let tex = image(
        None,
        ImageType::Image2D,
        desc(ImageType::Image2D, 16, 8, 0, 0),
        0,
        0,
        on(&[(1, tiled_res(20))]),
    );
    match i.copy_to_image(&d, &tex, origin, CLVec::zero(), &region).unwrap() {
        CopyPlan::Software(plan) => {
            assert!(matches!(plan.src, Window::Buffer(m) if m.offset == 372));
            assert!(matches!(plan.dst, Window::Texture(m) if m.res.id == 20 && m.bx.width == 4 && m.bx.height == 2));
            assert!(plan.dst_pitch_of_transfer && !plan.src_pitch_of_transfer);
        }
        CopyPlan::Hardware(_) => panic!("declared pitches are not the hardware's"),
    }
    // between textures the device copies
    let tex2 = image(
        None,
        ImageType::Image2D,
        desc(ImageType::Image2D, 16, 8, 0, 0),
        0,
        0,
        on(&[(1, tiled_res(21))]),
    );
    assert_eq!(
        tex.copy_to_image(&d, &tex2, origin, CLVec::new(2, 1, 0), &region),
        Ok(CopyPlan::Hardware(CopyRegion {
            src: tiled_res(20),
            dst: tiled_res(21),
            dst_x: 2,
            dst_y: 1,
            dst_z: 0,
            bx: PipeBox {
                x: 1,
                y: 3,
                z: 0,
                width: 4,
                height: 2,
                depth: 1
            }
        }))
    );
    let wide = image_in_buffer(&sub, 1 << 33);
    assert_eq!(
        wide.copy_to_image(&d, &tex, origin, CLVec::zero(), &region),
        Err(MemError::OutOfHostMemory)
    );
    assert_eq!(wide.fill(&d, &origin, &region), Err(MemError::OutOfHostMemory));
}

#[test]
fn copies_between_buffer_and_image() {
    let d = dev(1, true);
    let r = buffer_res(10);
    let b = buffer(4096, 0, 0, &[(1, r)]);
    let sub = MemBase::new_sub_buffer(2, b.clone(), 0, 100, 1000).unwrap();
    let tex = image(
        None,
        ImageType::Image2D,
        desc(ImageType::Image2D, 16, 8, 0, 0),
        0,
        0,
        on(&[(1, tiled_res(20))]),
    );
    let region = CLVec::new(4, 2, 1);
    let plan = sub.copy_to_image(&d, &tex, 8, CLVec::new(1, 1, 0), &region).unwrap();
    // dense pixels: 4 bytes, rows of 16, slices of 32; two rows are 16 + 16 bytes
    assert_eq!(
        plan.src,
        Window::Buffer(BufferMap {
            res: r,
            offset: 108,
            size: 32,
            rw: RWFlags::RD
        })
    );
    assert!(matches!(plan.dst, Window::Texture(m) if m.rw == RWFlags::WR && m.bx.x == 1 && m.bx.y == 1));
    assert_eq!((plan.copy.src_row_pitch, plan.copy.src_slice_pitch), (16, 32));
    assert_eq!(plan.copy.pixel_size, 4);
    assert!(plan.dst_pitch_of_transfer);

    let plan = tex.copy_to_buffer(&d, &sub, CLVec::new(1, 1, 0), 2, &region).unwrap();
    assert!(matches!(plan.src, Window::Texture(m) if m.rw == RWFlags::RD));
    assert_eq!(
        plan.dst,
        Window::Buffer(BufferMap {
            res: r,
            offset: 108,
            size: 32,
            rw: RWFlags::WR
        })
    );
    assert_eq!((plan.copy.dst_row_pitch, plan.copy.dst_slice_pitch), (16, 32));
    assert_eq!(
        sub.copy_to_image(&d, &tex, 8, CLVec::zero(), &CLVec::new(usize::MAX, 2, 1)),
        Err(MemError::OutOfHostMemory)
    );
}

#[test]
fn image_maps_with_the_pitches_of_its_session() {
    let d = dev(1, false);
    let r = tiled_res(10);
    let i = image(
        None,
        ImageType::Image2D,
        desc(ImageType::Image2D, 16, 8, 0, 0),
        0,
        0,
        on(&[(1, r)]),
    );
    let mut maps = Mappings::new();
    let (mut row, mut slice) = (11usize, 22usize);
    let plan = match i.map(&mut maps, &d, &CLVec::new(1, 2, 3), &mut row, &mut slice).unwrap() {
        MapStep::Open(plan) => plan,
        MapStep::Mapped(_) => panic!("no session yet"),
    };
    assert_eq!((row, slice), (11, 22));
    assert_eq!(plan.strategy, Strategy::Shadow);
    assert_eq!(
        plan.region,
        MapRegion::Texture {
            bx: PipeBox {
                x: 0,
                y: 0,
                z: 0,
                width: 16,
                height: 8,
                depth: 1
            }
        }
    );
    assert_eq!(
        plan.shadow,
        ShadowRequest::Texture {
            width: 64,
            height: 8,
            depth: 1,
            array_size: 5,
            image_type: ImageType::Image2D,
            pipe_format: 67
        }
    );
    let shadow = Resource {
        id: 11,
        is_staging: true,
        ..r
    };
    let p = i
        .map_opened(&mut maps, &d, &CLVec::new(1, 2, 3), &mut row, &mut slice, tx(1, 0x1000), Some(shadow))
        .unwrap();
    // a 2D image takes the row pitch of the transfer and keeps the caller's slice pitch
    assert_eq!((row, slice), (256, 22));
    assert_eq!(p.as_ptr(), 0x1000 + 4 + 2 * 256 + 3 * 22);
    let q = match i.map(&mut maps, &d, &CLVec::zero(), &mut row, &mut slice).unwrap() {
        MapStep::Mapped(q) => q,
        MapStep::Open(_) => panic!("the session exists"),
    };
    assert_eq!(q.as_ptr(), 0x1000);
    assert_eq!(maps.session(&d).unwrap().pending, 2);
    assert!(matches!(
        i.sync_shadow(&mut maps, &d, p).unwrap(),
        SyncAction::Copy(c) if c.src == r && c.dst == shadow && c.bx.width == 16 && c.bx.height == 8
    ));
    assert_eq!(i.sync_shadow(&mut maps, &d, q).unwrap(), SyncAction::Nothing);
    assert_eq!(i.unmap(&mut maps, &d, q).unwrap().write_back, WriteBack::Nothing);
    let plan = i.unmap(&mut maps, &d, p).unwrap();
    assert!(matches!(plan.write_back, WriteBack::Copy(c) if c.src == shadow && c.dst == r));
    assert_eq!(plan.retire, Some(tx(1, 0x1000)));

    // an address that cannot be formed leaves everything as it was
    let (mut row, mut slice) = (1usize, 1usize);
    assert_eq!(
        i.map_opened(&mut maps, &d, &CLVec::new(usize::MAX, 0, 0), &mut row, &mut slice, tx(1, 0x1000), None),
        Err(MemError::OutOfHostMemory)
    );
    assert_eq!((row, slice), (1, 1));
    assert!(maps.session(&d).is_none());
}

#[test]
fn image_with_host_memory_and_image_in_buffer_map_with_declared_pitches() {
    let d = dev(1, false);
    let r = tiled_res(10);
    let i = image(
        None,
        ImageType::Image2D,
        ImageDesc {
            image_row_pitch: 64,
            image_slice_pitch: 512,
            ..desc(ImageType::Image2D, 16, 8, 0, 0)
        },
        CL_MEM_USE_HOST_PTR,
        0x4000,
        on(&[(1, r)]),
    );
    let mut maps = Mappings::new();
    let (mut row, mut slice) = (0usize, 0usize);
    let p = i.map(&mut maps, &d, &CLVec::new(1, 2, 0), &mut row, &mut slice).unwrap();
    assert_eq!(p, MapStep::Mapped(MutMemoryPtr::from_ptr(0x4000 + 4 + 128)));
    assert_eq!((row, slice), (64, 512));
    assert!(maps.session(&d).is_none());
    let ptr = MutMemoryPtr::from_ptr(0x4000 + 4 + 128);
    match i.sync_shadow(&mut maps, &d, ptr).unwrap() {
        SyncAction::ReadImage(plan) => {
            assert_eq!(plan.dst, Window::Host);
            assert_eq!(plan.copy.region, CLVec::new(16, 8, 1));
            assert_eq!((plan.copy.dst_row_pitch, plan.copy.dst_slice_pitch), (64, 512));
        }
        other => panic!("{:?}", other),
    }
    match i.unmap(&mut maps, &d, ptr).unwrap().write_back {
        WriteBack::WriteImage(ImageWrite::Subdata(s)) => {
            assert_eq!(s.stride, 64);
            assert_eq!(s.layer_stride, 512);
            assert_eq!((s.bx.width, s.bx.height, s.bx.depth), (16, 8, 1));
        }
        other => panic!("{:?}", other),
    }

    let root = buffer(4096, 0, 0, &[(1, buffer_res(10))]);
    let i = image_in_buffer(&root, 80);
    let mut parent_maps = Mappings::new();
    let (mut row, mut slice) = (0usize, 7usize);
    assert!(matches!(
        i.map(&mut parent_maps, &d, &CLVec::new(1, 2, 0), &mut row, &mut slice).unwrap(),
        MapStep::Open(plan) if plan.region == MapRegion::Buffer { offset: 0, size: 4096 }
    ));
    assert_eq!((row, slice), (0, 7));
    let p = i
        .map_opened(&mut parent_maps, &d, &CLVec::new(1, 2, 0), &mut row, &mut slice, tx(1, 0x2000), None)
        .unwrap();
    assert_eq!(p.as_ptr(), 0x2000 + 4 + 160);
    assert_eq!((row, slice), (80, 0));
    let q = i.map(&mut parent_maps, &d, &CLVec::zero(), &mut row, &mut slice).unwrap();
    assert_eq!(q, MapStep::Mapped(MutMemoryPtr::from_ptr(0x2000)));
    assert_eq!(parent_maps.session(&d).unwrap().pending, 2);
}

#[test]
fn svm_and_teardown() {
    let r = buffer_res(10);
    let parent = buffer(4096, CL_MEM_USE_HOST_PTR, 0x7000, &[(1, r)]);
    let sub = MemBase::new_sub_buffer(2, parent.clone(), 0, 0, 1).unwrap();
    assert!(sub.base.is_svm(true));
    assert!(!sub.base.is_svm(false));
    assert!(!buffer(4096, 0, 0, &[(1, r)]).base.is_svm(true));

    let mut maps = Mappings::new();
    maps.open_session(&dev(1, true), tx(1, 0x10), None);
    maps.open_session(&dev(2, true), tx(2, 0x20), Some(r));
    let down = teardown(&vec![3, 1, 2], &mut maps);
    assert_eq!(down.callbacks, vec![2, 1, 3]);
    let mut transfers = down.transfers.clone();
    transfers.sort_by_key(|t| t.0);
    assert_eq!(transfers, vec![(1, tx(1, 0x10)), (2, tx(2, 0x20))]);
    assert!(maps.session(&dev(1, true)).is_none());
    assert!(maps.drain().is_empty());
}

#[test]
fn write_then_read_addresses_the_same_bytes() {
    let r = buffer_res(10);
    for d in [dev(1, true), dev(1, false)] {
        for res in [r, tiled_res(10)] {
            let root = buffer(4096, 0, 0, &[(1, res)]);
            let sub = MemBase::new_sub_buffer(2, root.clone(), 0, 512, 1024).unwrap();
            let data = [1u8, 2, 3, 4, 5];
            let upload = sub.write(&d, 7, data.len()).unwrap();
            let window = sub.read(&d, 7, data.len()).unwrap();
            assert_eq!(upload.res, window.res);
            assert_eq!(upload.offset as i64, window.offset as i64);
            assert_eq!(upload.size as i64, window.size as i64);
            assert_eq!((upload.offset, upload.size), (519, 5));
            // the device uploads into the resource, the window shows the resource
            let mut resource = vec![0u8; 4096];
            let at = upload.offset as usize;
            resource[at..at + upload.size as usize].copy_from_slice(&data);
            let start = window.offset as usize;
            let shown = &resource[start..start + window.size as usize];
            let mut back = [0u8; 5];
            gpumem::copy::copy_linear(shown, &mut back, data.len());
            assert_eq!(back, data);
        }
    }
}
