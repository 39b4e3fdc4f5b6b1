use engine::component_list::{ComponentList, MAX_ENTITY_COUNT};
use engine::descriptors::DescriptorSetKind;
use engine::layout::{FRAME_DATA_SIZE, GeometrySize, MeshOffsets, TextOffsets};
use engine::mesh::{Handle, Material, Mesh, MeshEntry, StaticMesh, geometry_sizes};
use engine::record::{BufferSource, CommandSlot, material_slot, record_draws};
use engine::render_loop::{AcquireAction, AcquireResult, PresentResult, RenderError, RenderLoop};
use engine::renderer::{FrameFailure, FrameWork, RendererState};
use engine::static_meshes::StaticRenderInfo;
use engine::swapchain::{
    Extent2D, PresentMode, SharingMode, SurfaceCapabilities, UNDEFINED_EXTENT, choose_extent,
    choose_image_count, choose_present_mode, choose_sharing_mode, clamp_dimension,
    configure_swapchain, depth_format_supported,
};

fn geometry(index_count: usize, attribute_count: usize) -> GeometrySize {
    GeometrySize { index_count, attribute_count }
}

fn caps(current: Extent2D, min_count: u32, max_count: u32) -> SurfaceCapabilities {
    SurfaceCapabilities {
        current_extent: current,
        min_image_extent: Extent2D { width: 1, height: 1 },
        max_image_extent: Extent2D { width: 4096, height: 2048 },
        min_image_count: min_count,
        max_image_count: max_count,
    }
}

fn config(width: u32, height: u32) -> engine::swapchain::SwapchainConfig {
    configure_swapchain(
        &caps(Extent2D { width: UNDEFINED_EXTENT, height: UNDEFINED_EXTENT }, 2, 0),
        &vec![PresentMode::Fifo],
        width,
        height,
        0,
        0,
    )
}

fn renderer(width: u32, height: u32) -> RendererState {
    RendererState::new(config(width, height), 3, Extent2D { width, height }, 256, 0x92, 0x2, 0x83, 0x1).0
}

#[test]
fn present_mode_prefers_mailbox() {
    assert_eq!(choose_present_mode(&vec![PresentMode::Fifo, PresentMode::Mailbox]), PresentMode::Mailbox);
    assert_eq!(choose_present_mode(&vec![PresentMode::Immediate, PresentMode::Fifo]), PresentMode::Immediate);
    assert_eq!(choose_present_mode(&vec![PresentMode::Other(7)]), PresentMode::Other(7));
}

#[test]
fn extent_follows_surface_or_framebuffer() {
    let fixed = caps(Extent2D { width: 640, height: 480 }, 2, 0);
    assert_eq!(choose_extent(&fixed, 800, 600), Extent2D { width: 640, height: 480 });
    let open = caps(Extent2D { width: UNDEFINED_EXTENT, height: UNDEFINED_EXTENT }, 2, 0);
    assert_eq!(choose_extent(&open, 800, 600), Extent2D { width: 800, height: 600 });
    assert_eq!(choose_extent(&open, 5000, 0), Extent2D { width: 4096, height: 1 });
    assert_eq!(clamp_dimension(10, 20, 30), 20);
    assert_eq!(clamp_dimension(40, 20, 30), 30);
}

#[test]
fn image_count_is_one_above_minimum() {
    assert_eq!(choose_image_count(&caps(Extent2D { width: 1, height: 1 }, 2, 0)), 3);
    assert_eq!(choose_image_count(&caps(Extent2D { width: 1, height: 1 }, 2, 8)), 3);
    assert_eq!(choose_image_count(&caps(Extent2D { width: 1, height: 1 }, 3, 3)), 3);
    assert_eq!(choose_image_count(&caps(Extent2D { width: 1, height: 1 }, u32::MAX, 0)), u32::MAX);
}

#[test]
fn sharing_and_depth_format() {
    assert_eq!(choose_sharing_mode(1, 1), SharingMode::Exclusive);
    assert_eq!(choose_sharing_mode(0, 2), SharingMode::Concurrent);
    assert!(depth_format_supported(0x200 | 0x1));
    assert!(!depth_format_supported(0x1ff));
}

#[test]
fn acquire_and_present_decisions() {
    let mut l = RenderLoop::new(2);
    assert_eq!(l.on_acquire(AcquireResult::OutOfDate), Ok(AcquireAction::Rebuild));
    assert_eq!(l.on_acquire(AcquireResult::Failed(-4)), Err(RenderError::Acquire(-4)));
    assert_eq!(
        l.on_acquire(AcquireResult::Acquired { image_index: 2, suboptimal: false }),
        Err(RenderError::ImageIndexOutOfRange)
    );
    assert_eq!(
        l.on_acquire(AcquireResult::Acquired { image_index: 1, suboptimal: false }),
        Ok(AcquireAction::Render { image_index: 1, wait_for_frame: None })
    );
    assert_eq!(l.on_present(PresentResult::Presented { suboptimal: false }), Ok(false));
    assert_eq!(l.current_in_flight_frame, 1);
    assert_eq!(
        l.on_acquire(AcquireResult::Acquired { image_index: 1, suboptimal: true }),
        Ok(AcquireAction::Render { image_index: 1, wait_for_frame: Some(0) })
    );
    assert_eq!(l.on_present(PresentResult::OutOfDate), Ok(true));
    assert_eq!(l.current_in_flight_frame, 0);
    assert_eq!(l.on_present(PresentResult::Presented { suboptimal: true }), Ok(true));
    assert_eq!(l.on_present(PresentResult::Failed(-1)), Err(RenderError::Present(-1)));
    assert_eq!(l.current_in_flight_frame, 1);
    l.on_swapchain_rebuilt(4);
    assert_eq!(l.image_frames, vec![None, None, None, None]);
}

#[test]
fn font_changes_are_submitted_once() {
    let mut l = RenderLoop::new(1);
    assert!(!l.take_font_submission());
    l.fonts_changed();
    assert!(l.take_font_submission());
    assert!(!l.take_font_submission());
}

#[test]
fn empty_scene_renders_header_only() {
    let mut r = renderer(1280, 720);
    assert_eq!(r.begin_frame(), (0, false));
    let work = r.render(AcquireResult::Acquired { image_index: 0, suboptimal: false }, &vec![], &vec![], 0).unwrap();
    match work {
        FrameWork::Draw(d) => {
            assert_eq!(d.in_flight_frame, 0);
            assert_eq!(d.image_index, 0);
            assert_eq!(d.wait_for_frame, None);
            assert_eq!(d.frame.layout.size, FRAME_DATA_SIZE);
            assert!(!d.frame.reallocated);
            assert_eq!(d.commands.basic.len() + d.commands.lambert.len() + d.commands.text.len(), 0);
        }
        FrameWork::Skip => panic!("frame skipped"),
    }
    assert_eq!(r.in_flight_frames[0].buffer.capacity, 304);
    assert_eq!(r.render_loop.frames_in_flight, vec![true, false]);
    assert_eq!(r.present(PresentResult::Presented { suboptimal: false }), Ok(false));
    assert_eq!(r.render_loop.current_in_flight_frame, 1);
}

#[test]
fn frame_in_flight_waits_for_its_fence() {
    let mut r = renderer(1280, 720);
    let mesh = vec![MeshEntry { geometry: geometry(3, 9), material: Material::Basic }];
    assert!(r.render(AcquireResult::Acquired { image_index: 0, suboptimal: false }, &mesh, &vec![], 0).is_ok());
    assert_eq!(r.present(PresentResult::Presented { suboptimal: false }), Ok(false));
    assert!(r.render(AcquireResult::Acquired { image_index: 1, suboptimal: false }, &mesh, &vec![], 0).is_ok());
    assert_eq!(r.present(PresentResult::Presented { suboptimal: false }), Ok(false));
    // Back on the first in-flight frame, whose fence was not observed yet.
    let capacity = r.in_flight_frames[0].buffer.capacity;
    let e = r.render(AcquireResult::Acquired { image_index: 2, suboptimal: false }, &vec![geometry_entry(600)], &vec![], 0);
    assert_eq!(e.unwrap_err(), FrameFailure::Render(RenderError::FrameInFlight));
    assert_eq!(r.in_flight_frames[0].buffer.capacity, capacity);
    r.fence_signaled();
    assert_eq!(r.render_loop.frames_in_flight, vec![false, true]);
    let work = r.render(AcquireResult::Acquired { image_index: 0, suboptimal: false }, &vec![geometry_entry(600)], &vec![], 0).unwrap();
    match work {
        FrameWork::Draw(d) => {
            assert_eq!(d.wait_for_frame, Some(0));
            assert!(d.frame.reallocated);
        }
        FrameWork::Skip => panic!("frame skipped"),
    }
    assert!(r.in_flight_frames[0].buffer.capacity > capacity);
}

fn geometry_entry(index_count: usize) -> MeshEntry {
    MeshEntry { geometry: geometry(index_count, 3 * index_count), material: Material::Lambert }
}

#[test]
fn out_of_date_acquire_skips_frame() {
    let mut r = renderer(1280, 720);
    let work = r.render(AcquireResult::OutOfDate, &vec![MeshEntry { geometry: geometry(3, 9), material: Material::Basic }], &vec![], 0).unwrap();
    assert!(matches!(work, FrameWork::Skip));
    assert_eq!(r.in_flight_frames[0].buffer.capacity, 304);
}

#[test]
fn render_places_five_point_lights() {
    let mut r = renderer(1280, 720);
    let work = r.render(AcquireResult::Acquired { image_index: 0, suboptimal: false }, &vec![], &vec![], 5).unwrap();
    match work {
        FrameWork::Draw(d) => {
            let slots: Vec<(usize, usize)> = d.frame.point_lights.iter().map(|s| (s.position_offset, s.color_offset)).collect();
            assert_eq!(slots, vec![(144, 160), (176, 192), (208, 224), (240, 256), (272, 288)]);
        }
        FrameWork::Skip => panic!("frame skipped"),
    }
    assert_eq!(r.present(PresentResult::Presented { suboptimal: false }), Ok(false));
    let e = r.render(AcquireResult::Failed(-3), &vec![], &vec![], 0).unwrap_err();
    assert_eq!(e, FrameFailure::Render(RenderError::Acquire(-3)));
}

#[test]
fn new_renderer_binds_every_frame() {
    let (r, bindings) = RendererState::new(config(640, 480), 3, Extent2D { width: 640, height: 480 }, 256, 0x92, 0x2, 0x83, 0x1);
    assert_eq!(bindings.len(), 2);
    for b in &bindings {
        let ranges: Vec<(DescriptorSetKind, u32, u64)> = b.iter().map(|w| (w.set, w.binding, w.range)).collect();
        assert_eq!(
            ranges,
            vec![
                (DescriptorSetKind::FrameData, 0, 304),
                (DescriptorSetKind::MeshData, 0, 64),
                (DescriptorSetKind::TextData, 0, 48),
                (DescriptorSetKind::TextData, 1, 4),
            ]
        );
    }
    assert_eq!(r.in_flight_frames[1].buffer.capacity, 304);
}
#[test]
fn resize_records_new_framebuffer() {
    let mut r = renderer(1280, 720);
    r.handle_resize(config(800, 600), 2, Extent2D { width: 800, height: 600 });
    assert_eq!(r.framebuffer, Extent2D { width: 800, height: 600 });
    assert_eq!(r.swapchain.extent, Extent2D { width: 800, height: 600 });
    assert_eq!(r.render_loop.image_frames, vec![None, None]);
    let work = r.render(AcquireResult::Acquired { image_index: 1, suboptimal: false }, &vec![], &vec![geometry(6, 16)], 0).unwrap();
    assert!(matches!(work, FrameWork::Draw(_)));
}

#[test]
fn render_routes_dynamic_then_static_draws() {
    let mut r = renderer(640, 480);
    let statics = vec![
        MeshEntry { geometry: geometry(6, 24), material: Material::Lambert },
        MeshEntry { geometry: geometry(3, 9), material: Material::Basic },
    ];
    r.submit_static_meshes(&statics).unwrap();
    r.fonts_changed();
    assert_eq!(r.begin_frame(), (0, true));
    let meshes = vec![
        MeshEntry { geometry: geometry(3, 9), material: Material::Lambert },
        MeshEntry { geometry: geometry(3, 18), material: Material::Normal },
    ];
    let work = r.render(AcquireResult::Acquired { image_index: 2, suboptimal: false }, &meshes, &vec![geometry(6, 16)], 1).unwrap();
    let d = match work {
        FrameWork::Draw(d) => d,
        FrameWork::Skip => panic!("frame skipped"),
    };
    assert!(d.frame.reallocated);
    assert_eq!(d.commands.lambert.len(), 2);
    assert_eq!(d.commands.lambert[0].source, BufferSource::Dynamic);
    assert_eq!(d.commands.lambert[0].index_offset, d.frame.layout.meshes[0].index_offset);
    assert_eq!(d.commands.lambert[1].source, BufferSource::Static);
    assert_eq!(d.commands.lambert[1].index_count, 6);
    assert_eq!(d.commands.basic.len(), 2);
    assert_eq!(d.commands.basic[0].uniform_offset, d.frame.layout.meshes[1].uniform_offset);
    assert_eq!(d.commands.basic[1].source, BufferSource::Static);
    assert_eq!(d.commands.text.len(), 1);
    assert_eq!(d.commands.text[0].atlas_index_offset, Some(d.frame.layout.texts[0].atlas_index_uniform_offset));
}

#[test]
fn material_routing() {
    assert_eq!(material_slot(Material::Basic), CommandSlot::Basic);
    assert_eq!(material_slot(Material::Normal), CommandSlot::Basic);
    assert_eq!(material_slot(Material::Lambert), CommandSlot::Lambert);
}

#[test]
fn record_draws_by_material() {
    let meshes = vec![
        MeshEntry { geometry: geometry(3, 9), material: Material::Basic },
        MeshEntry { geometry: geometry(6, 9), material: Material::Lambert },
    ];
    let offsets = vec![
        MeshOffsets { index_offset: 304, attribute_offset: 312, uniform_offset: 512 },
        MeshOffsets { index_offset: 576, attribute_offset: 588, uniform_offset: 768 },
    ];
    let texts = vec![geometry(12, 32)];
    let text_offsets = vec![TextOffsets {
        index_offset: 832,
        attribute_offset: 856,
        matrix_uniform_offset: 1024,
        atlas_index_uniform_offset: 1280,
    }];
    let statics = vec![StaticRenderInfo {
        index_offset: 0,
        attribute_offset: 8,
        uniform_offset: 256,
        index_count: 3,
        material: Material::Basic,
    }];
    let plan = record_draws(&meshes, &offsets, &texts, &text_offsets, &statics);
    assert_eq!(plan.basic.len(), 2);
    assert_eq!((plan.basic[0].index_offset, plan.basic[0].index_count), (304, 3));
    assert_eq!((plan.basic[1].source, plan.basic[1].uniform_offset), (BufferSource::Static, 256));
    assert_eq!(plan.lambert.len(), 1);
    assert_eq!((plan.lambert[0].attribute_offset, plan.lambert[0].index_count), (588, 6));
    assert_eq!(plan.text[0].uniform_offset, 1024);
    assert_eq!(plan.text[0].index_count, 12);
}

#[test]
fn mesh_constructors_keep_fields() {
    let m = Mesh::new(Handle { index: 4 }, Material::Lambert);
    assert_eq!((m.geometry_handle, m.material), (Handle { index: 4 }, Material::Lambert));
    let s = StaticMesh::new(Handle { index: 2 }, Material::Normal);
    assert_eq!((s.geometry_handle, s.material), (Handle { index: 2 }, Material::Normal));
    let sizes = geometry_sizes(&vec![MeshEntry { geometry: geometry(3, 9), material: Material::Basic }]);
    assert_eq!(sizes, vec![geometry(3, 9)]);
}

#[test]
fn component_list_add_borrow_remove() {
    let mut list: ComponentList<&str> = ComponentList::new();
    list.add(3, "a");
    list.add(7, "b");
    list.add(1, "c");
    assert_eq!(*list.borrow(7), "b");
    assert_eq!(list.try_borrow(2), None);
    assert_eq!(list.try_borrow(MAX_ENTITY_COUNT + 5), None);
    *list.borrow_mut(3) = "d";
    assert_eq!(list.try_borrow(3), Some(&"d"));
    list.remove(3);
    assert_eq!(list.try_borrow(3), None);
    assert_eq!(*list.borrow(1), "c");
    assert_eq!(*list.borrow(7), "b");
    assert_eq!(list.iter().len(), 2);
    list.remove(1);
    assert_eq!(list.iter(), &[(7, "b")]);
    if let Some(c) = list.try_borrow_mut(7) {
        *c = "e";
    }
    assert_eq!(*list.borrow(7), "e");
    assert!(list.try_borrow_mut(8).is_none());
    list.add(3, "f");
    assert_eq!(*list.borrow(3), "f");
}

#[test]
fn component_list_keeps_packed_order() {
    let mut list: ComponentList<u32> = ComponentList::new();
    list.add(5, 50);
    list.add(2, 20);
    list.add(9, 90);
    assert_eq!(list.iter(), &[(5, 50), (2, 20), (9, 90)]);
    list.remove(5);
    assert_eq!(list.iter(), &[(9, 90), (2, 20)]);
    *list.borrow_mut(2) = 21;
    assert_eq!(list.iter(), &[(9, 90), (2, 21)]);
    list.add(5, 51);
    assert_eq!(list.iter(), &[(9, 90), (2, 21), (5, 51)]);
}
