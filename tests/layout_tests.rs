use engine::buffer::Buffer;
use engine::frame::{FrameError, InFlightFrame, MAX_POINT_LIGHTS, point_light_slots};
use engine::layout::{
    FRAME_DATA_SIZE, GeometrySize, align_up, compute_frame_layout, place_mesh, place_text,
};
use engine::descriptors::{DescriptorSetKind, in_flight_frame_descriptor_writes, static_mesh_descriptor_write};
use engine::mesh::{Material, MeshEntry};
use engine::static_meshes::StaticMeshes;

fn geometry(index_count: usize, attribute_count: usize) -> GeometrySize {
    GeometrySize { index_count, attribute_count }
}

#[test]
fn align_up_rounds_to_multiples() {
    assert_eq!(align_up(0, 4), Some(0));
    assert_eq!(align_up(5, 4), Some(8));
    assert_eq!(align_up(8, 4), Some(8));
    assert_eq!(align_up(310, 256), Some(512));
    assert_eq!(align_up(usize::MAX, 2), None);
    assert_eq!(align_up(usize::MAX - 1, 2), Some(usize::MAX - 1));
}

#[test]
fn place_mesh_pads_indices_and_attributes() {
    // 3 indices (6 bytes) and 9 floats (36 bytes) behind the header.
    let (o, end) = place_mesh(FRAME_DATA_SIZE, geometry(3, 9), 256).unwrap();
    assert_eq!(o.index_offset, 304);
    assert_eq!(o.attribute_offset, 312);
    assert_eq!(o.uniform_offset, 512);
    assert_eq!(end, 576);
}

#[test]
fn place_text_puts_atlas_index_behind_matrix() {
    let (o, end) = place_text(0, geometry(6, 16), 64).unwrap();
    assert_eq!(o.index_offset, 0);
    assert_eq!(o.attribute_offset, 12);
    assert_eq!(o.matrix_uniform_offset, 128);
    assert_eq!(o.atlas_index_uniform_offset, 192);
    assert_eq!(end, 196);
}

#[test]
fn packed_offsets_increase() {
    let meshes = vec![geometry(3, 9), geometry(1, 0), geometry(36, 144)];
    let texts = vec![geometry(6, 16), geometry(12, 32)];
    let layout = compute_frame_layout(&meshes, &texts, 16).unwrap();
    assert_eq!(layout.meshes.len(), 3);
    assert_eq!(layout.texts.len(), 2);
    let mut previous_end = FRAME_DATA_SIZE;
    for (o, g) in layout.meshes.iter().zip(meshes.iter()) {
        assert!(o.index_offset >= previous_end);
        let index_end = o.index_offset + 2 * g.index_count;
        assert_eq!(o.attribute_offset, (index_end + 3) / 4 * 4);
        assert!(o.uniform_offset >= o.attribute_offset + 4 * g.attribute_count);
        assert_eq!(o.uniform_offset % 16, 0);
        previous_end = o.uniform_offset + 64;
    }
    for (o, g) in layout.texts.iter().zip(texts.iter()) {
        assert!(o.index_offset >= previous_end);
        let index_end = o.index_offset + 2 * g.index_count;
        assert_eq!(o.attribute_offset, (index_end + 3) / 4 * 4);
        assert!(o.matrix_uniform_offset >= o.attribute_offset + 4 * g.attribute_count);
        assert_eq!(o.atlas_index_uniform_offset, o.matrix_uniform_offset + 48);
        previous_end = o.atlas_index_uniform_offset + 4;
    }
    assert_eq!(layout.size, previous_end);
}

#[test]
fn first_mesh_offsets_exact() {
    let layout = compute_frame_layout(&vec![geometry(3, 9), geometry(1, 0)], &vec![], 256).unwrap();
    assert_eq!(layout.meshes[0].index_offset, 304);
    assert_eq!(layout.meshes[0].attribute_offset, 312);
    assert_eq!(layout.meshes[0].uniform_offset, 512);
    assert_eq!(layout.meshes[1].index_offset, 576);
    assert_eq!(layout.meshes[1].attribute_offset, 580);
    assert_eq!(layout.meshes[1].uniform_offset, 768);
    assert_eq!(layout.size, 832);
}

#[test]
fn frame_too_large_is_refused() {
    assert!(compute_frame_layout(&vec![geometry(usize::MAX, 0)], &vec![], 4).is_none());
    let mut frame = InFlightFrame::new(1, 2).0;
    let before = frame;
    assert_eq!(
        frame.pack(&vec![], &vec![geometry(usize::MAX / 2, 0)], 0, 4).unwrap_err(),
        FrameError::TooLarge
    );
    assert_eq!(frame, before);
}

#[test]
fn growth_rebinds_fixed_ranges() {
    let (mut frame, initial) = InFlightFrame::new(0x92, 0x2);
    assert_eq!(frame.buffer.capacity, 304);
    assert_eq!(initial, in_flight_frame_descriptor_writes());
    let meshes = vec![geometry(3, 9), geometry(6, 24)];
    let plan = frame.pack(&meshes, &vec![geometry(6, 16)], 2, 64).unwrap();
    assert!(plan.reallocated);
    assert_eq!(plan.layout.meshes.len(), 2);
    assert_eq!(plan.layout.texts.len(), 1);
    assert_eq!(frame.buffer.capacity, plan.layout.size as u64);
    assert_eq!(frame.buffer.usage, 0x92);
    assert_eq!(frame.buffer.properties, 0x2);
    let ranges: Vec<(DescriptorSetKind, u32, u64, u64)> =
        plan.descriptor_writes.iter().map(|w| (w.set, w.binding, w.offset, w.range)).collect();
    assert_eq!(
        ranges,
        vec![
            (DescriptorSetKind::FrameData, 0, 0, 304),
            (DescriptorSetKind::MeshData, 0, 0, 64),
            (DescriptorSetKind::TextData, 0, 0, 48),
            (DescriptorSetKind::TextData, 1, 0, 4),
        ]
    );
    // The same frame again fits: no reallocation, no rebinding.
    let again = frame.pack(&meshes, &vec![geometry(6, 16)], 2, 64).unwrap();
    assert!(!again.reallocated);
    assert!(again.descriptor_writes.is_empty());
}

#[test]
fn descriptor_writes_are_fixed() {
    let writes = in_flight_frame_descriptor_writes();
    assert_eq!(writes.len(), 4);
    assert!(!writes[0].dynamic);
    assert!(writes[1].dynamic && writes[2].dynamic && writes[3].dynamic);
    let s = static_mesh_descriptor_write();
    assert_eq!((s.set, s.binding, s.offset, s.range), (DescriptorSetKind::StaticMeshData, 0, 0, 64));
}

#[test]
fn point_light_boundary() {
    let slots = point_light_slots(MAX_POINT_LIGHTS).unwrap();
    assert_eq!(slots.len(), 5);
    assert_eq!((slots[0].position_offset, slots[0].color_offset), (144, 160));
    assert_eq!((slots[4].position_offset, slots[4].color_offset), (272, 288));
    assert_eq!(point_light_slots(MAX_POINT_LIGHTS + 1).unwrap_err(), FrameError::TooManyPointLights);
    let mut frame = InFlightFrame::new(0, 0).0;
    assert!(frame.pack(&vec![], &vec![], 5, 256).is_ok());
}

#[test]
fn empty_frame_is_header_only() {
    let (mut frame, initial) = InFlightFrame::new(0, 0);
    // The descriptor sets are bound when the frame is created.
    let ranges: Vec<u64> = initial.iter().map(|w| w.range).collect();
    assert_eq!(ranges, vec![304, 64, 48, 4]);
    let plan = frame.pack(&vec![], &vec![], 0, 256).unwrap();
    assert_eq!(plan.layout.size, FRAME_DATA_SIZE);
    assert!(!plan.reallocated);
    assert!(plan.point_lights.is_empty());
    assert_eq!(frame.buffer.capacity, 304);
}

#[test]
fn buffer_grows_never_shrinks() {
    let mut b = Buffer::null(1, 2);
    assert!(b.is_null());
    assert!(b.grow_to(100));
    assert_eq!(b.capacity, 100);
    assert!(!b.grow_to(50));
    assert_eq!(b.capacity, 100);
    b.reallocate(10);
    assert_eq!((b.capacity, b.usage, b.properties), (10, 1, 2));
    assert_eq!(Buffer::new(8, 3, 4).capacity, 8);
}

#[test]
fn static_submission_is_idempotent() {
    let meshes = vec![
        MeshEntry { geometry: geometry(3, 9), material: Material::Basic },
        MeshEntry { geometry: geometry(36, 216), material: Material::Lambert },
    ];
    let mut store = StaticMeshes::new(0x3, 0x1);
    let first = store.submit(&meshes, 256).unwrap();
    assert!(first.reallocated);
    assert_eq!(first.descriptor_writes.len(), 1);
    let table = store.render_info.clone();
    let capacity = store.buffer.capacity;
    let second = store.submit(&meshes, 256).unwrap();
    assert_eq!(second.size, first.size);
    assert!(!second.reallocated);
    assert!(second.descriptor_writes.is_empty());
    assert_eq!(store.render_info, table);
    assert_eq!(store.buffer.capacity, capacity);
}

#[test]
fn static_layout_starts_at_zero() {
    let meshes = vec![
        MeshEntry { geometry: geometry(3, 9), material: Material::Basic },
        MeshEntry { geometry: geometry(2, 6), material: Material::Normal },
    ];
    let mut store = StaticMeshes::new(0, 0);
    let upload = store.submit(&meshes, 256).unwrap();
    let info = &store.render_info;
    assert_eq!((info[0].index_offset, info[0].attribute_offset, info[0].uniform_offset), (0, 8, 256));
    assert_eq!((info[1].index_offset, info[1].attribute_offset, info[1].uniform_offset), (320, 324, 512));
    assert_eq!((info[0].index_count, info[1].index_count), (3, 2));
    assert_eq!(info[1].material, Material::Normal);
    assert_eq!(upload.size, 576);
    assert_eq!(store.buffer.capacity, 576);
}

#[test]
fn static_submission_too_large_changes_nothing() {
    let mut store = StaticMeshes::new(0, 0);
    assert!(store.submit(&vec![MeshEntry { geometry: geometry(usize::MAX, 0), material: Material::Basic }], 4).is_none());
    assert!(store.render_info.is_empty());
    assert_eq!(store.buffer.capacity, 0);
}
