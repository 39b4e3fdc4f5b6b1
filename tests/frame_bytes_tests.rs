use engine::frame_bytes::{MeshData, TextData, write_frame, write_static_meshes};
use engine::mesh::{Material, MeshEntry};
use engine::static_meshes::StaticMeshes;
use engine::layout::{GeometrySize, compute_frame_layout};

fn mesh() -> MeshData {
    MeshData { indices: vec![1, 0, 2, 0, 3, 0], attributes: vec![4; 8], transform: vec![7; 64] }
}

fn text() -> TextData {
    TextData { indices: vec![1, 0, 2, 0], attributes: vec![8; 4], matrix: vec![9; 48], atlas_index: vec![5, 0, 0, 0] }
}

#[test]
fn header_only_frame() {
    let header = vec![1u8; 304];
    let bytes = write_frame(&header, &vec![], &vec![], 256).unwrap();
    assert_eq!(bytes, header);
}

#[test]
fn mesh_and_text_bytes_at_their_offsets() {
    let header = vec![1u8; 304];
    let bytes = write_frame(&header, &vec![mesh()], &vec![text()], 256).unwrap();
    assert_eq!(bytes.len(), 1028);
    assert_eq!(&bytes[..304], &header[..]);
    assert_eq!(&bytes[304..310], &[1, 0, 2, 0, 3, 0]);
    assert_eq!(&bytes[310..312], &[0, 0]);
    assert_eq!(&bytes[312..320], &[4; 8]);
    assert!(bytes[320..512].iter().all(|&b| b == 0));
    assert_eq!(&bytes[512..576], &[7; 64][..]);
    assert_eq!(&bytes[576..580], &[1, 0, 2, 0]);
    assert_eq!(&bytes[580..584], &[8; 4]);
    assert_eq!(&bytes[768..816], &[9; 48][..]);
    assert_eq!(&bytes[1024..1028], &[5, 0, 0, 0]);
    // The same offsets as the frame layout gives.
    let layout = compute_frame_layout(
        &vec![GeometrySize { index_count: 3, attribute_count: 2 }],
        &vec![GeometrySize { index_count: 2, attribute_count: 1 }],
        256,
    )
    .unwrap();
    assert_eq!(layout.meshes[0].uniform_offset, 512);
    assert_eq!(layout.texts[0].matrix_uniform_offset, 768);
    assert_eq!(layout.texts[0].atlas_index_uniform_offset, 1024);
    assert_eq!(layout.size, bytes.len());
}

#[test]
fn oversized_frame_is_refused() {
    let header = vec![0u8; 304];
    let huge = MeshData { indices: vec![0; 2], attributes: vec![], transform: vec![0; 64] };
    // Behind an alignment this close to the end of the address space the
    // mesh transform no longer fits.
    assert!(write_frame(&header, &vec![huge], &vec![], usize::MAX - 10).is_none());
}

#[test]
fn static_bytes_follow_static_layout() {
    let bytes = write_static_meshes(&vec![mesh(), mesh()], 256).unwrap();
    let mut store = StaticMeshes::new(0, 0);
    let entry = MeshEntry { geometry: GeometrySize { index_count: 3, attribute_count: 2 }, material: Material::Basic };
    let upload = store.submit(&vec![entry, entry], 256).unwrap();
    assert_eq!(bytes.len() as u64, upload.size);
    for info in &store.render_info {
        assert_eq!(&bytes[info.index_offset..info.index_offset + 6], &[1, 0, 2, 0, 3, 0]);
        assert_eq!(&bytes[info.attribute_offset..info.attribute_offset + 8], &[4; 8]);
        assert_eq!(&bytes[info.uniform_offset..info.uniform_offset + 64], &[7; 64][..]);
    }
    assert_eq!(store.render_info[1].index_offset, 320);
}
