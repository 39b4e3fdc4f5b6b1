//! Byte layout of the per-frame dynamic buffer.
//!
//! The buffer starts with a fixed frame header (camera and lights). Behind it
//! every dynamic mesh and then every text run is packed by walking a cursor:
//! index bytes, padding to a scalar boundary, attribute bytes, padding to the
//! device's uniform alignment, then the object's uniform data.
use vstd::prelude::*;
use vstd::arithmetic::div_mod::{lemma_mod_pos_bound, lemma_small_mod};

verus! {

/// Size in bytes of one vertex index (`u16`).
pub const INDEX_SIZE: usize = 2;

/// Size in bytes of one vertex attribute scalar (`f32`).
pub const SCALAR_SIZE: usize = 4;

/// Size in bytes of the frame header: projection matrix, inverse view matrix,
/// ambient light, point-light count and the point-light array.
pub const FRAME_DATA_SIZE: usize = 76 * 4;

/// Size in bytes of a mesh's transform uniform (16 floats).
pub const MESH_UNIFORM_SIZE: usize = 16 * 4;

/// Size in bytes of a text run's matrix uniform (12 floats, three padded rows).
pub const TEXT_MATRIX_UNIFORM_SIZE: usize = 12 * 4;

/// Size in bytes of a text run's atlas-index uniform (one `u32`).
pub const ATLAS_INDEX_UNIFORM_SIZE: usize = 4;

/// The sizes of a drawable geometry: how many 16-bit indices and how many
/// float attribute scalars it holds.
#[derive(Clone, Copy, Debug, PartialEq, Eq, Structural)]
pub struct GeometrySize {
    pub index_count: usize,
    pub attribute_count: usize,
}

/// Where a mesh's data sits in a buffer.
#[derive(Clone, Copy, Debug, PartialEq, Eq, Structural)]
pub struct MeshOffsets {
    pub index_offset: usize,
    pub attribute_offset: usize,
    pub uniform_offset: usize,
}

/// Where a text run's data sits in the dynamic buffer.
#[derive(Clone, Copy, Debug, PartialEq, Eq, Structural)]
pub struct TextOffsets {
    pub index_offset: usize,
    pub attribute_offset: usize,
    pub matrix_uniform_offset: usize,
    pub atlas_index_uniform_offset: usize,
}

/// The layout of one frame's dynamic buffer.
#[derive(Debug)]
pub struct FrameLayout {
    pub meshes: Vec<MeshOffsets>,
    pub texts: Vec<TextOffsets>,
    pub size: usize,
}

/// `offset` rounded up to the next multiple of `alignment`.
pub open spec fn round_up(offset: nat, alignment: nat) -> nat {
    if alignment == 0 {
        offset
    } else {
        (offset + (alignment - offset % alignment) % (alignment as int)) as nat
    }
}

pub open spec fn index_bytes(g: GeometrySize) -> nat {
    (INDEX_SIZE * g.index_count) as nat
}

pub open spec fn attribute_bytes(g: GeometrySize) -> nat {
    (SCALAR_SIZE * g.attribute_count) as nat
}

/// Offset of the attributes of a geometry whose indices start at `cursor`.
pub open spec fn attribute_offset_at(cursor: nat, g: GeometrySize) -> nat {
    round_up(cursor + index_bytes(g), SCALAR_SIZE as nat)
}

/// Offset of the first uniform of an object whose indices start at `cursor`.
pub open spec fn uniform_offset_at(cursor: nat, g: GeometrySize, alignment: nat) -> nat {
    round_up(attribute_offset_at(cursor, g) + attribute_bytes(g), alignment)
}

/// Offset of the atlas-index uniform relative to a text run's matrix uniform.
pub open spec fn atlas_index_relative_offset(alignment: nat) -> nat {
    round_up(TEXT_MATRIX_UNIFORM_SIZE as nat, alignment)
}

/// The cursor after a mesh placed at `cursor`.
pub open spec fn mesh_end(cursor: nat, g: GeometrySize, alignment: nat) -> nat {
    uniform_offset_at(cursor, g, alignment) + MESH_UNIFORM_SIZE as nat
}

/// The cursor after a text run placed at `cursor`.
pub open spec fn text_end(cursor: nat, g: GeometrySize, alignment: nat) -> nat {
    uniform_offset_at(cursor, g, alignment) + atlas_index_relative_offset(alignment)
        + ATLAS_INDEX_UNIFORM_SIZE as nat
}

/// The cursor after packing the meshes `gs` in order from `start`.
pub open spec fn meshes_end(start: nat, gs: Seq<GeometrySize>, alignment: nat) -> nat
    decreases gs.len(),
{
    if gs.len() == 0 {
        start
    } else {
        mesh_end(meshes_end(start, gs.drop_last(), alignment), gs.last(), alignment)
    }
}

/// The cursor after packing the text runs `gs` in order from `start`.
pub open spec fn texts_end(start: nat, gs: Seq<GeometrySize>, alignment: nat) -> nat
    decreases gs.len(),
{
    if gs.len() == 0 {
        start
    } else {
        text_end(texts_end(start, gs.drop_last(), alignment), gs.last(), alignment)
    }
}

/// The byte size of a frame's dynamic buffer: the header, then the meshes,
/// then the text runs.
pub open spec fn frame_size(meshes: Seq<GeometrySize>, texts: Seq<GeometrySize>, alignment: nat) -> nat {
    texts_end(meshes_end(FRAME_DATA_SIZE as nat, meshes, alignment), texts, alignment)
}

/// `o` places a mesh of sizes `g` whose indices start at `cursor`.
pub open spec fn mesh_placed(o: MeshOffsets, cursor: nat, g: GeometrySize, alignment: nat) -> bool {
    &&& o.index_offset == cursor
    &&& o.attribute_offset == attribute_offset_at(cursor, g)
    &&& o.uniform_offset == uniform_offset_at(cursor, g, alignment)
}

/// `o` places a text run of sizes `g` whose indices start at `cursor`.
pub open spec fn text_placed(o: TextOffsets, cursor: nat, g: GeometrySize, alignment: nat) -> bool {
    &&& o.index_offset == cursor
    &&& o.attribute_offset == attribute_offset_at(cursor, g)
    &&& o.matrix_uniform_offset == uniform_offset_at(cursor, g, alignment)
    &&& o.atlas_index_uniform_offset == uniform_offset_at(cursor, g, alignment)
        + atlas_index_relative_offset(alignment)
}

/// Every mesh of `gs` is placed by `os`, packed in order from `start`.
pub open spec fn meshes_placed(
    os: Seq<MeshOffsets>,
    start: nat,
    gs: Seq<GeometrySize>,
    alignment: nat,
) -> bool {
    &&& os.len() == gs.len()
    &&& forall|i: int|
        0 <= i < gs.len() ==> #[trigger] mesh_placed(
            os[i],
            meshes_end(start, gs.take(i), alignment),
            gs[i],
            alignment,
        )
}

/// Every text run of `gs` is placed by `os`, packed in order from `start`.
pub open spec fn texts_placed(
    os: Seq<TextOffsets>,
    start: nat,
    gs: Seq<GeometrySize>,
    alignment: nat,
) -> bool {
    &&& os.len() == gs.len()
    &&& forall|i: int|
        0 <= i < gs.len() ==> #[trigger] text_placed(
            os[i],
            texts_end(start, gs.take(i), alignment),
            gs[i],
            alignment,
        )
}

/// Rounding up never goes down, and adds less than one alignment step.
pub proof fn lemma_round_up_bounds(offset: nat, alignment: nat)
    requires
        alignment > 0,
    ensures
        offset <= round_up(offset, alignment) < offset + alignment,
        offset % alignment == 0 ==> round_up(offset, alignment) == offset,
{
    lemma_mod_pos_bound(offset as int, alignment as int);
    let r = offset % alignment;
    if r == 0 {
        assert((alignment - r) % (alignment as int) == 0) by {
            vstd::arithmetic::div_mod::lemma_mod_self_0(alignment as int);
        }
    } else {
        lemma_small_mod((alignment - r) as nat, alignment);
    }
}

/// Rounds `offset` up to a multiple of `alignment`, or `None` where that does
/// not fit in a `usize`.
pub fn align_up(offset: usize, alignment: usize) -> (r: Option<usize>)
    requires
        alignment > 0,
    ensures
        r.is_some() <==> round_up(offset as nat, alignment as nat) <= usize::MAX,
        r matches Some(v) ==> v == round_up(offset as nat, alignment as nat),
{
    proof {
        lemma_round_up_bounds(offset as nat, alignment as nat);
    }
    let pad = (alignment - offset % alignment) % alignment;
    offset.checked_add(pad)
}

/// Places one object's indices at `cursor`: returns its attribute offset and
/// the offset of its first uniform, or `None` where they do not fit.
fn place_geometry(cursor: usize, g: GeometrySize, alignment: usize) -> (r: Option<(usize, usize)>)
    requires
        alignment > 0,
    ensures
        r.is_some() <==> uniform_offset_at(cursor as nat, g, alignment as nat) <= usize::MAX,
        r matches Some((a, u)) ==> a == attribute_offset_at(cursor as nat, g) && u
            == uniform_offset_at(cursor as nat, g, alignment as nat),
{
    proof {
        lemma_round_up_bounds((cursor + index_bytes(g)) as nat, SCALAR_SIZE as nat);
        lemma_round_up_bounds(
            attribute_offset_at(cursor as nat, g) + attribute_bytes(g),
            alignment as nat,
        );
    }
    let index_size = match g.index_count.checked_mul(INDEX_SIZE) {
        Some(v) => v,
        None => return None,
    };
    let index_end = match cursor.checked_add(index_size) {
        Some(v) => v,
        None => return None,
    };
    let attribute_offset = match align_up(index_end, SCALAR_SIZE) {
        Some(v) => v,
        None => return None,
    };
    let attribute_size = match g.attribute_count.checked_mul(SCALAR_SIZE) {
        Some(v) => v,
        None => return None,
    };
    let attribute_end = match attribute_offset.checked_add(attribute_size) {
        Some(v) => v,
        None => return None,
    };
    match align_up(attribute_end, alignment) {
        Some(uniform_offset) => Some((attribute_offset, uniform_offset)),
        None => None,
    }
}

/// Places a mesh at `cursor`: its offsets and the cursor behind it.
pub fn place_mesh(cursor: usize, g: GeometrySize, alignment: usize) -> (r: Option<(MeshOffsets, usize)>)
    requires
        alignment > 0,
    ensures
        r.is_some() <==> mesh_end(cursor as nat, g, alignment as nat) <= usize::MAX,
        r matches Some((o, end)) ==> mesh_placed(o, cursor as nat, g, alignment as nat) && end
            == mesh_end(cursor as nat, g, alignment as nat),
{
    let (attribute_offset, uniform_offset) = match place_geometry(cursor, g, alignment) {
        Some(p) => p,
        None => return None,
    };
    match uniform_offset.checked_add(MESH_UNIFORM_SIZE) {
        Some(end) => Some(
            (MeshOffsets { index_offset: cursor, attribute_offset, uniform_offset }, end),
        ),
        None => None,
    }
}

/// Places a text run at `cursor`: its offsets and the cursor behind it.
pub fn place_text(cursor: usize, g: GeometrySize, alignment: usize) -> (r: Option<(TextOffsets, usize)>)
    requires
        alignment > 0,
    ensures
        r.is_some() <==> text_end(cursor as nat, g, alignment as nat) <= usize::MAX,
        r matches Some((o, end)) ==> text_placed(o, cursor as nat, g, alignment as nat) && end
            == text_end(cursor as nat, g, alignment as nat),
{
    proof {
        lemma_round_up_bounds(TEXT_MATRIX_UNIFORM_SIZE as nat, alignment as nat);
    }
    let (attribute_offset, matrix_uniform_offset) = match place_geometry(cursor, g, alignment) {
        Some(p) => p,
        None => return None,
    };
    let relative = match align_up(TEXT_MATRIX_UNIFORM_SIZE, alignment) {
        Some(v) => v,
        None => return None,
    };
    let atlas_index_uniform_offset = match matrix_uniform_offset.checked_add(relative) {
        Some(v) => v,
        None => return None,
    };
    match atlas_index_uniform_offset.checked_add(ATLAS_INDEX_UNIFORM_SIZE) {
        Some(end) => Some(
            (
                TextOffsets {
                    index_offset: cursor,
                    attribute_offset,
                    matrix_uniform_offset,
                    atlas_index_uniform_offset,
                },
                end,
            ),
        ),
        None => None,
    }
}

/// Each object ends past the cursor it was placed at.
pub proof fn lemma_object_ends_past_cursor(cursor: nat, g: GeometrySize, alignment: nat)
    requires
        alignment > 0,
    ensures
        cursor + index_bytes(g) <= attribute_offset_at(cursor, g),
        attribute_offset_at(cursor, g) + attribute_bytes(g) <= uniform_offset_at(cursor, g, alignment),
        uniform_offset_at(cursor, g, alignment) + MESH_UNIFORM_SIZE == mesh_end(cursor, g, alignment),
        uniform_offset_at(cursor, g, alignment) + TEXT_MATRIX_UNIFORM_SIZE
            <= uniform_offset_at(cursor, g, alignment) + atlas_index_relative_offset(alignment),
        uniform_offset_at(cursor, g, alignment) + atlas_index_relative_offset(alignment)
            + ATLAS_INDEX_UNIFORM_SIZE == text_end(cursor, g, alignment),
{
    lemma_round_up_bounds((cursor + index_bytes(g)) as nat, SCALAR_SIZE as nat);
    lemma_round_up_bounds(attribute_offset_at(cursor, g) + attribute_bytes(g), alignment);
    lemma_round_up_bounds(TEXT_MATRIX_UNIFORM_SIZE as nat, alignment);
}

/// Packing more meshes never moves the cursor back: a prefix ends no later
/// than the whole, and each further mesh adds at least its uniform.
pub proof fn lemma_meshes_end_grows(start: nat, gs: Seq<GeometrySize>, alignment: nat, i: int, j: int)
    requires
        alignment > 0,
        0 <= i <= j <= gs.len(),
    ensures
        meshes_end(start, gs.take(i), alignment) + (j - i) * MESH_UNIFORM_SIZE
            <= meshes_end(start, gs.take(j), alignment),
        start <= meshes_end(start, gs.take(i), alignment),
    decreases j, i,
{
    if i == 0 {
        assert(gs.take(0) =~= Seq::<GeometrySize>::empty());
    }
    if j == 0 {
        assert(gs.take(0) =~= Seq::<GeometrySize>::empty());
    } else if i == j {
        lemma_meshes_end_grows(start, gs, alignment, 0, i);
    } else {
        lemma_meshes_end_grows(start, gs, alignment, i, j - 1);
        assert(gs.take(j).drop_last() =~= gs.take(j - 1));
        lemma_object_ends_past_cursor(meshes_end(start, gs.take(j - 1), alignment), gs[j - 1], alignment);
    }
}

/// Packing more text runs never moves the cursor back: a prefix ends no
/// later than the whole, and each further run adds at least its uniforms.
pub proof fn lemma_texts_end_grows(start: nat, gs: Seq<GeometrySize>, alignment: nat, i: int, j: int)
    requires
        alignment > 0,
        0 <= i <= j <= gs.len(),
    ensures
        texts_end(start, gs.take(i), alignment) + (j - i) * (TEXT_MATRIX_UNIFORM_SIZE
            + ATLAS_INDEX_UNIFORM_SIZE) <= texts_end(start, gs.take(j), alignment),
        start <= texts_end(start, gs.take(i), alignment),
    decreases j, i,
{
    if i == 0 {
        assert(gs.take(0) =~= Seq::<GeometrySize>::empty());
    }
    if j == 0 {
        assert(gs.take(0) =~= Seq::<GeometrySize>::empty());
    } else if i == j {
        lemma_texts_end_grows(start, gs, alignment, 0, i);
    } else {
        lemma_texts_end_grows(start, gs, alignment, i, j - 1);
        assert(gs.take(j).drop_last() =~= gs.take(j - 1));
        lemma_object_ends_past_cursor(texts_end(start, gs.take(j - 1), alignment), gs[j - 1], alignment);
    }
}

/// Computes the layout of a frame's dynamic buffer: the frame header, then
/// the meshes in order, then the text runs in order. `None` where the frame
/// does not fit in a `usize`.
pub fn compute_frame_layout(
    meshes: &Vec<GeometrySize>,
    texts: &Vec<GeometrySize>,
    uniform_alignment: usize,
) -> (r: Option<FrameLayout>)
    requires
        uniform_alignment > 0,
    ensures
        r.is_some() <==> frame_size(meshes@, texts@, uniform_alignment as nat) <= usize::MAX,
        r matches Some(l) ==> {
            &&& meshes_placed(l.meshes@, FRAME_DATA_SIZE as nat, meshes@, uniform_alignment as nat)
            &&& texts_placed(
                l.texts@,
                meshes_end(FRAME_DATA_SIZE as nat, meshes@, uniform_alignment as nat),
                texts@,
                uniform_alignment as nat,
            )
            &&& l.size == frame_size(meshes@, texts@, uniform_alignment as nat)
        },
{
    let ghost a = uniform_alignment as nat;
    let ghost header = FRAME_DATA_SIZE as nat;
    let mut mesh_offsets: Vec<MeshOffsets> = Vec::new();
    let mut cursor: usize = FRAME_DATA_SIZE;
    let mut i: usize = 0;
    while i < meshes.len()
        invariant
            a == uniform_alignment as nat,
            header == FRAME_DATA_SIZE as nat,
            uniform_alignment > 0,
            i <= meshes@.len(),
            cursor == meshes_end(header, meshes@.take(i as int), a),
            meshes_placed(mesh_offsets@, header, meshes@.take(i as int), a),
        decreases meshes@.len() - i,
    {
        assert(meshes@.take(i + 1).drop_last() =~= meshes@.take(i as int));
        match place_mesh(cursor, meshes[i], uniform_alignment) {
            Some((o, end)) => {
                mesh_offsets.push(o);
                cursor = end;
            },
            None => {
                proof {
                    assert(meshes@.take(i + 1).last() == meshes@[i as int]);
                    assert(meshes_end(header, meshes@.take(i + 1), a) > usize::MAX);
                    lemma_meshes_end_grows(header, meshes@, a, i + 1, meshes@.len() as int);
                    assert(meshes@.take(meshes@.len() as int) =~= meshes@);
                    lemma_texts_end_grows(meshes_end(header, meshes@, a), texts@, a, texts@.len() as int, texts@.len() as int);
                    assert(texts@.take(texts@.len() as int) =~= texts@);
                }
                return None;
            },
        }
        i = i + 1;
        proof {
            assert forall|k: int| 0 <= k < i implies #[trigger] mesh_placed(
                mesh_offsets@[k],
                meshes_end(header, meshes@.take(i as int).take(k), a),
                meshes@.take(i as int)[k],
                a,
            ) by {
                assert(meshes@.take(i as int).take(k) =~= meshes@.take(i - 1).take(k));
            }
        }
    }
    assert(meshes@.take(meshes@.len() as int) =~= meshes@);
    let ghost meshes_done = cursor as nat;
    let mut text_offsets: Vec<TextOffsets> = Vec::new();
    let mut j: usize = 0;
    while j < texts.len()
        invariant
            a == uniform_alignment as nat,
            header == FRAME_DATA_SIZE as nat,
            uniform_alignment > 0,
            j <= texts@.len(),
            meshes_done == meshes_end(header, meshes@, a),
            cursor == texts_end(meshes_done, texts@.take(j as int), a),
            texts_placed(text_offsets@, meshes_done, texts@.take(j as int), a),
        decreases texts@.len() - j,
    {
        assert(texts@.take(j + 1).drop_last() =~= texts@.take(j as int));
        match place_text(cursor, texts[j], uniform_alignment) {
            Some((o, end)) => {
                text_offsets.push(o);
                cursor = end;
            },
            None => {
                proof {
                    assert(texts@.take(j + 1).last() == texts@[j as int]);
                    assert(texts_end(meshes_done, texts@.take(j + 1), a) > usize::MAX);
                    lemma_texts_end_grows(meshes_done, texts@, a, j + 1, texts@.len() as int);
                    assert(texts@.take(texts@.len() as int) =~= texts@);
                }
                return None;
            },
        }
        j = j + 1;
        proof {
            assert forall|k: int| 0 <= k < j implies #[trigger] text_placed(
                text_offsets@[k],
                texts_end(meshes_done, texts@.take(j as int).take(k), a),
                texts@.take(j as int)[k],
                a,
            ) by {
                assert(texts@.take(j as int).take(k) =~= texts@.take(j - 1).take(k));
            }
        }
    }
    assert(texts@.take(texts@.len() as int) =~= texts@);
    Some(FrameLayout { meshes: mesh_offsets, texts: text_offsets, size: cursor })
}

/// In a packed frame the objects follow one another without overlap: every
/// object starts behind the frame header and behind every object packed
/// before it, and within each object the attributes start at the end of its
/// indices rounded up to the next multiple of four bytes, with its uniforms
/// behind its attributes.
pub proof fn lemma_packed_offsets_increase(
    meshes: Seq<GeometrySize>,
    texts: Seq<GeometrySize>,
    alignment: nat,
    mesh_offsets: Seq<MeshOffsets>,
    text_offsets: Seq<TextOffsets>,
)
    requires
        alignment > 0,
        meshes_placed(mesh_offsets, FRAME_DATA_SIZE as nat, meshes, alignment),
        texts_placed(
            text_offsets,
            meshes_end(FRAME_DATA_SIZE as nat, meshes, alignment),
            texts,
            alignment,
        ),
    ensures
        forall|i: int|
            0 <= i < meshes.len() ==> {
                let o = #[trigger] mesh_offsets[i];
                &&& FRAME_DATA_SIZE <= o.index_offset
                &&& o.attribute_offset == round_up((o.index_offset + index_bytes(meshes[i])) as nat,
                    SCALAR_SIZE as nat,
                )
                &&& o.index_offset + index_bytes(meshes[i]) <= o.attribute_offset
                &&& o.attribute_offset + attribute_bytes(meshes[i]) <= o.uniform_offset
            },
        forall|i: int, j: int|
            0 <= i < j < meshes.len() ==> #[trigger] mesh_offsets[i].uniform_offset
                + MESH_UNIFORM_SIZE <= #[trigger] mesh_offsets[j].index_offset,
        forall|i: int, k: int|
            0 <= i < meshes.len() && 0 <= k < texts.len() ==> #[trigger] mesh_offsets[i].uniform_offset
                + MESH_UNIFORM_SIZE <= #[trigger] text_offsets[k].index_offset,
        forall|k: int|
            0 <= k < texts.len() ==> {
                let o = #[trigger] text_offsets[k];
                &&& FRAME_DATA_SIZE <= o.index_offset
                &&& o.attribute_offset == round_up((o.index_offset + index_bytes(texts[k])) as nat,
                    SCALAR_SIZE as nat,
                )
                &&& o.index_offset + index_bytes(texts[k]) <= o.attribute_offset
                &&& o.attribute_offset + attribute_bytes(texts[k]) <= o.matrix_uniform_offset
                &&& o.matrix_uniform_offset + TEXT_MATRIX_UNIFORM_SIZE
                    <= o.atlas_index_uniform_offset
            },
        forall|k: int, l: int|
            0 <= k < l < texts.len() ==> #[trigger] text_offsets[k].atlas_index_uniform_offset
                + ATLAS_INDEX_UNIFORM_SIZE <= #[trigger] text_offsets[l].index_offset,
{
    let header = FRAME_DATA_SIZE as nat;
    let mid = meshes_end(header, meshes, alignment);
    assert(meshes.take(meshes.len() as int) =~= meshes);
    assert forall|i: int| 0 <= i < meshes.len() implies {
        let o = #[trigger] mesh_offsets[i];
        &&& FRAME_DATA_SIZE <= o.index_offset
        &&& o.attribute_offset == round_up((o.index_offset + index_bytes(meshes[i])) as nat, SCALAR_SIZE as nat)
        &&& o.index_offset + index_bytes(meshes[i]) <= o.attribute_offset
        &&& o.attribute_offset + attribute_bytes(meshes[i]) <= o.uniform_offset
    } by {
        assert(mesh_placed(mesh_offsets[i], meshes_end(header, meshes.take(i), alignment), meshes[i], alignment));
        lemma_meshes_end_grows(header, meshes, alignment, i, i);
        lemma_object_ends_past_cursor(meshes_end(header, meshes.take(i), alignment), meshes[i], alignment);
    }
    assert forall|i: int, j: int| 0 <= i < j < meshes.len() implies #[trigger] mesh_offsets[i].uniform_offset
        + MESH_UNIFORM_SIZE <= #[trigger] mesh_offsets[j].index_offset by {
        assert(mesh_placed(mesh_offsets[i], meshes_end(header, meshes.take(i), alignment), meshes[i], alignment));
        assert(mesh_placed(mesh_offsets[j], meshes_end(header, meshes.take(j), alignment), meshes[j], alignment));
        lemma_meshes_end_grows(header, meshes, alignment, i + 1, j);
        assert(meshes.take(i + 1).drop_last() =~= meshes.take(i));
    }
    assert forall|i: int, k: int| 0 <= i < meshes.len() && 0 <= k < texts.len() implies #[trigger] mesh_offsets[i].uniform_offset
        + MESH_UNIFORM_SIZE <= #[trigger] text_offsets[k].index_offset by {
        assert(mesh_placed(mesh_offsets[i], meshes_end(header, meshes.take(i), alignment), meshes[i], alignment));
        assert(text_placed(text_offsets[k], texts_end(mid, texts.take(k), alignment), texts[k], alignment));
        lemma_meshes_end_grows(header, meshes, alignment, i + 1, meshes.len() as int);
        assert(meshes.take(i + 1).drop_last() =~= meshes.take(i));
        lemma_texts_end_grows(mid, texts, alignment, k, k);
    }
    assert forall|k: int| 0 <= k < texts.len() implies {
        let o = #[trigger] text_offsets[k];
        &&& FRAME_DATA_SIZE <= o.index_offset
        &&& o.attribute_offset == round_up((o.index_offset + index_bytes(texts[k])) as nat, SCALAR_SIZE as nat)
        &&& o.index_offset + index_bytes(texts[k]) <= o.attribute_offset
        &&& o.attribute_offset + attribute_bytes(texts[k]) <= o.matrix_uniform_offset
        &&& o.matrix_uniform_offset + TEXT_MATRIX_UNIFORM_SIZE <= o.atlas_index_uniform_offset
    } by {
        assert(text_placed(text_offsets[k], texts_end(mid, texts.take(k), alignment), texts[k], alignment));
        lemma_meshes_end_grows(header, meshes, alignment, meshes.len() as int, meshes.len() as int);
        lemma_texts_end_grows(mid, texts, alignment, k, k);
        lemma_object_ends_past_cursor(texts_end(mid, texts.take(k), alignment), texts[k], alignment);
    }
    assert forall|k: int, l: int| 0 <= k < l < texts.len() implies #[trigger] text_offsets[k].atlas_index_uniform_offset
        + ATLAS_INDEX_UNIFORM_SIZE <= #[trigger] text_offsets[l].index_offset by {
        assert(text_placed(text_offsets[k], texts_end(mid, texts.take(k), alignment), texts[k], alignment));
        assert(text_placed(text_offsets[l], texts_end(mid, texts.take(l), alignment), texts[l], alignment));
        lemma_texts_end_grows(mid, texts, alignment, k + 1, l);
        assert(texts.take(k + 1).drop_last() =~= texts.take(k));
    }
}

} // verus!
