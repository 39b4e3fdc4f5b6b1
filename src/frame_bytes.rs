//! The bytes of a frame's dynamic buffer: the frame header, then each mesh's
//! indices, attributes and transform, then each text run's indices,
//! attributes, matrix and atlas index, every part at the offset the frame
//! layout gives it and padding bytes zero.
use vstd::prelude::*;
use vstd::arithmetic::div_mod::lemma_fundamental_div_mod;
use crate::layout::{
    ATLAS_INDEX_UNIFORM_SIZE, FRAME_DATA_SIZE, GeometrySize, INDEX_SIZE, MESH_UNIFORM_SIZE,
    SCALAR_SIZE, TEXT_MATRIX_UNIFORM_SIZE, attribute_offset_at, atlas_index_relative_offset,
    frame_size, lemma_meshes_end_grows, MeshOffsets, TextOffsets, mesh_placed, text_placed, meshes_placed, texts_placed, mesh_end, text_end, index_bytes, attribute_bytes, lemma_object_ends_past_cursor, lemma_texts_end_grows,
    meshes_end, place_mesh, place_text, texts_end, uniform_offset_at,
};

verus! {

/// The data of a dynamic mesh, as bytes: its 16-bit indices, its float
/// attributes and its 16-float transform.
#[derive(Clone, Debug)]
pub struct MeshData {
    pub indices: Vec<u8>,
    pub attributes: Vec<u8>,
    pub transform: Vec<u8>,
}

/// The data of a text run, as bytes: its 16-bit indices, its float
/// attributes, its 12-float matrix and its `u32` atlas index.
#[derive(Clone, Debug)]
pub struct TextData {
    pub indices: Vec<u8>,
    pub attributes: Vec<u8>,
    pub matrix: Vec<u8>,
    pub atlas_index: Vec<u8>,
}

pub open spec fn sizes_of(indices: Seq<u8>, attributes: Seq<u8>) -> GeometrySize {
    GeometrySize {
        index_count: (indices.len() / (INDEX_SIZE as nat)) as usize,
        attribute_count: (attributes.len() / (SCALAR_SIZE as nat)) as usize,
    }
}

pub open spec fn mesh_sizes(ms: Seq<MeshData>) -> Seq<GeometrySize> {
    ms.map_values(|m: MeshData| sizes_of(m.indices@, m.attributes@))
}

pub open spec fn text_sizes(ts: Seq<TextData>) -> Seq<GeometrySize> {
    ts.map_values(|t: TextData| sizes_of(t.indices@, t.attributes@))
}

/// Whole indices, whole floats, and a transform of 16 floats.
pub open spec fn mesh_data_wf(m: MeshData) -> bool {
    &&& m.indices@.len() % (INDEX_SIZE as nat) == 0
    &&& m.attributes@.len() % (SCALAR_SIZE as nat) == 0
    &&& m.transform@.len() == MESH_UNIFORM_SIZE
}

/// Whole indices, whole floats, a matrix of 12 floats and one atlas index.
pub open spec fn text_data_wf(t: TextData) -> bool {
    &&& t.indices@.len() % (INDEX_SIZE as nat) == 0
    &&& t.attributes@.len() % (SCALAR_SIZE as nat) == 0
    &&& t.matrix@.len() == TEXT_MATRIX_UNIFORM_SIZE
    &&& t.atlas_index@.len() == ATLAS_INDEX_UNIFORM_SIZE
}

/// `buf` holds `data` starting at `offset`.
pub open spec fn holds_at(buf: Seq<u8>, offset: int, data: Seq<u8>) -> bool {
    &&& 0 <= offset
    &&& offset + data.len() <= buf.len()
    &&& buf.subrange(offset, offset + data.len()) == data
}

/// `buf` is zero from `from` up to `to`.
pub open spec fn zeros_between(buf: Seq<u8>, from: int, to: int) -> bool {
    forall|p: int| from <= p < to ==> #[trigger] buf[p] == 0u8
}

/// `buf` holds the mesh `m` placed at `cursor`, with zero padding between
/// its parts.
#[verifier::opaque]
pub open spec fn mesh_written(buf: Seq<u8>, cursor: nat, m: MeshData, alignment: nat) -> bool {
    let g = sizes_of(m.indices@, m.attributes@);
    &&& holds_at(buf, cursor as int, m.indices@)
    &&& holds_at(buf, attribute_offset_at(cursor, g) as int, m.attributes@)
    &&& holds_at(buf, uniform_offset_at(cursor, g, alignment) as int, m.transform@)
    &&& zeros_between(buf, (cursor + m.indices@.len()) as int, attribute_offset_at(cursor, g) as int)
    &&& zeros_between(
        buf,
        (attribute_offset_at(cursor, g) + m.attributes@.len()) as int,
        uniform_offset_at(cursor, g, alignment) as int,
    )
}

/// `buf` holds the text run `t` placed at `cursor`, with zero padding
/// between its parts.
#[verifier::opaque]
pub open spec fn text_written(buf: Seq<u8>, cursor: nat, t: TextData, alignment: nat) -> bool {
    let g = sizes_of(t.indices@, t.attributes@);
    &&& holds_at(buf, cursor as int, t.indices@)
    &&& holds_at(buf, attribute_offset_at(cursor, g) as int, t.attributes@)
    &&& holds_at(buf, uniform_offset_at(cursor, g, alignment) as int, t.matrix@)
    &&& holds_at(
        buf,
        (uniform_offset_at(cursor, g, alignment) + atlas_index_relative_offset(alignment)) as int,
        t.atlas_index@,
    )
    &&& zeros_between(buf, (cursor + t.indices@.len()) as int, attribute_offset_at(cursor, g) as int)
    &&& zeros_between(
        buf,
        (attribute_offset_at(cursor, g) + t.attributes@.len()) as int,
        uniform_offset_at(cursor, g, alignment) as int,
    )
    &&& zeros_between(
        buf,
        (uniform_offset_at(cursor, g, alignment) + t.matrix@.len()) as int,
        (uniform_offset_at(cursor, g, alignment) + atlas_index_relative_offset(alignment)) as int,
    )
}

/// What a prefix holds, the whole holds.
proof fn lemma_holds_in_extension(buf: Seq<u8>, prefix: Seq<u8>, offset: int, data: Seq<u8>)
    requires
        holds_at(prefix, offset, data),
        prefix.len() <= buf.len(),
        buf.subrange(0, prefix.len() as int) == prefix,
    ensures
        holds_at(buf, offset, data),
{
    assert(buf.subrange(offset, offset + data.len()) =~= prefix.subrange(offset, offset + data.len()));
}

/// What a prefix holds of zeros, the whole holds.
proof fn lemma_zeros_in_extension(buf: Seq<u8>, prefix: Seq<u8>, from: int, to: int)
    requires
        zeros_between(prefix, from, to),
        0 <= from,
        to <= prefix.len() <= buf.len(),
        buf.subrange(0, prefix.len() as int) == prefix,
    ensures
        zeros_between(buf, from, to),
{
    assert forall|p: int| from <= p < to implies #[trigger] buf[p] == 0u8 by {
        assert(buf.subrange(0, prefix.len() as int)[p] == buf[p]);
    }
}

/// Appends `data` to `buf`.
fn append(buf: &mut Vec<u8>, data: &Vec<u8>)
    ensures
        final(buf)@ == old(buf)@ + data@,
{
    let mut i: usize = 0;
    while i < data.len()
        invariant
            i <= data@.len(),
            buf@ == old(buf)@ + data@.take(i as int),
        decreases data@.len() - i,
    {
        buf.push(data[i]);
        i = i + 1;
        assert(buf@ =~= old(buf)@ + data@.take(i as int));
    }
    assert(data@.take(data@.len() as int) =~= data@);
}

/// Appends zero bytes to `buf` up to `len` bytes.
fn pad_to(buf: &mut Vec<u8>, len: usize)
    requires
        old(buf)@.len() <= len,
    ensures
        final(buf)@ == old(buf)@ + Seq::new((len - old(buf)@.len()) as nat, |i: int| 0u8),
{
    let start = buf.len();
    while buf.len() < len
        invariant
            start == old(buf)@.len(),
            start <= buf@.len() <= len,
            buf@ == old(buf)@ + Seq::new((buf@.len() - start) as nat, |i: int| 0u8),
        decreases len - buf@.len(),
    {
        buf.push(0u8);
        assert(buf@ =~= old(buf)@ + Seq::new((buf@.len() - start) as nat, |i: int| 0u8));
    }
}

/// Appends the parts of one object at the offsets `offsets`, in order, each
/// behind zero padding; the offsets must not go back.
fn append_parts(buf: &mut Vec<u8>, offsets: &Vec<usize>, parts: &Vec<&Vec<u8>>)
    requires
        offsets@.len() == parts@.len(),
        forall|k: int| 0 <= k < offsets@.len() ==> old(buf)@.len() <= #[trigger] offsets@[k],
        forall|k: int|
            0 <= k < offsets@.len() - 1 ==> #[trigger] offsets@[k] + parts@[k]@.len() <= offsets@[k + 1],
    ensures
        final(buf)@.subrange(0, old(buf)@.len() as int) == old(buf)@,
        forall|k: int| 0 <= k < offsets@.len() ==> holds_at(final(buf)@, #[trigger] offsets@[k] as int, parts@[k]@),
        offsets@.len() > 0 ==> final(buf)@.len() == offsets@.last() + parts@.last()@.len(),
        offsets@.len() == 0 ==> final(buf)@ == old(buf)@,
        offsets@.len() > 0 ==> zeros_between(final(buf)@, old(buf)@.len() as int, offsets@[0] as int),
        forall|k: int|
            1 <= k < offsets@.len() ==> zeros_between(
                final(buf)@,
                offsets@[k - 1] + parts@[k - 1]@.len(),
                #[trigger] offsets@[k] as int,
            ),
{
    let mut k: usize = 0;
    while k < offsets.len()
        invariant
            k <= offsets@.len(),
            offsets@.len() == parts@.len(),
            forall|j: int| 0 <= j < offsets@.len() ==> old(buf)@.len() <= #[trigger] offsets@[j],
            forall|j: int|
                0 <= j < offsets@.len() - 1 ==> #[trigger] offsets@[j] + parts@[j]@.len() <= offsets@[j + 1],
            old(buf)@.len() <= buf@.len(),
            buf@.subrange(0, old(buf)@.len() as int) == old(buf)@,
            forall|j: int| 0 <= j < k ==> holds_at(buf@, #[trigger] offsets@[j] as int, parts@[j]@),
            k > 0 ==> buf@.len() == offsets@[k - 1] + parts@[k - 1]@.len(),
            k == 0 ==> buf@ == old(buf)@,
            k > 0 ==> zeros_between(buf@, old(buf)@.len() as int, offsets@[0] as int),
            forall|j: int|
                1 <= j < k ==> zeros_between(buf@, offsets@[j - 1] + parts@[j - 1]@.len(), #[trigger] offsets@[j] as int),
        decreases offsets@.len() - k,
    {
        let ghost before = buf@;
        proof {
            if k > 0 {
                assert(offsets@[k - 1] + parts@[k - 1]@.len() <= offsets@[k as int]);
            }
        }
        pad_to(buf, offsets[k]);
        let ghost padded = buf@;
        append(buf, parts[k]);
        proof {
            assert(buf@.subrange(0, before.len() as int) =~= before);
            assert(buf@.subrange(0, old(buf)@.len() as int) =~= before.subrange(0, old(buf)@.len() as int));
            assert(buf@.subrange(offsets@[k as int] as int, offsets@[k as int] + parts@[k as int]@.len()) =~= parts@[k as int]@);
            assert forall|p: int| before.len() <= p < offsets@[k as int] implies #[trigger] buf@[p] == 0u8 by {
                assert(buf@[p] == padded[p]);
            }
            if k > 0 {
                lemma_zeros_in_extension(buf@, before, old(buf)@.len() as int, offsets@[0] as int);
            }
            assert forall|j: int| 1 <= j < k + 1 implies zeros_between(
                buf@,
                offsets@[j - 1] + parts@[j - 1]@.len(),
                #[trigger] offsets@[j] as int,
            ) by {
                if j < k {
                    lemma_zeros_in_extension(buf@, before, offsets@[j - 1] + parts@[j - 1]@.len(), offsets@[j] as int);
                }
            }
            assert forall|j: int| 0 <= j < k + 1 implies holds_at(buf@, #[trigger] offsets@[j] as int, parts@[j]@) by {
                if j < k {
                    lemma_holds_in_extension(buf@, before, offsets@[j] as int, parts@[j]@);
                }
            }
        }
        k = k + 1;
    }
}

/// The sizes of a geometry given as bytes.
fn geometry_of(indices: &Vec<u8>, attributes: &Vec<u8>) -> (r: GeometrySize)
    ensures
        r == sizes_of(indices@, attributes@),
{
    GeometrySize { index_count: indices.len() / INDEX_SIZE, attribute_count: attributes.len() / SCALAR_SIZE }
}

/// What a prefix holds of a mesh, the whole holds.
proof fn lemma_mesh_written_in_extension(buf: Seq<u8>, prefix: Seq<u8>, cursor: nat, m: MeshData, alignment: nat)
    requires
        mesh_written(prefix, cursor, m, alignment),
        prefix.len() <= buf.len(),
        buf.subrange(0, prefix.len() as int) == prefix,
    ensures
        mesh_written(buf, cursor, m, alignment),
{
    reveal(mesh_written);
    let g = sizes_of(m.indices@, m.attributes@);
    lemma_holds_in_extension(buf, prefix, cursor as int, m.indices@);
    lemma_holds_in_extension(buf, prefix, attribute_offset_at(cursor, g) as int, m.attributes@);
    lemma_holds_in_extension(buf, prefix, uniform_offset_at(cursor, g, alignment) as int, m.transform@);
    lemma_zeros_in_extension(buf, prefix, (cursor + m.indices@.len()) as int, attribute_offset_at(cursor, g) as int);
    lemma_zeros_in_extension(
        buf,
        prefix,
        (attribute_offset_at(cursor, g) + m.attributes@.len()) as int,
        uniform_offset_at(cursor, g, alignment) as int,
    );
}

/// What a prefix holds of a text run, the whole holds.
proof fn lemma_text_written_in_extension(buf: Seq<u8>, prefix: Seq<u8>, cursor: nat, t: TextData, alignment: nat)
    requires
        text_written(prefix, cursor, t, alignment),
        prefix.len() <= buf.len(),
        buf.subrange(0, prefix.len() as int) == prefix,
    ensures
        text_written(buf, cursor, t, alignment),
{
    reveal(text_written);
    let g = sizes_of(t.indices@, t.attributes@);
    lemma_holds_in_extension(buf, prefix, cursor as int, t.indices@);
    lemma_holds_in_extension(buf, prefix, attribute_offset_at(cursor, g) as int, t.attributes@);
    lemma_holds_in_extension(buf, prefix, uniform_offset_at(cursor, g, alignment) as int, t.matrix@);
    lemma_holds_in_extension(
        buf,
        prefix,
        (uniform_offset_at(cursor, g, alignment) + atlas_index_relative_offset(alignment)) as int,
        t.atlas_index@,
    );
    lemma_zeros_in_extension(buf, prefix, (cursor + t.indices@.len()) as int, attribute_offset_at(cursor, g) as int);
    lemma_zeros_in_extension(
        buf,
        prefix,
        (attribute_offset_at(cursor, g) + t.attributes@.len()) as int,
        uniform_offset_at(cursor, g, alignment) as int,
    );
    lemma_zeros_in_extension(
        buf,
        prefix,
        (uniform_offset_at(cursor, g, alignment) + t.matrix@.len()) as int,
        (uniform_offset_at(cursor, g, alignment) + atlas_index_relative_offset(alignment)) as int,
    );
}

/// Appends the mesh `m` at the end of `buf`; returns the new end, or `None`
/// (with `buf` unchanged) where it does not fit in a `usize`.
fn append_mesh(buf: &mut Vec<u8>, m: &MeshData, alignment: usize) -> (r: Option<usize>)
    requires
        alignment > 0,
        mesh_data_wf(*m),
    ensures
        ({
            let g = sizes_of(m.indices@, m.attributes@);
            let end = mesh_end(old(buf)@.len(), g, alignment as nat);
            &&& r.is_some() <==> end <= usize::MAX
            &&& r is None ==> final(buf)@ == old(buf)@
            &&& r matches Some(e) ==> {
                &&& e == end
                &&& final(buf)@.len() == end
                &&& final(buf)@.subrange(0, old(buf)@.len() as int) == old(buf)@
                &&& mesh_written(final(buf)@, old(buf)@.len(), *m, alignment as nat)
            }
        }),
{
    let g = geometry_of(&m.indices, &m.attributes);
    let cursor = buf.len();
    proof {
        assert(m.indices.len() == m.indices@.len());
        assert(m.attributes.len() == m.attributes@.len());
        lemma_fundamental_div_mod(m.indices@.len() as int, INDEX_SIZE as int);
        lemma_fundamental_div_mod(m.attributes@.len() as int, SCALAR_SIZE as int);
        assert(index_bytes(g) == m.indices@.len());
        assert(attribute_bytes(g) == m.attributes@.len());
    }
    match place_mesh(cursor, g, alignment) {
        Some((o, end)) => {
            proof {
                lemma_object_ends_past_cursor(cursor as nat, g, alignment as nat);
            }
            let offsets = vec![o.index_offset, o.attribute_offset, o.uniform_offset];
            let parts = vec![&m.indices, &m.attributes, &m.transform];
            assert(offsets@[0] + parts@[0]@.len() <= offsets@[1]);
            assert(offsets@[1] + parts@[1]@.len() <= offsets@[2]);
            append_parts(buf, &offsets, &parts);
            proof {
                assert(holds_at(buf@, offsets@[0] as int, parts@[0]@));
                assert(holds_at(buf@, offsets@[1] as int, parts@[1]@));
                assert(holds_at(buf@, offsets@[2] as int, parts@[2]@));
                assert(zeros_between(buf@, offsets@[0] + parts@[0]@.len(), offsets@[1] as int));
                assert(zeros_between(buf@, offsets@[1] + parts@[1]@.len(), offsets@[2] as int));
                reveal(mesh_written);
            }
            Some(end)
        },
        None => None,
    }
}

/// Appends the text run `t` at the end of `buf`; returns the new end, or
/// `None` (with `buf` unchanged) where it does not fit in a `usize`.
fn append_text(buf: &mut Vec<u8>, t: &TextData, alignment: usize) -> (r: Option<usize>)
    requires
        alignment > 0,
        text_data_wf(*t),
    ensures
        ({
            let g = sizes_of(t.indices@, t.attributes@);
            let end = text_end(old(buf)@.len(), g, alignment as nat);
            &&& r.is_some() <==> end <= usize::MAX
            &&& r is None ==> final(buf)@ == old(buf)@
            &&& r matches Some(e) ==> {
                &&& e == end
                &&& final(buf)@.len() == end
                &&& final(buf)@.subrange(0, old(buf)@.len() as int) == old(buf)@
                &&& text_written(final(buf)@, old(buf)@.len(), *t, alignment as nat)
            }
        }),
{
    let g = geometry_of(&t.indices, &t.attributes);
    let cursor = buf.len();
    proof {
        assert(t.indices.len() == t.indices@.len());
        assert(t.attributes.len() == t.attributes@.len());
        lemma_fundamental_div_mod(t.indices@.len() as int, INDEX_SIZE as int);
        lemma_fundamental_div_mod(t.attributes@.len() as int, SCALAR_SIZE as int);
        assert(index_bytes(g) == t.indices@.len());
        assert(attribute_bytes(g) == t.attributes@.len());
    }
    match place_text(cursor, g, alignment) {
        Some((o, end)) => {
            proof {
                lemma_object_ends_past_cursor(cursor as nat, g, alignment as nat);
            }
            let offsets = vec![o.index_offset, o.attribute_offset, o.matrix_uniform_offset, o.atlas_index_uniform_offset];
            let parts = vec![&t.indices, &t.attributes, &t.matrix, &t.atlas_index];
            assert(offsets@[0] + parts@[0]@.len() <= offsets@[1]);
            assert(offsets@[1] + parts@[1]@.len() <= offsets@[2]);
            assert(offsets@[2] + parts@[2]@.len() <= offsets@[3]);
            append_parts(buf, &offsets, &parts);
            proof {
                assert(holds_at(buf@, offsets@[0] as int, parts@[0]@));
                assert(holds_at(buf@, offsets@[1] as int, parts@[1]@));
                assert(holds_at(buf@, offsets@[2] as int, parts@[2]@));
                assert(holds_at(buf@, offsets@[3] as int, parts@[3]@));
                assert(zeros_between(buf@, offsets@[0] + parts@[0]@.len(), offsets@[1] as int));
                assert(zeros_between(buf@, offsets@[1] + parts@[1]@.len(), offsets@[2] as int));
                assert(zeros_between(buf@, offsets@[2] + parts@[2]@.len(), offsets@[3] as int));
                reveal(text_written);
            }
            Some(end)
        },
        None => None,
    }
}

/// Appends the meshes `meshes` in order at the end of `buf`; returns whether
/// they fit in a `usize` (where not, `buf` may hold part of them).
#[verifier::rlimit(40)]
fn append_meshes(buf: &mut Vec<u8>, meshes: &Vec<MeshData>, alignment: usize) -> (ok: bool)
    requires
        alignment > 0,
        forall|i: int| 0 <= i < meshes@.len() ==> mesh_data_wf(#[trigger] meshes@[i]),
    ensures
        ({
            let start = old(buf)@.len();
            let ms = mesh_sizes(meshes@);
            let a = alignment as nat;
            &&& ok <==> meshes_end(start, ms, a) <= usize::MAX
            &&& ok ==> {
                &&& final(buf)@.len() == meshes_end(start, ms, a)
                &&& start <= final(buf)@.len()
                &&& final(buf)@.subrange(0, start as int) == old(buf)@
                &&& forall|j: int|
                    0 <= j < meshes@.len() ==> mesh_written(final(buf)@, meshes_end(start, ms.take(j), a), #[trigger] meshes@[j], a)
            }
        }),
{
    let ghost a = alignment as nat;
    let ghost start = buf@.len();
    let ghost ms = mesh_sizes(meshes@);
    let mut i: usize = 0;
    while i < meshes.len()
        invariant
            a == alignment as nat,
            alignment > 0,
            start == old(buf)@.len(),
            ms == mesh_sizes(meshes@),
            ms.len() == meshes@.len(),
            forall|j: int| 0 <= j < meshes@.len() ==> mesh_data_wf(#[trigger] meshes@[j]),
            i <= meshes@.len(),
            buf@.len() == meshes_end(start, ms.take(i as int), a),
            start <= buf@.len(),
            buf@.subrange(0, start as int) == old(buf)@,
            forall|j: int| 0 <= j < i ==> mesh_written(buf@, meshes_end(start, ms.take(j), a), #[trigger] meshes@[j], a),
        decreases meshes@.len() - i,
    {
        let ghost before = buf@;
        assert(ms.take(i + 1).drop_last() =~= ms.take(i as int));
        assert(ms.take(i + 1).last() == sizes_of(meshes@[i as int].indices@, meshes@[i as int].attributes@));
        match append_mesh(buf, &meshes[i], alignment) {
            Some(_) => {
                proof {
                    assert(buf@.subrange(0, start as int) =~= before.subrange(0, start as int));
                    assert forall|j: int| 0 <= j < i + 1 implies mesh_written(
                        buf@,
                        meshes_end(start, ms.take(j), a),
                        #[trigger] meshes@[j],
                        a,
                    ) by {
                        if j < i {
                            lemma_mesh_written_in_extension(buf@, before, meshes_end(start, ms.take(j), a), meshes@[j], a);
                        }
                    }
                }
            },
            None => {
                proof {
                    lemma_meshes_end_grows(start, ms, a, i + 1, ms.len() as int);
                    assert(ms.take(ms.len() as int) =~= ms);
                }
                return false;
            },
        }
        i = i + 1;
    }
    proof {
        assert(ms.take(ms.len() as int) =~= ms);
        assert(buf@.len() == meshes_end(start, ms, a));
        assert(buf.len() == buf@.len());
    }
    true
}

/// Appends the text runs `texts` in order at the end of `buf`; returns
/// whether they fit in a `usize` (where not, `buf` may hold part of them).
#[verifier::rlimit(40)]
fn append_texts(buf: &mut Vec<u8>, texts: &Vec<TextData>, alignment: usize) -> (ok: bool)
    requires
        alignment > 0,
        forall|i: int| 0 <= i < texts@.len() ==> text_data_wf(#[trigger] texts@[i]),
    ensures
        ({
            let start = old(buf)@.len();
            let ts = text_sizes(texts@);
            let a = alignment as nat;
            &&& ok <==> texts_end(start, ts, a) <= usize::MAX
            &&& ok ==> {
                &&& final(buf)@.len() == texts_end(start, ts, a)
                &&& start <= final(buf)@.len()
                &&& final(buf)@.subrange(0, start as int) == old(buf)@
                &&& forall|j: int|
                    0 <= j < texts@.len() ==> text_written(final(buf)@, texts_end(start, ts.take(j), a), #[trigger] texts@[j], a)
            }
        }),
{
    let ghost a = alignment as nat;
    let ghost start = buf@.len();
    let ghost ts = text_sizes(texts@);
    let mut i: usize = 0;
    while i < texts.len()
        invariant
            a == alignment as nat,
            alignment > 0,
            start == old(buf)@.len(),
            ts == text_sizes(texts@),
            ts.len() == texts@.len(),
            forall|j: int| 0 <= j < texts@.len() ==> text_data_wf(#[trigger] texts@[j]),
            i <= texts@.len(),
            buf@.len() == texts_end(start, ts.take(i as int), a),
            start <= buf@.len(),
            buf@.subrange(0, start as int) == old(buf)@,
            forall|j: int| 0 <= j < i ==> text_written(buf@, texts_end(start, ts.take(j), a), #[trigger] texts@[j], a),
        decreases texts@.len() - i,
    {
        let ghost before = buf@;
        assert(ts.take(i + 1).drop_last() =~= ts.take(i as int));
        assert(ts.take(i + 1).last() == sizes_of(texts@[i as int].indices@, texts@[i as int].attributes@));
        match append_text(buf, &texts[i], alignment) {
            Some(_) => {
                proof {
                    assert(buf@.subrange(0, start as int) =~= before.subrange(0, start as int));
                    assert forall|j: int| 0 <= j < i + 1 implies text_written(
                        buf@,
                        texts_end(start, ts.take(j), a),
                        #[trigger] texts@[j],
                        a,
                    ) by {
                        if j < i {
                            lemma_text_written_in_extension(buf@, before, texts_end(start, ts.take(j), a), texts@[j], a);
                        }
                    }
                }
            },
            None => {
                proof {
                    lemma_texts_end_grows(start, ts, a, i + 1, ts.len() as int);
                    assert(ts.take(ts.len() as int) =~= ts);
                }
                return false;
            },
        }
        i = i + 1;
    }
    proof {
        assert(ts.take(ts.len() as int) =~= ts);
        assert(buf@.len() == texts_end(start, ts, a));
        assert(buf.len() == buf@.len());
    }
    true
}

/// Lays out a frame and writes its bytes: the header at offset zero, then
/// every mesh and every text run at the offsets of the frame layout, with
/// zero padding between. `None` where the frame does not fit in a `usize`.
pub fn write_frame(
    header: &Vec<u8>,
    meshes: &Vec<MeshData>,
    texts: &Vec<TextData>,
    uniform_alignment: usize,
) -> (r: Option<Vec<u8>>)
    requires
        uniform_alignment > 0,
        header@.len() == FRAME_DATA_SIZE,
        forall|i: int| 0 <= i < meshes@.len() ==> mesh_data_wf(#[trigger] meshes@[i]),
        forall|k: int| 0 <= k < texts@.len() ==> text_data_wf(#[trigger] texts@[k]),
    ensures
        r.is_some() <==> frame_size(mesh_sizes(meshes@), text_sizes(texts@), uniform_alignment as nat)
            <= usize::MAX,
        r matches Some(b) ==> {
            let a = uniform_alignment as nat;
            let texts_start = meshes_end(FRAME_DATA_SIZE as nat, mesh_sizes(meshes@), a);
            &&& b@.len() == frame_size(mesh_sizes(meshes@), text_sizes(texts@), a)
            &&& holds_at(b@, 0, header@)
            &&& forall|i: int|
                0 <= i < meshes@.len() ==> mesh_written(
                    b@,
                    meshes_end(FRAME_DATA_SIZE as nat, mesh_sizes(meshes@).take(i), a),
                    #[trigger] meshes@[i],
                    a,
                )
            &&& forall|k: int|
                0 <= k < texts@.len() ==> text_written(
                    b@,
                    texts_end(texts_start, text_sizes(texts@).take(k), a),
                    #[trigger] texts@[k],
                    a,
                )
        },
{
    let ghost a = uniform_alignment as nat;
    let ghost header_size = FRAME_DATA_SIZE as nat;
    let ghost ms = mesh_sizes(meshes@);
    let ghost ts = text_sizes(texts@);
    let mut buf: Vec<u8> = Vec::new();
    append(&mut buf, header);
    assert(buf@ =~= header@);
    if !append_meshes(&mut buf, meshes, uniform_alignment) {
        proof {
            lemma_texts_end_grows(meshes_end(header_size, ms, a), ts, a, ts.len() as int, ts.len() as int);
            assert(ts.take(ts.len() as int) =~= ts);
        }
        return None;
    }
    let ghost after_meshes = buf@;
    proof {
        assert(after_meshes.subrange(0, header@.len() as int) =~= header@);
    }
    if !append_texts(&mut buf, texts, uniform_alignment) {
        return None;
    }
    proof {
        lemma_holds_in_extension(buf@, after_meshes, 0, header@);
        assert forall|i: int| 0 <= i < meshes@.len() implies mesh_written(
            buf@,
            meshes_end(header_size, ms.take(i), a),
            #[trigger] meshes@[i],
            a,
        ) by {
            lemma_mesh_written_in_extension(buf@, after_meshes, meshes_end(header_size, ms.take(i), a), meshes@[i], a);
        }
    }
    Some(buf)
}

/// Writes the bytes of the static buffer: every mesh at the offsets of the
/// static layout, from offset zero, with zero padding between. `None` where
/// the meshes do not fit in a `usize`.
pub fn write_static_meshes(meshes: &Vec<MeshData>, uniform_alignment: usize) -> (r: Option<Vec<u8>>)
    requires
        uniform_alignment > 0,
        forall|i: int| 0 <= i < meshes@.len() ==> mesh_data_wf(#[trigger] meshes@[i]),
    ensures
        r.is_some() <==> meshes_end(0, mesh_sizes(meshes@), uniform_alignment as nat) <= usize::MAX,
        r matches Some(b) ==> {
            let a = uniform_alignment as nat;
            &&& b@.len() == meshes_end(0, mesh_sizes(meshes@), a)
            &&& forall|i: int|
                0 <= i < meshes@.len() ==> mesh_written(
                    b@,
                    meshes_end(0, mesh_sizes(meshes@).take(i), a),
                    #[trigger] meshes@[i],
                    a,
                )
        },
{
    let mut buf: Vec<u8> = Vec::new();
    if append_meshes(&mut buf, meshes, uniform_alignment) {
        Some(buf)
    } else {
        None
    }
}

/// Where the bytes of a frame hold its meshes and text runs, they hold each
/// at the offsets of the frame's layout: the offsets that drawing binds are
/// those the data was written at.
pub proof fn lemma_bytes_follow_layout(
    bytes: Seq<u8>,
    meshes: Seq<MeshData>,
    texts: Seq<TextData>,
    alignment: nat,
    mesh_offsets: Seq<MeshOffsets>,
    text_offsets: Seq<TextOffsets>,
)
    requires
        forall|i: int|
            0 <= i < meshes.len() ==> mesh_written(
                bytes,
                meshes_end(FRAME_DATA_SIZE as nat, mesh_sizes(meshes).take(i), alignment),
                #[trigger] meshes[i],
                alignment,
            ),
        forall|k: int|
            0 <= k < texts.len() ==> text_written(
                bytes,
                texts_end(
                    meshes_end(FRAME_DATA_SIZE as nat, mesh_sizes(meshes), alignment),
                    text_sizes(texts).take(k),
                    alignment,
                ),
                #[trigger] texts[k],
                alignment,
            ),
        meshes_placed(mesh_offsets, FRAME_DATA_SIZE as nat, mesh_sizes(meshes), alignment),
        texts_placed(
            text_offsets,
            meshes_end(FRAME_DATA_SIZE as nat, mesh_sizes(meshes), alignment),
            text_sizes(texts),
            alignment,
        ),
    ensures
        forall|i: int|
            0 <= i < meshes.len() ==> {
                let o = #[trigger] mesh_offsets[i];
                &&& holds_at(bytes, o.index_offset as int, meshes[i].indices@)
                &&& holds_at(bytes, o.attribute_offset as int, meshes[i].attributes@)
                &&& holds_at(bytes, o.uniform_offset as int, meshes[i].transform@)
            },
        forall|k: int|
            0 <= k < texts.len() ==> {
                let o = #[trigger] text_offsets[k];
                &&& holds_at(bytes, o.index_offset as int, texts[k].indices@)
                &&& holds_at(bytes, o.attribute_offset as int, texts[k].attributes@)
                &&& holds_at(bytes, o.matrix_uniform_offset as int, texts[k].matrix@)
                &&& holds_at(bytes, o.atlas_index_uniform_offset as int, texts[k].atlas_index@)
            },
{
    reveal(mesh_written);
    reveal(text_written);
    let ms = mesh_sizes(meshes);
    let ts = text_sizes(texts);
    let start = meshes_end(FRAME_DATA_SIZE as nat, ms, alignment);
    assert forall|i: int| 0 <= i < meshes.len() implies {
        let o = #[trigger] mesh_offsets[i];
        &&& holds_at(bytes, o.index_offset as int, meshes[i].indices@)
        &&& holds_at(bytes, o.attribute_offset as int, meshes[i].attributes@)
        &&& holds_at(bytes, o.uniform_offset as int, meshes[i].transform@)
    } by {
        assert(mesh_placed(mesh_offsets[i], meshes_end(FRAME_DATA_SIZE as nat, ms.take(i), alignment), ms[i], alignment));
        assert(mesh_written(bytes, meshes_end(FRAME_DATA_SIZE as nat, ms.take(i), alignment), meshes[i], alignment));
    }
    assert forall|k: int| 0 <= k < texts.len() implies {
        let o = #[trigger] text_offsets[k];
        &&& holds_at(bytes, o.index_offset as int, texts[k].indices@)
        &&& holds_at(bytes, o.attribute_offset as int, texts[k].attributes@)
        &&& holds_at(bytes, o.matrix_uniform_offset as int, texts[k].matrix@)
        &&& holds_at(bytes, o.atlas_index_uniform_offset as int, texts[k].atlas_index@)
    } by {
        assert(text_placed(text_offsets[k], texts_end(start, ts.take(k), alignment), ts[k], alignment));
        assert(text_written(bytes, texts_end(start, ts.take(k), alignment), texts[k], alignment));
    }
}

} // verus!
