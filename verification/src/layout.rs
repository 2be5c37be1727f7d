//! Vertex buffer layouts of the render pipelines, and their agreement with the
//! byte encoding of `VertexWriter`: every attribute a pipeline declares reads
//! exactly the field that the writer put at its offset.

use vstd::prelude::*;

use crate::vertex::{
    image_vertex_bytes, lemma_words_le_append, lemma_words_le_len, line_vertex_words, words_le,
    LineVertex,
};

verus! {

/// One vertex attribute: its shader location, its byte offset within a vertex,
/// and its number of 4-byte components (`f32` or `u32`).
#[derive(Debug, Clone, Copy, PartialEq, Eq, Structural)]
pub struct AttributeLayout {
    /// Shader location.
    pub location: u32,
    /// Byte offset within the vertex.
    pub offset: u64,
    /// Number of 4-byte components.
    pub components: u64,
}

/// The layout of one vertex buffer.
pub struct VertexLayout {
    /// Bytes from one vertex to the next.
    pub stride: u64,
    /// The attributes, by shader location.
    pub attributes: Vec<AttributeLayout>,
}

/// The attributes sit at locations 0, 1, ... with the given component counts,
/// packed one after the other from offset 0 with no gap, and the stride is
/// exactly their total size.
pub open spec fn packs(attrs: Seq<AttributeLayout>, stride: int, components: Seq<int>) -> bool {
    &&& attrs.len() == components.len()
    &&& attrs.len() > 0
    &&& attrs[0].offset == 0
    &&& forall|k: int|
        0 <= k < attrs.len() ==> (#[trigger] attrs[k]).location == k && attrs[k].components
            == components[k]
    &&& forall|k: int|
        0 < k < attrs.len() ==> (#[trigger] attrs[k]).offset == attrs[k - 1].offset + 4
            * attrs[k - 1].components
    &&& stride == attrs.last().offset + 4 * attrs.last().components
}

/// The words of the fields, one field after the other.
pub open spec fn concat_fields(fields: Seq<Seq<u32>>) -> Seq<u32>
    decreases fields.len(),
{
    if fields.len() == 0 {
        Seq::empty()
    } else {
        concat_fields(fields.drop_last()) + fields.last()
    }
}

/// Number of words of each field.
pub open spec fn field_sizes(fields: Seq<Seq<u32>>) -> Seq<int> {
    fields.map_values(|f: Seq<u32>| f.len() as int)
}

/// A packed layout reads back each field that was written in order: the bytes
/// at attribute `k`'s offset, over its size, are the encoding of field `k`.
pub proof fn lemma_packed_layout_reads_fields(attrs: Seq<AttributeLayout>, stride: int, fields: Seq<Seq<u32>>)
    requires
        packs(attrs, stride, field_sizes(fields)),
    ensures
        words_le(concat_fields(fields)).len() == stride,
        forall|k: int|
            0 <= k < fields.len() ==> words_le(concat_fields(fields)).subrange(
                attrs[k].offset as int,
                attrs[k].offset + 4 * attrs[k].components,
            ) == words_le(#[trigger] fields[k]),
    decreases fields.len(),
{
    let n = fields.len();
    let rest = fields.drop_last();
    let last = fields.last();
    assert(field_sizes(fields)[n - 1] == last.len());
    assert(attrs[n - 1].components == last.len());
    lemma_words_le_append(concat_fields(rest), last);
    lemma_words_le_len(last);
    if n == 1 {
        assert(concat_fields(rest) == Seq::<u32>::empty());
        assert(words_le(Seq::<u32>::empty()) == Seq::<u8>::empty());
        assert(concat_fields(fields) == Seq::<u32>::empty() + last);
        assert(Seq::<u32>::empty() + last == last);
        assert(words_le(concat_fields(fields)).subrange(0, 4 * (last.len() as int)) == words_le(last));
    } else {
        let rattrs = attrs.drop_last();
        let rstride = attrs[n - 1].offset as int;
        assert(field_sizes(rest) == field_sizes(fields).drop_last());
        assert forall|k: int| 0 <= k < rattrs.len() implies (#[trigger] rattrs[k]).location == k
            && rattrs[k].components == field_sizes(rest)[k] by {
            assert(rattrs[k] == attrs[k]);
            assert(field_sizes(rest)[k] == field_sizes(fields)[k]);
        }
        assert forall|k: int| 0 < k < rattrs.len() implies (#[trigger] rattrs[k]).offset
            == rattrs[k - 1].offset + 4 * rattrs[k - 1].components by {
            assert(rattrs[k] == attrs[k]);
            assert(rattrs[k - 1] == attrs[k - 1]);
        }
        assert(rattrs.last() == attrs[n - 2]);
        assert(attrs[n - 1].offset == attrs[n - 2].offset + 4 * attrs[n - 2].components);
        lemma_packed_layout_reads_fields(rattrs, rstride, rest);
        let head = words_le(concat_fields(rest));
        assert(head.len() == rstride);
        assert forall|k: int| 0 <= k < fields.len() implies words_le(concat_fields(fields)).subrange(
            attrs[k].offset as int,
            attrs[k].offset + 4 * attrs[k].components,
        ) == words_le(#[trigger] fields[k]) by {
            if k < n - 1 {
                assert(rattrs[k] == attrs[k]);
                assert(rest[k] == fields[k]);
                assert(attrs[k].offset + 4 * attrs[k].components <= rstride) by {
                    lemma_packed_offsets_grow(rattrs, rstride, field_sizes(rest), k);
                }
                assert(words_le(concat_fields(fields)).subrange(
                    attrs[k].offset as int,
                    attrs[k].offset + 4 * attrs[k].components,
                ) =~= head.subrange(attrs[k].offset as int, attrs[k].offset + 4 * attrs[k].components));
            } else {
                assert(words_le(concat_fields(fields)).subrange(
                    attrs[k].offset as int,
                    attrs[k].offset + 4 * attrs[k].components,
                ) =~= words_le(last));
            }
        }
    }
}

/// In a packed layout every attribute ends within the stride.
proof fn lemma_packed_offsets_grow(attrs: Seq<AttributeLayout>, stride: int, components: Seq<int>, k: int)
    requires
        packs(attrs, stride, components),
        0 <= k < attrs.len(),
    ensures
        attrs[k].offset + 4 * attrs[k].components <= stride,
    decreases attrs.len() - k,
{
    if k < attrs.len() - 1 {
        assert(attrs[k + 1].offset == attrs[k].offset + 4 * attrs[k].components);
        lemma_packed_offsets_grow(attrs, stride, components, k + 1);
    }
}

/// The attribute at `location` with `components` components, at `offset`.
fn attribute(location: u32, offset: u64, components: u64) -> (a: AttributeLayout)
    ensures
        a == (AttributeLayout { location, offset, components }),
{
    AttributeLayout { location, offset, components }
}

/// Layout of marker instances: position, color, marker shape, size, flags.
pub fn marker_layout() -> (l: VertexLayout)
    ensures
        l.stride == 36,
        packs(l.attributes@, l.stride as int, seq![2, 4, 1, 1, 1]),
{
    let attributes = vec![
        attribute(0, 0, 2),
        attribute(1, 8, 4),
        attribute(2, 24, 1),
        attribute(3, 28, 1),
        attribute(4, 32, 1),
    ];
    VertexLayout { stride: 36, attributes }
}

/// Layout of image vertices: position, texture coordinates, tint, background.
pub fn image_layout() -> (l: VertexLayout)
    ensures
        l.stride == 48,
        packs(l.attributes@, l.stride as int, seq![2, 2, 4, 4]),
{
    let attributes = vec![
        attribute(0, 0, 2),
        attribute(1, 8, 2),
        attribute(2, 16, 4),
        attribute(3, 32, 4),
    ];
    VertexLayout { stride: 48, attributes }
}

/// Layout of line vertices: segment start and end, color, line style,
/// distance at the start, segment length, style parameter, width, width mode,
/// position along the segment, side of the stroke.
pub fn line_layout() -> (l: VertexLayout)
    ensures
        l.stride == 64,
        packs(l.attributes@, l.stride as int, seq![2, 2, 4, 1, 1, 1, 1, 1, 1, 1, 1]),
{
    let attributes = vec![
        attribute(0, 0, 2),
        attribute(1, 8, 2),
        attribute(2, 16, 4),
        attribute(3, 32, 1),
        attribute(4, 36, 1),
        attribute(5, 40, 1),
        attribute(6, 44, 1),
        attribute(7, 48, 1),
        attribute(8, 52, 1),
        attribute(9, 56, 1),
        attribute(10, 60, 1),
    ];
    VertexLayout { stride: 64, attributes }
}

/// Layout of fill and overlay vertices: position and color.
pub fn position_color_layout() -> (l: VertexLayout)
    ensures
        l.stride == 24,
        packs(l.attributes@, l.stride as int, seq![2, 4]),
{
    let attributes = vec![attribute(0, 0, 2), attribute(1, 8, 4)];
    VertexLayout { stride: 24, attributes }
}

/// Reading `bytes` through the layout `attrs` yields `fields`: the bytes fill one
/// vertex, and attribute `k` covers the encoding of field `k`.
pub open spec fn reads_fields(attrs: Seq<AttributeLayout>, stride: int, bytes: Seq<u8>, fields: Seq<Seq<u32>>) -> bool {
    &&& bytes.len() == stride
    &&& forall|k: int|
        0 <= k < fields.len() ==> bytes.subrange(
            attrs[k].offset as int,
            attrs[k].offset + 4 * attrs[k].components,
        ) == words_le(#[trigger] fields[k])
}

/// The marker pipeline reads what `write_marker_instance` writes.
pub proof fn lemma_marker_layout_matches_writer(
    attrs: Seq<AttributeLayout>,
    stride: int,
    pos: [u32; 2],
    color: [u32; 4],
    marker: u32,
    size: u32,
    flags: u32,
)
    requires
        packs(attrs, stride, seq![2, 4, 1, 1, 1]),
    ensures
        reads_fields(
            attrs,
            stride,
            words_le(
                seq![pos[0], pos[1], color[0], color[1], color[2], color[3], marker, size, flags],
            ),
            seq![
                seq![pos[0], pos[1]],
                seq![color[0], color[1], color[2], color[3]],
                seq![marker],
                seq![size],
                seq![flags],
            ],
        ),
{
    let fields = seq![
        seq![pos[0], pos[1]],
        seq![color[0], color[1], color[2], color[3]],
        seq![marker],
        seq![size],
        seq![flags],
    ];
    assert(field_sizes(fields) =~= seq![2int, 4, 1, 1, 1]);
    reveal_with_fuel(concat_fields, 6);
    assert(concat_fields(fields) =~= seq![
        pos[0],
        pos[1],
        color[0],
        color[1],
        color[2],
        color[3],
        marker,
        size,
        flags,
    ]);
    lemma_packed_layout_reads_fields(attrs, stride, fields);
}

/// The image pipeline reads what `write_image_vertex` writes.
pub proof fn lemma_image_layout_matches_writer(
    attrs: Seq<AttributeLayout>,
    stride: int,
    pos: [u32; 2],
    uv: [u32; 2],
    tint: [u32; 4],
    bg_fill: [u32; 4],
)
    requires
        packs(attrs, stride, seq![2, 2, 4, 4]),
    ensures
        reads_fields(
            attrs,
            stride,
            image_vertex_bytes(pos, uv, tint, bg_fill),
            seq![
                seq![pos[0], pos[1]],
                seq![uv[0], uv[1]],
                seq![tint[0], tint[1], tint[2], tint[3]],
                seq![bg_fill[0], bg_fill[1], bg_fill[2], bg_fill[3]],
            ],
        ),
{
    let fields = seq![
        seq![pos[0], pos[1]],
        seq![uv[0], uv[1]],
        seq![tint[0], tint[1], tint[2], tint[3]],
        seq![bg_fill[0], bg_fill[1], bg_fill[2], bg_fill[3]],
    ];
    assert(field_sizes(fields) =~= seq![2int, 2, 4, 4]);
    reveal_with_fuel(concat_fields, 5);
    assert(concat_fields(fields) =~= seq![pos[0], pos[1], uv[0], uv[1]] + seq![
        tint[0],
        tint[1],
        tint[2],
        tint[3],
    ] + seq![bg_fill[0], bg_fill[1], bg_fill[2], bg_fill[3]]);
    lemma_packed_layout_reads_fields(attrs, stride, fields);
}

/// The fields of a line vertex, in the line pipeline's attribute order.
pub open spec fn line_vertex_fields(v: LineVertex) -> Seq<Seq<u32>> {
    seq![
        seq![v.start[0], v.start[1]],
        seq![v.end[0], v.end[1]],
        seq![v.color[0], v.color[1], v.color[2], v.color[3]],
        seq![v.style],
        seq![v.distance_start],
        seq![v.segment_length_world],
        seq![v.param],
        seq![v.width],
        seq![v.width_mode],
        seq![v.along],
        seq![v.side],
    ]
}

/// The line pipeline reads what `write_line_vertex` writes.
pub proof fn lemma_line_layout_matches_writer(attrs: Seq<AttributeLayout>, stride: int, v: LineVertex)
    requires
        packs(attrs, stride, seq![2, 2, 4, 1, 1, 1, 1, 1, 1, 1, 1]),
    ensures
        reads_fields(attrs, stride, words_le(line_vertex_words(v)), line_vertex_fields(v)),
{
    let fields = line_vertex_fields(v);
    assert(field_sizes(fields) =~= seq![2int, 2, 4, 1, 1, 1, 1, 1, 1, 1, 1]);
    reveal_with_fuel(concat_fields, 12);
    assert(concat_fields(fields) =~= line_vertex_words(v));
    lemma_packed_layout_reads_fields(attrs, stride, fields);
}

/// The fill pipeline reads what `write_fill_vertex` writes.
pub proof fn lemma_fill_layout_matches_writer(
    attrs: Seq<AttributeLayout>,
    stride: int,
    pos: [u32; 2],
    color: [u32; 4],
)
    requires
        packs(attrs, stride, seq![2, 4]),
    ensures
        reads_fields(
            attrs,
            stride,
            words_le(seq![pos[0], pos[1], color[0], color[1], color[2], color[3]]),
            seq![seq![pos[0], pos[1]], seq![color[0], color[1], color[2], color[3]]],
        ),
{
    let fields = seq![seq![pos[0], pos[1]], seq![color[0], color[1], color[2], color[3]]];
    assert(field_sizes(fields) =~= seq![2int, 4]);
    reveal_with_fuel(concat_fields, 3);
    assert(concat_fields(fields) =~= seq![pos[0], pos[1], color[0], color[1], color[2], color[3]]);
    lemma_packed_layout_reads_fields(attrs, stride, fields);
}

} // verus!
