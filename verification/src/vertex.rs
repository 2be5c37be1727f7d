//! Byte encoding of vertex data for GPU buffers.
//!
//! Floating-point vertex attributes are handed to the writer as their IEEE-754
//! bit patterns (`f32::to_bits`); every attribute is stored as four
//! little-endian bytes, which is how the GPU reads `f32` and `u32` attributes.

use vstd::prelude::*;
use vstd::bytes::{spec_u32_from_le_bytes, spec_u32_to_le_bytes, u32_to_le_bytes};

verus! {

/// Size in bytes of one line vertex.
pub const LINE_VERTEX_BYTES: usize = 64;

/// Size in bytes of one marker instance.
pub const MARKER_INSTANCE_BYTES: usize = 36;

/// Size in bytes of one image vertex.
pub const IMAGE_VERTEX_BYTES: usize = 48;

/// Size in bytes of one fill vertex.
pub const FILL_VERTEX_BYTES: usize = 24;

/// The little-endian encoding of the words `ws`, one after the other.
pub open spec fn words_le(ws: Seq<u32>) -> Seq<u8>
    decreases ws.len(),
{
    if ws.len() == 0 {
        Seq::empty()
    } else {
        words_le(ws.drop_last()) + spec_u32_to_le_bytes(ws.last())
    }
}

/// Appends vertex attributes to a byte buffer.
pub struct VertexWriter {
    data: Vec<u8>,
}

impl View for VertexWriter {
    type V = Seq<u8>;

    closed spec fn view(&self) -> Seq<u8> {
        self.data@
    }
}

/// The bytes of one image vertex.
pub open spec fn image_vertex_bytes(pos: [u32; 2], uv: [u32; 2], tint: [u32; 4], bg_fill: [u32; 4]) -> Seq<u8> {
    words_le(
        seq![pos[0], pos[1], uv[0], uv[1]] + seq![tint[0], tint[1], tint[2], tint[3]] + seq![
            bg_fill[0],
            bg_fill[1],
            bg_fill[2],
            bg_fill[3],
        ],
    )
}

/// One vertex of a stroked line segment, every float attribute given by its bits.
#[derive(Debug, Clone, Copy)]
pub struct LineVertex {
    /// Segment start, in render coordinates.
    pub start: [u32; 2],
    /// Segment end, in render coordinates.
    pub end: [u32; 2],
    /// Vertex color, RGBA.
    pub color: [u32; 4],
    /// Line style code (solid, dotted, dashed).
    pub style: u32,
    /// Distance along the polyline at the segment start.
    pub distance_start: u32,
    /// Length of the segment in world units.
    pub segment_length_world: u32,
    /// Parameter of the line style (dot spacing or dash length).
    pub param: u32,
    /// Line width.
    pub width: u32,
    /// Whether the width is in pixels or world units.
    pub width_mode: u32,
    /// Position along the segment: 0 at the start, 1 at the end.
    pub along: u32,
    /// Side of the stroke: +1 or -1.
    pub side: u32,
}

/// The sixteen words of a line vertex, in buffer order.
pub open spec fn line_vertex_words(v: LineVertex) -> Seq<u32> {
    seq![
        v.start[0],
        v.start[1],
        v.end[0],
        v.end[1],
        v.color[0],
        v.color[1],
        v.color[2],
        v.color[3],
        v.style,
        v.distance_start,
        v.segment_length_world,
        v.param,
        v.width,
        v.width_mode,
        v.along,
        v.side,
    ]
}

/// Every word adds four bytes.
pub proof fn lemma_words_le_len(ws: Seq<u32>)
    ensures
        words_le(ws).len() == 4 * ws.len(),
    decreases ws.len(),
{
    vstd::bytes::lemma_auto_spec_u32_to_from_le_bytes();
    if ws.len() > 0 {
        lemma_words_le_len(ws.drop_last());
    }
}

/// Encoding words one after the other is encoding their concatenation.
pub proof fn lemma_words_le_append(a: Seq<u32>, b: Seq<u32>)
    ensures
        words_le(a + b) == words_le(a) + words_le(b),
    decreases b.len(),
{
    if b.len() == 0 {
        assert(a + b == a);
    } else {
        lemma_words_le_append(a, b.drop_last());
        assert((a + b).drop_last() == a + b.drop_last());
        assert(words_le(b) == words_le(b.drop_last()) + spec_u32_to_le_bytes(b.last()));
    }
}

/// What the writer wrote can be read back: the four bytes that encode the
/// `k`-th word decode to that word.
pub proof fn lemma_words_le_decode(ws: Seq<u32>, k: int)
    requires
        0 <= k < ws.len(),
    ensures
        spec_u32_from_le_bytes(words_le(ws).subrange(4 * k, 4 * k + 4)) == ws[k],
    decreases ws.len(),
{
    vstd::bytes::lemma_auto_spec_u32_to_from_le_bytes();
    lemma_words_le_len(ws.drop_last());
    if k == ws.len() - 1 {
        assert(words_le(ws).subrange(4 * k, 4 * k + 4) == spec_u32_to_le_bytes(ws.last()));
    } else {
        lemma_words_le_decode(ws.drop_last(), k);
        assert(words_le(ws).subrange(4 * k, 4 * k + 4) == words_le(ws.drop_last()).subrange(
            4 * k,
            4 * k + 4,
        ));
    }
}

/// The encoding of a run of words is the matching run of bytes of the encoding.
pub proof fn lemma_words_le_subrange(ws: Seq<u32>, a: int, b: int)
    requires
        0 <= a <= b <= ws.len(),
    ensures
        words_le(ws).subrange(4 * a, 4 * b) == words_le(ws.subrange(a, b)),
{
    let x = ws.subrange(0, a);
    let y = ws.subrange(a, b);
    let z = ws.subrange(b, ws.len() as int);
    assert(ws == x + y + z);
    lemma_words_le_append(x + y, z);
    lemma_words_le_append(x, y);
    lemma_words_le_len(x);
    lemma_words_le_len(y);
    assert(words_le(ws).subrange(4 * a, 4 * b) =~= words_le(y));
}

impl VertexWriter {
    /// An empty writer.
    pub fn new() -> (w: Self)
        ensures
            w@ == Seq::<u8>::empty(),
    {
        VertexWriter { data: Vec::new() }
    }

    /// An empty writer with room for `capacity` bytes.
    pub fn with_capacity(capacity: usize) -> (w: Self)
        ensures
            w@ == Seq::<u8>::empty(),
    {
        VertexWriter { data: Vec::with_capacity(capacity) }
    }

    /// Appends a `u32` attribute.
    pub fn write_u32(&mut self, value: u32)
        ensures
            final(self)@ == old(self)@ + spec_u32_to_le_bytes(value),
    {
        let mut bytes = u32_to_le_bytes(value);
        self.data.append(&mut bytes);
    }

    /// Appends an `f32` attribute, given by its bits.
    pub fn write_f32(&mut self, bits: u32)
        ensures
            final(self)@ == old(self)@ + spec_u32_to_le_bytes(bits),
    {
        self.write_u32(bits);
    }

    /// Appends a 2D position.
    pub fn write_position(&mut self, pos: [u32; 2])
        ensures
            final(self)@ == old(self)@ + words_le(seq![pos[0], pos[1]]),
    {
        let ghost w0 = self@;
        self.write_f32(pos[0]);
        self.write_f32(pos[1]);
        proof {
            assert(seq![pos[0], pos[1]].drop_last() == seq![pos[0]]);
            assert(seq![pos[0]].drop_last() == Seq::<u32>::empty());
            reveal_with_fuel(words_le, 3);
            assert(words_le(seq![pos[0], pos[1]]) == spec_u32_to_le_bytes(pos[0])
                + spec_u32_to_le_bytes(pos[1])) by {
                assert(words_le(seq![pos[0]]) =~= spec_u32_to_le_bytes(pos[0]));
            }
            assert(self@ =~= w0 + words_le(seq![pos[0], pos[1]]));
        }
    }

    /// Appends texture coordinates.
    pub fn write_uv(&mut self, uv: [u32; 2])
        ensures
            final(self)@ == old(self)@ + words_le(seq![uv[0], uv[1]]),
    {
        self.write_position(uv);
    }

    /// Appends an RGBA color.
    pub fn write_color(&mut self, rgba: [u32; 4])
        ensures
            final(self)@ == old(self)@ + words_le(seq![rgba[0], rgba[1], rgba[2], rgba[3]]),
    {
        self.write_position([rgba[0], rgba[1]]);
        self.write_position([rgba[2], rgba[3]]);
        proof {
            lemma_words_le_append(seq![rgba[0], rgba[1]], seq![rgba[2], rgba[3]]);
            assert(seq![rgba[0], rgba[1]] + seq![rgba[2], rgba[3]] == seq![
                rgba[0],
                rgba[1],
                rgba[2],
                rgba[3],
            ]);
        }
    }

    /// Appends one line vertex: 64 bytes.
    pub fn write_line_vertex(&mut self, vertex: LineVertex)
        ensures
            final(self)@ == old(self)@ + words_le(line_vertex_words(vertex)),
            final(self)@.len() == old(self)@.len() + LINE_VERTEX_BYTES,
    {
        let ghost w0 = self@;
        self.write_position(vertex.start);
        self.write_position(vertex.end);
        self.write_color(vertex.color);
        self.write_u32(vertex.style);
        self.write_f32(vertex.distance_start);
        self.write_f32(vertex.segment_length_world);
        self.write_f32(vertex.param);
        self.write_f32(vertex.width);
        self.write_u32(vertex.width_mode);
        self.write_f32(vertex.along);
        self.write_f32(vertex.side);
        proof {
            let ws = line_vertex_words(vertex);
            let a = seq![vertex.start[0], vertex.start[1]];
            let b = seq![vertex.end[0], vertex.end[1]];
            let c = seq![vertex.color[0], vertex.color[1], vertex.color[2], vertex.color[3]];
            let tail = seq![
                vertex.style,
                vertex.distance_start,
                vertex.segment_length_world,
                vertex.param,
                vertex.width,
                vertex.width_mode,
                vertex.along,
                vertex.side,
            ];
            lemma_words_le_append(a, b);
            lemma_words_le_append(a + b, c);
            lemma_words_le_append(a + b + c, tail);
            assert(ws == a + b + c + tail);
            reveal_with_fuel(words_le, 9);
            assert(words_le(tail) == spec_u32_to_le_bytes(vertex.style) + spec_u32_to_le_bytes(
                vertex.distance_start,
            ) + spec_u32_to_le_bytes(vertex.segment_length_world) + spec_u32_to_le_bytes(
                vertex.param,
            ) + spec_u32_to_le_bytes(vertex.width) + spec_u32_to_le_bytes(vertex.width_mode)
                + spec_u32_to_le_bytes(vertex.along) + spec_u32_to_le_bytes(vertex.side));
            assert(self@ == w0 + words_le(ws));
            lemma_words_le_len(ws);
        }
    }

    /// Appends one marker instance: position, color, marker shape, size and
    /// flags, 36 bytes.
    pub fn write_marker_instance(
        &mut self,
        pos: [u32; 2],
        color: [u32; 4],
        marker: u32,
        size: u32,
        flags: u32,
    )
        ensures
            final(self)@ == old(self)@ + words_le(
                seq![pos[0], pos[1], color[0], color[1], color[2], color[3], marker, size, flags],
            ),
            final(self)@.len() == old(self)@.len() + MARKER_INSTANCE_BYTES,
    {
        let ghost w0 = self@;
        self.write_position(pos);
        self.write_color(color);
        self.write_u32(marker);
        self.write_f32(size);
        self.write_u32(flags);
        proof {
            let a = seq![pos[0], pos[1]];
            let c = seq![color[0], color[1], color[2], color[3]];
            let t = seq![marker, size, flags];
            lemma_words_le_append(a, c);
            lemma_words_le_append(a + c, t);
            reveal_with_fuel(words_le, 4);
            assert(words_le(t) =~= spec_u32_to_le_bytes(marker) + spec_u32_to_le_bytes(size)
                + spec_u32_to_le_bytes(flags)) by {
                assert(t.drop_last() =~= seq![marker, size]);
                assert(t.drop_last().drop_last() =~= seq![marker]);
                assert(words_le(seq![marker]) =~= spec_u32_to_le_bytes(marker));
            }
            assert(a + c + t =~= seq![
                pos[0],
                pos[1],
                color[0],
                color[1],
                color[2],
                color[3],
                marker,
                size,
                flags,
            ]);
            assert(self@ =~= w0 + words_le(a + c + t));
            lemma_words_le_len(a + c + t);
        }
    }

    /// Appends one image vertex: position, texture coordinates, tint and
    /// background color, 48 bytes.
    pub fn write_image_vertex(&mut self, pos: [u32; 2], uv: [u32; 2], tint: [u32; 4], bg_fill: [u32; 4])
        ensures
            final(self)@ == old(self)@ + image_vertex_bytes(pos, uv, tint, bg_fill),
            final(self)@.len() == old(self)@.len() + IMAGE_VERTEX_BYTES,
    {
        let ghost w0 = self@;
        self.write_position(pos);
        self.write_uv(uv);
        self.write_color(tint);
        self.write_color(bg_fill);
        proof {
            let a = seq![pos[0], pos[1]];
            let b = seq![uv[0], uv[1]];
            let c = seq![tint[0], tint[1], tint[2], tint[3]];
            let d = seq![bg_fill[0], bg_fill[1], bg_fill[2], bg_fill[3]];
            lemma_words_le_append(a, b);
            lemma_words_le_append(a + b, c);
            lemma_words_le_append(a + b + c, d);
            assert(a + b =~= seq![pos[0], pos[1], uv[0], uv[1]]);
            assert(self@ =~= w0 + words_le(a + b + c + d));
            lemma_words_le_len(a + b + c + d);
        }
    }

    /// Appends the four vertices of an image quad, corner by corner, each with
    /// the image's tint and background color.
    pub fn write_image_quad(
        &mut self,
        positions: [[u32; 2]; 4],
        uv: [[u32; 2]; 4],
        tint: [u32; 4],
        bg_fill: [u32; 4],
    )
        ensures
            final(self)@ == old(self)@ + image_vertex_bytes(positions[0], uv[0], tint, bg_fill)
                + image_vertex_bytes(positions[1], uv[1], tint, bg_fill) + image_vertex_bytes(
                positions[2],
                uv[2],
                tint,
                bg_fill,
            ) + image_vertex_bytes(positions[3], uv[3], tint, bg_fill),
            final(self)@.len() == old(self)@.len() + 4 * IMAGE_VERTEX_BYTES,
    {
        self.write_image_vertex(positions[0], uv[0], tint, bg_fill);
        self.write_image_vertex(positions[1], uv[1], tint, bg_fill);
        self.write_image_vertex(positions[2], uv[2], tint, bg_fill);
        self.write_image_vertex(positions[3], uv[3], tint, bg_fill);
    }

    /// Appends one fill vertex: position and color, 24 bytes.
    pub fn write_fill_vertex(&mut self, pos: [u32; 2], color: [u32; 4])
        ensures
            final(self)@ == old(self)@ + words_le(
                seq![pos[0], pos[1], color[0], color[1], color[2], color[3]],
            ),
            final(self)@.len() == old(self)@.len() + FILL_VERTEX_BYTES,
    {
        let ghost w0 = self@;
        self.write_position(pos);
        self.write_color(color);
        proof {
            let a = seq![pos[0], pos[1]];
            let c = seq![color[0], color[1], color[2], color[3]];
            lemma_words_le_append(a, c);
            assert(a + c =~= seq![pos[0], pos[1], color[0], color[1], color[2], color[3]]);
            assert(self@ =~= w0 + words_le(a + c));
            lemma_words_le_len(a + c);
        }
    }

    /// Number of bytes written.
    pub fn byte_len(&self) -> (n: usize)
        ensures
            n == self@.len(),
    {
        self.data.len()
    }

    /// Nothing was written.
    pub fn is_empty(&self) -> (b: bool)
        ensures
            b == (self@.len() == 0),
    {
        self.data.len() == 0
    }

    /// The bytes written.
    pub fn as_slice(&self) -> (s: &[u8])
        ensures
            s@ == self@,
    {
        self.data.as_slice()
    }
}

/// Bits of `0.0f32`: the start of a segment, along its length.
pub const ALONG_START: u32 = 0x0000_0000;
/// Bits of `1.0f32`: the end of a segment, along its length.
pub const ALONG_END: u32 = 0x3f80_0000;
/// Bits of `1.0f32`: the left side of a stroke.
pub const SIDE_LEFT: u32 = 0x3f80_0000;
/// Bits of `-1.0f32`: the right side of a stroke.
pub const SIDE_RIGHT: u32 = 0xbf80_0000;

/// A range of line vertices drawn together.
#[derive(Debug, Clone, Copy, PartialEq, Eq, Structural)]
pub struct LineSegment {
    /// Index of the first vertex in the line buffer.
    pub first_vertex: u32,
    /// Number of vertices.
    pub vertex_count: u32,
}

/// The stroke parameters shared by a polyline's vertices.
#[derive(Debug, Clone, Copy, PartialEq, Eq, Structural)]
pub struct LineRenderStyle {
    /// Line width, as `f32` bits.
    pub width: u32,
    /// Whether the width is in pixels or world units.
    pub width_mode: u32,
    /// Line style code (solid, dotted, dashed).
    pub line_style: u32,
    /// Parameter of the line style, as `f32` bits.
    pub style_param: u32,
}

/// One segment of a polyline that is drawn (of positive length), all float
/// attributes as bits.
#[derive(Debug, Clone, Copy)]
pub struct PolylineSegment {
    /// Start point, in render coordinates.
    pub start: [u32; 2],
    /// End point, in render coordinates.
    pub end: [u32; 2],
    /// Color at the start point.
    pub start_color: [u32; 4],
    /// Color at the end point.
    pub end_color: [u32; 4],
    /// Distance along the polyline at the start point.
    pub distance_start: u32,
    /// Length of the segment.
    pub length: u32,
}

/// The line vertex of segment `seg` at one corner of its quad.
pub open spec fn stroke_vertex(
    seg: PolylineSegment,
    style: LineRenderStyle,
    at_end: bool,
    left: bool,
) -> LineVertex {
    LineVertex {
        start: seg.start,
        end: seg.end,
        color: if at_end { seg.end_color } else { seg.start_color },
        style: style.line_style,
        distance_start: seg.distance_start,
        segment_length_world: seg.length,
        param: style.style_param,
        width: style.width,
        width_mode: style.width_mode,
        along: if at_end { ALONG_END } else { ALONG_START },
        side: if left { SIDE_LEFT } else { SIDE_RIGHT },
    }
}

/// The words of the six vertices of a segment's quad, as two triangles:
/// start-left, start-right, end-left, then start-right, end-left, end-right.
pub open spec fn segment_words(seg: PolylineSegment, style: LineRenderStyle) -> Seq<u32> {
    line_vertex_words(stroke_vertex(seg, style, false, true)) + line_vertex_words(
        stroke_vertex(seg, style, false, false),
    ) + line_vertex_words(stroke_vertex(seg, style, true, true)) + line_vertex_words(
        stroke_vertex(seg, style, false, false),
    ) + line_vertex_words(stroke_vertex(seg, style, true, true)) + line_vertex_words(
        stroke_vertex(seg, style, true, false),
    )
}

/// The words of all segments' quads, segment after segment.
pub open spec fn polyline_words(segments: Seq<PolylineSegment>, style: LineRenderStyle) -> Seq<u32>
    decreases segments.len(),
{
    if segments.len() == 0 {
        Seq::empty()
    } else {
        polyline_words(segments.drop_last(), style) + segment_words(segments.last(), style)
    }
}

/// The draw range recorded for a polyline whose vertices took the buffer from
/// `before` to `after` bytes: none when no vertex was written.
pub open spec fn recorded_range(before: int, after: int) -> Seq<LineSegment> {
    let first = (before / 64) as u32;
    let count = ((after / 64) as u32 - first) as u32;
    if count > 0 {
        seq![LineSegment { first_vertex: first, vertex_count: count }]
    } else {
        Seq::empty()
    }
}

impl VertexWriter {
    /// Writes one vertex of a segment's stroke.
    fn write_stroke_vertex(&mut self, seg: &PolylineSegment, style: &LineRenderStyle, at_end: bool, left: bool)
        ensures
            final(self)@ == old(self)@ + words_le(
                line_vertex_words(stroke_vertex(*seg, *style, at_end, left)),
            ),
    {
        self.write_line_vertex(
            LineVertex {
                start: seg.start,
                end: seg.end,
                color: if at_end { seg.end_color } else { seg.start_color },
                style: style.line_style,
                distance_start: seg.distance_start,
                segment_length_world: seg.length,
                param: style.style_param,
                width: style.width,
                width_mode: style.width_mode,
                along: if at_end { ALONG_END } else { ALONG_START },
                side: if left { SIDE_LEFT } else { SIDE_RIGHT },
            },
        );
    }
}

/// Writes the triangles of a polyline's drawn segments, six line vertices per
/// segment, and records their draw range.
pub fn write_polyline_triangles(
    writer: &mut VertexWriter,
    segs: &mut Vec<LineSegment>,
    segments: &Vec<PolylineSegment>,
    style: LineRenderStyle,
)
    requires
        old(writer)@.len() + 384 * segments@.len() <= 64 * (u32::MAX as int),
    ensures
        final(writer)@ == old(writer)@ + words_le(polyline_words(segments@, style)),
        final(writer)@.len() == old(writer)@.len() + 384 * segments@.len(),
        final(segs)@ == old(segs)@ + recorded_range(
            old(writer)@.len() as int,
            final(writer)@.len() as int,
        ),
        forall|k: int|
            0 <= k < segments@.len() ==> final(writer)@.subrange(
                old(writer)@.len() + 384 * k,
                old(writer)@.len() + 384 * k + 384,
            ) == words_le(segment_words(#[trigger] segments@[k], style)),
{
    let first_vertex = (writer.byte_len() / LINE_VERTEX_BYTES) as u32;
    let ghost w0 = writer@;
    let mut i: usize = 0;
    while i < segments.len()
        invariant
            i <= segments@.len(),
            writer@ == w0 + words_le(polyline_words(segments@.subrange(0, i as int), style)),
            writer@.len() == w0.len() + 384 * i,
            w0.len() + 384 * segments@.len() <= 64 * (u32::MAX as int),
        decreases segments.len() - i,
    {
        let seg = &segments[i];
        let ghost before = writer@;
        writer.write_stroke_vertex(seg, &style, false, true);
        writer.write_stroke_vertex(seg, &style, false, false);
        writer.write_stroke_vertex(seg, &style, true, true);
        writer.write_stroke_vertex(seg, &style, false, false);
        writer.write_stroke_vertex(seg, &style, true, true);
        writer.write_stroke_vertex(seg, &style, true, false);
        proof {
            let v0 = line_vertex_words(stroke_vertex(*seg, style, false, true));
            let v1 = line_vertex_words(stroke_vertex(*seg, style, false, false));
            let v2 = line_vertex_words(stroke_vertex(*seg, style, true, true));
            let v3 = line_vertex_words(stroke_vertex(*seg, style, false, false));
            let v4 = line_vertex_words(stroke_vertex(*seg, style, true, true));
            let v5 = line_vertex_words(stroke_vertex(*seg, style, true, false));
            lemma_words_le_append(v0, v1);
            lemma_words_le_append(v0 + v1, v2);
            lemma_words_le_append(v0 + v1 + v2, v3);
            lemma_words_le_append(v0 + v1 + v2 + v3, v4);
            lemma_words_le_append(v0 + v1 + v2 + v3 + v4, v5);
            assert(writer@ =~= before + words_le(segment_words(*seg, style)));
            let prefix = segments@.subrange(0, i as int);
            assert(segments@.subrange(0, i + 1).drop_last() == prefix);
            lemma_words_le_append(polyline_words(prefix, style), segment_words(*seg, style));
            assert(writer@ =~= w0 + words_le(
                polyline_words(segments@.subrange(0, i + 1), style),
            ));
            lemma_words_le_len(segment_words(*seg, style));
        }
        i = i + 1;
    }
    assert(segments@.subrange(0, segments@.len() as int) == segments@);
    proof {
        let all = polyline_words(segments@, style);
        lemma_polyline_words_segments(segments@, style);
        assert forall|k: int| 0 <= k < segments@.len() implies writer@.subrange(
            w0.len() + 384 * k,
            w0.len() + 384 * k + 384,
        ) == words_le(segment_words(#[trigger] segments@[k], style)) by {
            lemma_words_le_subrange(all, 96 * k, 96 * k + 96);
            lemma_words_le_len(all);
            assert(writer@.subrange(w0.len() + 384 * k, w0.len() + 384 * k + 384) =~= words_le(
                all,
            ).subrange(4 * (96 * k), 4 * (96 * k + 96)));
        }
    }
    let vertex_count = (writer.byte_len() / LINE_VERTEX_BYTES) as u32 - first_vertex;
    if vertex_count > 0 {
        segs.push(LineSegment { first_vertex, vertex_count });
    }
}

/// The corner of the stroke quad that the `v`-th line vertex in `w` stands at:
/// its position along the segment and its side of the stroke.
pub open spec fn vertex_corner(w: Seq<u32>, v: int) -> (u32, u32) {
    (w[16 * v + 14], w[16 * v + 15])
}

/// The `v`-th line vertex in `w` belongs to segment `seg` drawn in `style`: it
/// holds the segment's ends, its distance and length, the style's parameters, and
/// the color of the end it stands at (the end color at the far end, else the
/// start color).
pub open spec fn vertex_of_segment(w: Seq<u32>, v: int, seg: PolylineSegment, style: LineRenderStyle) -> bool {
    let color = if w[16 * v + 14] == ALONG_END { seg.end_color } else { seg.start_color };
    &&& w[16 * v] == seg.start[0]
    &&& w[16 * v + 1] == seg.start[1]
    &&& w[16 * v + 2] == seg.end[0]
    &&& w[16 * v + 3] == seg.end[1]
    &&& w[16 * v + 4] == color[0]
    &&& w[16 * v + 5] == color[1]
    &&& w[16 * v + 6] == color[2]
    &&& w[16 * v + 7] == color[3]
    &&& w[16 * v + 8] == style.line_style
    &&& w[16 * v + 9] == seg.distance_start
    &&& w[16 * v + 10] == seg.length
    &&& w[16 * v + 11] == style.style_param
    &&& w[16 * v + 12] == style.width
    &&& w[16 * v + 13] == style.width_mode
}

/// A segment's six vertices are two triangles that together cover its whole
/// quad: the first is start-left, start-right, end-left, the second
/// start-right, end-left, end-right. So no two vertices of a triangle share a
/// corner, the two triangles share exactly the diagonal from start-right to
/// end-left, and each of the four corners is drawn. Every vertex carries the
/// segment, the style and the color of the end it stands at.
pub proof fn lemma_segment_triangles_cover_quad(seg: PolylineSegment, style: LineRenderStyle)
    ensures
        ({
            let w = segment_words(seg, style);
            &&& w.len() == 96
            &&& vertex_corner(w, 0) == (ALONG_START, SIDE_LEFT)
            &&& vertex_corner(w, 1) == (ALONG_START, SIDE_RIGHT)
            &&& vertex_corner(w, 2) == (ALONG_END, SIDE_LEFT)
            &&& vertex_corner(w, 3) == (ALONG_START, SIDE_RIGHT)
            &&& vertex_corner(w, 4) == (ALONG_END, SIDE_LEFT)
            &&& vertex_corner(w, 5) == (ALONG_END, SIDE_RIGHT)
            &&& vertex_corner(w, 0) != vertex_corner(w, 1)
            &&& vertex_corner(w, 0) != vertex_corner(w, 2)
            &&& vertex_corner(w, 1) != vertex_corner(w, 2)
            &&& vertex_corner(w, 3) != vertex_corner(w, 4)
            &&& vertex_corner(w, 3) != vertex_corner(w, 5)
            &&& vertex_corner(w, 4) != vertex_corner(w, 5)
            &&& forall|v: int| 0 <= v < 6 ==> #[trigger] vertex_of_segment(w, v, seg, style)
        }),
{
    let w = segment_words(seg, style);
    let v0 = line_vertex_words(stroke_vertex(seg, style, false, true));
    let v1 = line_vertex_words(stroke_vertex(seg, style, false, false));
    let v2 = line_vertex_words(stroke_vertex(seg, style, true, true));
    let v5 = line_vertex_words(stroke_vertex(seg, style, true, false));
    assert(w.subrange(0, 16) =~= v0);
    assert(w.subrange(16, 32) =~= v1);
    assert(w.subrange(32, 48) =~= v2);
    assert(w.subrange(48, 64) =~= v1);
    assert(w.subrange(64, 80) =~= v2);
    assert(w.subrange(80, 96) =~= v5);
    lemma_vertex_at(w, 0, seg, style, false, true);
    lemma_vertex_at(w, 1, seg, style, false, false);
    lemma_vertex_at(w, 2, seg, style, true, true);
    lemma_vertex_at(w, 3, seg, style, false, false);
    lemma_vertex_at(w, 4, seg, style, true, true);
    lemma_vertex_at(w, 5, seg, style, true, false);
    assert forall|v: int| 0 <= v < 6 implies #[trigger] vertex_of_segment(w, v, seg, style) by {
        if v == 0 {
        } else if v == 1 {
        } else if v == 2 {
        } else if v == 3 {
        } else if v == 4 {
        } else {
        }
    }
}

/// The quads of a polyline's segments lie one after the other: segment `k`
/// fills words `96 * k` up to `96 * (k + 1)`.
pub proof fn lemma_polyline_words_segments(segments: Seq<PolylineSegment>, style: LineRenderStyle)
    ensures
        polyline_words(segments, style).len() == 96 * segments.len(),
        forall|k: int|
            0 <= k < segments.len() ==> polyline_words(segments, style).subrange(96 * k, 96 * k + 96)
                == segment_words(#[trigger] segments[k], style),
    decreases segments.len(),
{
    if segments.len() > 0 {
        let rest = segments.drop_last();
        lemma_polyline_words_segments(rest, style);
        lemma_segment_triangles_cover_quad(segments.last(), style);
        let pw = polyline_words(segments, style);
        let rw = polyline_words(rest, style);
        assert forall|k: int| 0 <= k < segments.len() implies pw.subrange(96 * k, 96 * k + 96)
            == segment_words(#[trigger] segments[k], style) by {
            if k < rest.len() {
                assert(rest[k] == segments[k]);
                assert(pw.subrange(96 * k, 96 * k + 96) =~= rw.subrange(96 * k, 96 * k + 96));
            } else {
                assert(pw.subrange(96 * k, 96 * k + 96) =~= segment_words(segments.last(), style));
            }
        }
    }
}

/// The `v`-th vertex in `w` is the stroke vertex of `seg` at the given corner.
proof fn lemma_vertex_at(
    w: Seq<u32>,
    v: int,
    seg: PolylineSegment,
    style: LineRenderStyle,
    at_end: bool,
    left: bool,
)
    requires
        0 <= v,
        16 * v + 16 <= w.len(),
        w.subrange(16 * v, 16 * v + 16) == line_vertex_words(stroke_vertex(seg, style, at_end, left)),
    ensures
        vertex_of_segment(w, v, seg, style),
        vertex_corner(w, v) == (
            if at_end { ALONG_END } else { ALONG_START },
            if left { SIDE_LEFT } else { SIDE_RIGHT },
        ),
{
    let sub = w.subrange(16 * v, 16 * v + 16);
    assert forall|t: int| 0 <= t < 16 implies w[16 * v + t] == #[trigger] sub[t] by {}
    assert(w[16 * v] == sub[0]);
    assert(w[16 * v + 1] == sub[1]);
    assert(w[16 * v + 2] == sub[2]);
    assert(w[16 * v + 3] == sub[3]);
    assert(w[16 * v + 4] == sub[4]);
    assert(w[16 * v + 5] == sub[5]);
    assert(w[16 * v + 6] == sub[6]);
    assert(w[16 * v + 7] == sub[7]);
    assert(w[16 * v + 8] == sub[8]);
    assert(w[16 * v + 9] == sub[9]);
    assert(w[16 * v + 10] == sub[10]);
    assert(w[16 * v + 11] == sub[11]);
    assert(w[16 * v + 12] == sub[12]);
    assert(w[16 * v + 13] == sub[13]);
    assert(w[16 * v + 14] == sub[14]);
    assert(w[16 * v + 15] == sub[15]);
}

/// The draw range recorded for a polyline covers exactly the vertices written
/// for it, when the buffer held whole vertices before: it starts at the vertex
/// the buffer ended with and counts six vertices per segment.
pub proof fn lemma_recorded_range_covers_written_vertices(before: int, n_segments: int)
    requires
        0 <= before,
        before % 64 == 0,
        0 < n_segments,
        before + 384 * n_segments <= 64 * (u32::MAX as int),
    ensures
        recorded_range(before, before + 384 * n_segments) == seq![
            LineSegment {
                first_vertex: (before / 64) as u32,
                vertex_count: (6 * n_segments) as u32,
            },
        ],
{
    assert((before + 384 * n_segments) / 64 == before / 64 + 6 * n_segments);
}

} // verus!
