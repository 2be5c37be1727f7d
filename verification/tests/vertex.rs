use iced_plot::vertex::{
    write_polyline_triangles, LineRenderStyle, LineSegment, LineVertex, PolylineSegment,
    VertexWriter, ALONG_END, ALONG_START, SIDE_LEFT, SIDE_RIGHT,
};

fn word(bytes: &[u8], k: usize) -> u32 {
    u32::from_le_bytes([bytes[4 * k], bytes[4 * k + 1], bytes[4 * k + 2], bytes[4 * k + 3]])
}

#[test]
fn stroke_constants_are_float_bits() {
    assert_eq!(ALONG_START, 0.0f32.to_bits());
    assert_eq!(ALONG_END, 1.0f32.to_bits());
    assert_eq!(SIDE_LEFT, 1.0f32.to_bits());
    assert_eq!(SIDE_RIGHT, (-1.0f32).to_bits());
}

#[test]
fn attributes_are_little_endian() {
    let mut w = VertexWriter::new();
    assert!(w.is_empty());
    w.write_u32(0x0403_0201);
    w.write_f32(1.0f32.to_bits());
    assert_eq!(w.as_slice(), &[1, 2, 3, 4, 0x00, 0x00, 0x80, 0x3f]);
    w.write_position([2.5f32.to_bits(), (-3.0f32).to_bits()]);
    w.write_uv([0u32, 1]);
    w.write_color([1, 2, 3, 4]);
    assert_eq!(w.byte_len(), 8 + 8 + 8 + 16);
    assert_eq!(f32::from_bits(word(w.as_slice(), 2)), 2.5);
    assert_eq!(f32::from_bits(word(w.as_slice(), 3)), -3.0);
    assert_eq!(word(w.as_slice(), 9), 4);
    let mut c = VertexWriter::with_capacity(64);
    assert_eq!(c.byte_len(), 0);
    c.write_u32(7);
    assert!(!c.is_empty());
}

#[test]
fn line_vertex_is_64_bytes_in_field_order() {
    let mut w = VertexWriter::new();
    let v = LineVertex {
        start: [1, 2],
        end: [3, 4],
        color: [5, 6, 7, 8],
        style: 9,
        distance_start: 10,
        segment_length_world: 11,
        param: 12,
        width: 13,
        width_mode: 14,
        along: 15,
        side: 16,
    };
    w.write_line_vertex(v);
    assert_eq!(w.byte_len(), 64);
    for k in 0..16 {
        assert_eq!(word(w.as_slice(), k), k as u32 + 1);
    }
}

#[test]
fn polyline_writes_six_vertices_per_segment_and_records_range() {
    let mut w = VertexWriter::new();
    // one vertex already in the buffer
    w.write_line_vertex(LineVertex {
        start: [0; 2],
        end: [0; 2],
        color: [0; 4],
        style: 0,
        distance_start: 0,
        segment_length_world: 0,
        param: 0,
        width: 0,
        width_mode: 0,
        along: 0,
        side: 0,
    });
    let mut segs = Vec::new();
    let style = LineRenderStyle { width: 2.0f32.to_bits(), width_mode: 0, line_style: 2, style_param: 5.0f32.to_bits() };
    let seg = |x: u32| PolylineSegment {
        start: [x, 0],
        end: [x + 1, 0],
        start_color: [100; 4],
        end_color: [200; 4],
        distance_start: x,
        length: 1,
    };
    write_polyline_triangles(&mut w, &mut segs, &vec![seg(0), seg(1)], style);
    assert_eq!(w.byte_len(), 64 + 2 * 6 * 64);
    assert_eq!(segs, vec![LineSegment { first_vertex: 1, vertex_count: 12 }]);
    let bytes = w.as_slice();
    // vertex 1: start color, along start, left side
    assert_eq!(word(bytes, 16 + 4), 100);
    assert_eq!(word(bytes, 16 + 14), ALONG_START);
    assert_eq!(word(bytes, 16 + 15), SIDE_LEFT);
    // vertex 2: start, right
    assert_eq!(word(bytes, 32 + 15), SIDE_RIGHT);
    // vertex 3: end color, along end, left side
    assert_eq!(word(bytes, 48 + 4), 200);
    assert_eq!(word(bytes, 48 + 14), ALONG_END);
    // vertex 6: end, right
    assert_eq!(word(bytes, 96 + 14), ALONG_END);
    assert_eq!(word(bytes, 96 + 15), SIDE_RIGHT);
    assert_eq!(word(bytes, 96 + 8), 2);
    assert_eq!(f32::from_bits(word(bytes, 96 + 12)), 2.0);

    write_polyline_triangles(&mut w, &mut segs, &vec![], style);
    assert_eq!(segs.len(), 1);
}

#[test]
fn marker_image_and_fill_vertex_strides() {
    let mut w = VertexWriter::new();
    w.write_marker_instance([1, 2], [3, 4, 5, 6], 7, 8, 9);
    assert_eq!(w.byte_len(), 36);
    for k in 0..9 {
        assert_eq!(word(w.as_slice(), k), k as u32 + 1);
    }
    let mut w = VertexWriter::new();
    w.write_image_vertex([1, 2], [3, 4], [5, 6, 7, 8], [9, 10, 11, 12]);
    assert_eq!(w.byte_len(), 48);
    for k in 0..12 {
        assert_eq!(word(w.as_slice(), k), k as u32 + 1);
    }
    let mut w = VertexWriter::new();
    w.write_fill_vertex([1, 2], [3, 4, 5, 6]);
    assert_eq!(w.byte_len(), 24);
    for k in 0..6 {
        assert_eq!(word(w.as_slice(), k), k as u32 + 1);
    }
}

#[test]
fn image_quad_writes_four_vertices_in_corner_order() {
    let mut w = VertexWriter::new();
    w.write_image_quad([[1, 1], [2, 2], [3, 3], [4, 4]], [[5, 5], [6, 6], [7, 7], [8, 8]], [9; 4], [10; 4]);
    let b = w.as_slice();
    assert_eq!(b.len(), 4 * 48);
    for corner in 0..4usize {
        let base = corner * 12;
        assert_eq!(word(b, base), corner as u32 + 1);
        assert_eq!(word(b, base + 2), corner as u32 + 5);
        assert_eq!(word(b, base + 4), 9);
        assert_eq!(word(b, base + 11), 10);
    }
}
