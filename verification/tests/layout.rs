use iced_plot::layout::{image_layout, line_layout, marker_layout, position_color_layout, VertexLayout};
use iced_plot::vertex::{LineVertex, VertexWriter};

fn offsets(l: &VertexLayout) -> Vec<(u32, u64, u64)> {
    l.attributes.iter().map(|a| (a.location, a.offset, a.components)).collect()
}

fn word_at(bytes: &[u8], offset: u64) -> u32 {
    let o = offset as usize;
    u32::from_le_bytes([bytes[o], bytes[o + 1], bytes[o + 2], bytes[o + 3]])
}

#[test]
fn pipeline_layouts() {
    let m = marker_layout();
    assert_eq!(m.stride, 36);
    assert_eq!(offsets(&m), vec![(0, 0, 2), (1, 8, 4), (2, 24, 1), (3, 28, 1), (4, 32, 1)]);
    let i = image_layout();
    assert_eq!(i.stride, 48);
    assert_eq!(offsets(&i), vec![(0, 0, 2), (1, 8, 2), (2, 16, 4), (3, 32, 4)]);
    let l = line_layout();
    assert_eq!(l.stride, 64);
    assert_eq!(l.attributes.len(), 11);
    assert_eq!(offsets(&l)[3], (3, 32, 1));
    assert_eq!(offsets(&l)[10], (10, 60, 1));
    let f = position_color_layout();
    assert_eq!(f.stride, 24);
    assert_eq!(offsets(&f), vec![(0, 0, 2), (1, 8, 4)]);
}

#[test]
fn marker_attributes_read_what_was_written() {
    let m = marker_layout();
    let mut w = VertexWriter::new();
    w.write_marker_instance([11, 12], [21, 22, 23, 24], 31, 41, 51);
    let b = w.as_slice();
    assert_eq!(b.len() as u64, m.stride);
    assert_eq!(word_at(b, m.attributes[0].offset + 4), 12);
    assert_eq!(word_at(b, m.attributes[1].offset + 12), 24);
    assert_eq!(word_at(b, m.attributes[2].offset), 31);
    assert_eq!(word_at(b, m.attributes[3].offset), 41);
    assert_eq!(word_at(b, m.attributes[4].offset), 51);
}

#[test]
fn line_attributes_read_what_was_written() {
    let l = line_layout();
    let mut w = VertexWriter::new();
    w.write_line_vertex(LineVertex {
        start: [1, 2],
        end: [3, 4],
        color: [5, 6, 7, 8],
        style: 9,
        distance_start: 10,
        segment_length_world: 11,
        param: 12,
        width: 13,
        width_mode: 14,
        along: 15,
        side: 16,
    });
    let b = w.as_slice();
    assert_eq!(word_at(b, l.attributes[1].offset), 3);
    assert_eq!(word_at(b, l.attributes[2].offset), 5);
    for k in 3..11 {
        assert_eq!(word_at(b, l.attributes[k].offset), k as u32 + 6);
    }
}
