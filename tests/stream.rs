use imgui_wgpu::stream::{encode_indices, encode_vertices, pad_to_word, GeometryStream, Vertex};

fn vertex(n: u32) -> Vertex {
    Vertex { x: n, y: n + 1, u: n + 2, v: n + 3, color: n + 4 }
}

#[test]
fn append_places_lists_at_cumulative_offsets() {
    let mut stream = GeometryStream::new();
    let first = stream.append(&[vertex(0), vertex(5), vertex(10)], &[0, 1, 2, 2, 1]);
    let second = stream.append(&[vertex(1), vertex(2)], &[0, 1, 1]);
    let third = stream.append(&[vertex(3)], &[0]);
    assert_eq!(first, Some((0, 0)));
    assert_eq!(second, Some((5, 3)));
    assert_eq!(third, Some((8, 5)));
    assert_eq!(stream.index_count(), 9);
    assert_eq!(stream.vertex_count(), 6);
}

#[test]
fn append_refuses_geometry_that_reaches_capacity() {
    let mut stream = GeometryStream::new();
    let indices = vec![7u16; 65535];
    assert_eq!(stream.append(&[vertex(0)], &indices), Some((0, 0)));
    assert_eq!(stream.append(&[vertex(1)], &[1]), None);
    assert_eq!(stream.index_count(), 65535);
    assert_eq!(stream.vertex_count(), 1);
}

#[test]
fn append_refuses_a_full_vertex_capacity_without_partial_write() {
    let mut stream = GeometryStream::new();
    assert_eq!(stream.append(&[vertex(0)], &[0, 0, 0]), Some((0, 0)));
    let vertices = vec![vertex(9); 65535];
    assert_eq!(stream.append(&vertices, &[0, 1]), None);
    assert_eq!(stream.index_count(), 3);
    assert_eq!(stream.vertex_count(), 1);
    let exact = vec![vertex(9); 65534];
    assert_eq!(stream.append(&exact, &[0, 1]), Some((3, 1)));
}

#[test]
fn append_indices_alone_checks_its_capacity() {
    let mut stream = GeometryStream::new();
    let too_many = vec![0u16; 65536];
    assert_eq!(stream.append_indices(&too_many), None);
    assert_eq!(stream.append_indices(&[4, 5]), Some(0));
    assert_eq!(stream.append_indices(&[6]), Some(2));
    assert_eq!(stream.append_vertices(&[vertex(0), vertex(1)]), Some(0));
    assert_eq!(stream.append_vertices(&[vertex(2)]), Some(2));
}

#[test]
fn flush_pads_to_the_next_word_and_empties_the_stream() {
    let mut stream = GeometryStream::new();
    stream.append(&[vertex(1)], &[1, 2, 0x0304]);
    let (mut index_bytes, mut vertex_bytes) = (Vec::new(), Vec::new());
    stream.flush(&mut index_bytes, &mut vertex_bytes);
    assert_eq!(index_bytes, vec![1, 0, 2, 0, 4, 3, 0, 0]);
    assert_eq!(vertex_bytes.len(), 20);
    let word = |k: usize| {
        u32::from_le_bytes([
            vertex_bytes[4 * k],
            vertex_bytes[4 * k + 1],
            vertex_bytes[4 * k + 2],
            vertex_bytes[4 * k + 3],
        ])
    };
    assert_eq!((word(0), word(1), word(2), word(3), word(4)), (1, 2, 3, 4, 5));
    assert_eq!(stream.index_count(), 0);
    assert_eq!(stream.vertex_count(), 0);
}

#[test]
fn next_frame_holds_only_its_own_geometry() {
    let mut stream = GeometryStream::new();
    let (mut index_bytes, mut vertex_bytes) = (Vec::new(), Vec::new());
    stream.append(&[vertex(1), vertex(2)], &[0, 1, 1, 0]);
    stream.flush(&mut index_bytes, &mut vertex_bytes);
    assert_eq!(index_bytes.len(), 8);
    assert_eq!(vertex_bytes.len(), 40);
    assert_eq!(stream.append(&[vertex(40)], &[9, 9]), Some((0, 0)));
    stream.flush(&mut index_bytes, &mut vertex_bytes);
    assert_eq!(index_bytes, vec![9, 0, 9, 0]);
    assert_eq!(vertex_bytes.len(), 20);
    assert_eq!(&vertex_bytes[..4], &[40, 0, 0, 0]);
}

#[test]
fn empty_flush_hands_out_no_bytes() {
    let mut stream = GeometryStream::new();
    let (mut index_bytes, mut vertex_bytes) = (Vec::new(), Vec::new());
    stream.flush(&mut index_bytes, &mut vertex_bytes);
    assert!(index_bytes.is_empty());
    assert!(vertex_bytes.is_empty());
}

#[test]
fn full_stream_flushes_within_the_gpu_buffers() {
    let mut stream = GeometryStream::new();
    let indices = vec![1u16; 65535];
    let vertices = vec![vertex(3); 65535];
    assert_eq!(stream.append(&vertices, &indices), Some((0, 0)));
    let (mut index_bytes, mut vertex_bytes) = (Vec::new(), Vec::new());
    stream.flush(&mut index_bytes, &mut vertex_bytes);
    assert_eq!(index_bytes.len(), 131072);
    assert_eq!(&index_bytes[131068..], &[1, 0, 0, 0]);
    assert_eq!(vertex_bytes.len(), 1310700);
}

#[test]
fn encode_indices_puts_the_low_byte_first() {
    let mut out = vec![0xaa];
    encode_indices(&[0x1234, 0xff00, 7], &mut out);
    assert_eq!(out, vec![0xaa, 0x34, 0x12, 0x00, 0xff, 7, 0]);
}

#[test]
fn encode_vertices_lays_out_five_words_each() {
    let v = Vertex { x: 0x0403_0201, y: 5, u: 0xdead_beef, v: 0, color: 0xff00_00ff };
    let mut bytes = Vec::new();
    encode_vertices(&[v, vertex(20)], &mut bytes);
    assert_eq!(bytes.len(), 40);
    assert_eq!(
        &bytes[..20],
        &[1, 2, 3, 4, 5, 0, 0, 0, 0xef, 0xbe, 0xad, 0xde, 0, 0, 0, 0, 0xff, 0, 0, 0xff]
    );
    assert_eq!(&bytes[20..24], &[20, 0, 0, 0]);
    assert_eq!(&bytes[36..40], &[24, 0, 0, 0]);
}

#[test]
fn pad_to_word_adds_zeros_up_to_a_multiple_of_four() {
    let mut five = vec![9u8; 5];
    pad_to_word(&mut five);
    assert_eq!(five, vec![9, 9, 9, 9, 9, 0, 0, 0]);
    let mut four = vec![1u8; 4];
    pad_to_word(&mut four);
    assert_eq!(four, vec![1, 1, 1, 1]);
    let mut seven = vec![2u8; 7];
    pad_to_word(&mut seven);
    assert_eq!(seven, vec![2, 2, 2, 2, 2, 2, 2, 0]);
}
