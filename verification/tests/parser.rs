//! Parser tests: exact extraction from binary documents, the length and
//! index-range invariants, and each rejection path.
use plyview::ply::{ParseError, PlyMesh, UNORM8};
use plyview::tokens::parse_u32;

/// Builds the header for a vertex/face document with the standard nine vertex
/// properties.
fn standard_header(format: &str, nv: usize, nf: usize) -> String {
    let mut h = String::new();
    h.push_str("ply\n");
    h.push_str(&format!("format {} 1.0\n", format));
    h.push_str(&format!("element vertex {}\n", nv));
    for p in ["x", "y", "z", "nx", "ny", "nz"] {
        h.push_str(&format!("property float {}\n", p));
    }
    for p in ["red", "green", "blue"] {
        h.push_str(&format!("property uchar {}\n", p));
    }
    h.push_str(&format!("element face {}\n", nf));
    h.push_str("property list uchar uint vertex_indices\n");
    h.push_str("end_header\n");
    h
}

fn push_vertex(out: &mut Vec<u8>, le: bool, pos: [f32; 3], nor: [f32; 3], col: [u8; 3]) {
    for v in pos.iter().chain(nor.iter()) {
        if le {
            out.extend_from_slice(&v.to_bits().to_le_bytes());
        } else {
            out.extend_from_slice(&v.to_bits().to_be_bytes());
        }
    }
    out.extend_from_slice(&col);
}

fn push_face(out: &mut Vec<u8>, le: bool, idx: &[u32]) {
    out.push(idx.len() as u8);
    for v in idx {
        if le {
            out.extend_from_slice(&v.to_le_bytes());
        } else {
            out.extend_from_slice(&v.to_be_bytes());
        }
    }
}

/// The synthetic three-vertex, one-triangle document, in either byte order.
fn triangle_doc(le: bool) -> Vec<u8> {
    let format = if le { "binary_little_endian" } else { "binary_big_endian" };
    let mut doc = standard_header(format, 3, 1).into_bytes();
    push_vertex(&mut doc, le, [0., 0., 0.], [0., 0., 1.], [255, 0, 0]);
    push_vertex(&mut doc, le, [1., 0., 0.], [0., 0., 1.], [0, 255, 0]);
    push_vertex(&mut doc, le, [0., 1., 0.], [0., 0., 1.], [0, 0, 255]);
    push_face(&mut doc, le, &[0, 1, 2]);
    doc
}

fn bits(vals: &[f32]) -> Vec<u32> {
    vals.iter().map(|v| v.to_bits()).collect()
}

#[test]
fn parse_triangle_little_endian_exact() {
    let doc = triangle_doc(true);
    let m = PlyMesh::parse(&doc).unwrap();
    assert_eq!(m.vertices, bits(&[0., 0., 0., 1., 0., 0., 0., 1., 0.]));
    assert_eq!(m.normals, bits(&[0., 0., 1., 0., 0., 1., 0., 0., 1.]));
    assert_eq!(m.colors, bits(&[1., 0., 0., 0., 1., 0., 0., 0., 1.]));
    assert_eq!(m.indices, vec![0u16, 1, 2]);
}

#[test]
fn parse_triangle_big_endian_exact() {
    let doc = triangle_doc(false);
    let m = PlyMesh::parse(&doc).unwrap();
    assert_eq!(m.vertices, bits(&[0., 0., 0., 1., 0., 0., 0., 1., 0.]));
    assert_eq!(m.normals, bits(&[0., 0., 1., 0., 0., 1., 0., 0., 1.]));
    assert_eq!(m.colors, bits(&[1., 0., 0., 0., 1., 0., 0., 0., 1.]));
    assert_eq!(m.indices, vec![0u16, 1, 2]);
}

#[test]
fn parsed_arrays_pair_up_and_indices_are_in_range() {
    let m = PlyMesh::parse(&triangle_doc(true)).unwrap();
    assert_eq!(m.vertices.len() % 3, 0);
    assert_eq!(m.vertices.len(), m.normals.len());
    assert_eq!(m.vertices.len(), m.colors.len());
    let nv = m.vertices.len() / 3;
    assert!(m.indices.iter().all(|&i| (i as usize) < nv));
}

#[test]
fn missing_vertex_element_is_fatal() {
    let mut doc = String::new();
    doc.push_str("ply\nformat binary_little_endian 1.0\n");
    doc.push_str("element face 0\nproperty list uchar uint vertex_indices\nend_header\n");
    // a face element cannot be decoded before the vertices are known
    assert!(PlyMesh::parse(doc.as_bytes()).is_err());
    let mut doc2 = String::new();
    doc2.push_str("ply\nformat binary_little_endian 1.0\nend_header\n");
    assert_eq!(PlyMesh::parse(doc2.as_bytes()), Err(ParseError::MissingVertexElement));
}

#[test]
fn missing_face_element_is_fatal() {
    let mut doc = standard_header("binary_little_endian", 0, 0);
    // drop the face declaration lines
    let doc = doc.replace("element face 0\nproperty list uchar uint vertex_indices\n", "");
    assert_eq!(PlyMesh::parse(doc.as_bytes()), Err(ParseError::MissingFaceElement));
}

#[test]
fn vertex_missing_color_property_fails_fast() {
    // one color channel absent from the schema: the whole element fails
    // rather than yielding ragged arrays
    let mut h = String::new();
    h.push_str("ply\nformat binary_little_endian 1.0\nelement vertex 0\n");
    for p in ["x", "y", "z", "nx", "ny", "nz"] {
        h.push_str(&format!("property float {}\n", p));
    }
    h.push_str("property uchar red\nproperty uchar green\n");
    h.push_str("element face 0\nproperty list uchar uint vertex_indices\nend_header\n");
    assert_eq!(PlyMesh::parse(h.as_bytes()), Err(ParseError::AttributeTypeMismatch));
}

#[test]
fn position_at_wrong_type_fails_fast() {
    let h = standard_header("binary_little_endian", 0, 0).replace(
        "property float x\n",
        "property double x\n",
    );
    assert_eq!(PlyMesh::parse(h.as_bytes()), Err(ParseError::AttributeTypeMismatch));
}

#[test]
fn bad_magic_is_rejected() {
    assert_eq!(PlyMesh::parse(b"plyx\nend_header\n"), Err(ParseError::BadMagic));
    assert_eq!(PlyMesh::parse(b""), Err(ParseError::BadMagic));
}

#[test]
fn bad_format_line_is_rejected() {
    let doc = standard_header("binary_middle_endian", 0, 0);
    assert_eq!(PlyMesh::parse(doc.as_bytes()), Err(ParseError::BadFormatLine));
    let doc = standard_header("binary_little_endian 2.0", 0, 0);
    assert_eq!(PlyMesh::parse(doc.as_bytes()), Err(ParseError::BadFormatLine));
}

#[test]
fn truncated_payload_is_rejected() {
    let mut doc = triangle_doc(true);
    doc.truncate(doc.len() - 5);
    assert_eq!(PlyMesh::parse(&doc), Err(ParseError::TruncatedPayload));
}

#[test]
fn face_index_beyond_vertices_is_rejected() {
    let mut doc = standard_header("binary_little_endian", 3, 1).into_bytes();
    push_vertex(&mut doc, true, [0., 0., 0.], [0., 0., 1.], [255, 0, 0]);
    push_vertex(&mut doc, true, [1., 0., 0.], [0., 0., 1.], [0, 255, 0]);
    push_vertex(&mut doc, true, [0., 1., 0.], [0., 0., 1.], [0, 0, 255]);
    push_face(&mut doc, true, &[0, 1, 7]);
    assert_eq!(PlyMesh::parse(&doc), Err(ParseError::IndexOutOfRange));
}

#[test]
fn unknown_scalar_elements_are_skipped() {
    let mut h = String::new();
    h.push_str("ply\nformat binary_little_endian 1.0\n");
    h.push_str("comment made by hand\n");
    h.push_str("element vertex 1\n");
    for p in ["x", "y", "z", "nx", "ny", "nz"] {
        h.push_str(&format!("property float {}\n", p));
    }
    for p in ["red", "green", "blue"] {
        h.push_str(&format!("property uchar {}\n", p));
    }
    h.push_str("element edge 2\nproperty int vertex1\nproperty int vertex2\n");
    h.push_str("element face 1\nproperty list uchar uint vertex_indices\nend_header\n");
    let mut doc = h.into_bytes();
    push_vertex(&mut doc, true, [0.5, -0.5, 2.0], [0., 1., 0.], [10, 20, 30]);
    doc.extend_from_slice(&[0u8; 16]); // two edge records of two ints each
    push_face(&mut doc, true, &[0, 0, 0]);
    let m = PlyMesh::parse(&doc).unwrap();
    assert_eq!(m.vertices, bits(&[0.5, -0.5, 2.0]));
    assert_eq!(m.colors[0], (10.0f32 / 255.0).to_bits());
    assert_eq!(m.indices, vec![0u16, 0, 0]);
}

#[test]
fn extra_vertex_properties_are_skipped_by_width() {
    let mut h = String::new();
    h.push_str("ply\nformat binary_little_endian 1.0\nelement vertex 1\n");
    h.push_str("property double weight\n");
    for p in ["x", "y", "z", "nx", "ny", "nz"] {
        h.push_str(&format!("property float {}\n", p));
    }
    h.push_str("property ushort tag\n");
    for p in ["red", "green", "blue"] {
        h.push_str(&format!("property uchar {}\n", p));
    }
    h.push_str("element face 0\nproperty list uchar uint vertex_indices\nend_header\n");
    let mut doc = h.into_bytes();
    doc.extend_from_slice(&[0u8; 8]); // the skipped double
    for v in [3.0f32, 4.0, 5.0, 0.0, 1.0, 0.0] {
        doc.extend_from_slice(&v.to_bits().to_le_bytes());
    }
    doc.extend_from_slice(&[9, 9]); // the skipped ushort
    doc.extend_from_slice(&[255, 255, 255]);
    let m = PlyMesh::parse(&doc).unwrap();
    assert_eq!(m.vertices, bits(&[3.0, 4.0, 5.0]));
    assert_eq!(m.colors, bits(&[1.0, 1.0, 1.0]));
}

#[test]
fn quad_face_is_flattened_without_retriangulation() {
    let mut doc = standard_header("binary_little_endian", 4, 1).into_bytes();
    for i in 0..4 {
        push_vertex(&mut doc, true, [i as f32, 0., 0.], [0., 0., 1.], [0, 0, 0]);
    }
    push_face(&mut doc, true, &[0, 1, 2, 3]);
    let m = PlyMesh::parse(&doc).unwrap();
    assert_eq!(m.indices, vec![0u16, 1, 2, 3]);
}

#[test]
fn normalization_table_matches_ieee_division() {
    for b in 0..=255usize {
        assert_eq!(UNORM8[b], (b as f32 / 255.0).to_bits(), "channel byte {}", b);
    }
}

#[test]
fn decimal_fields_parse_exactly() {
    assert_eq!(parse_u32(b"0"), Some(0));
    assert_eq!(parse_u32(b"37"), Some(37));
    assert_eq!(parse_u32(b"4294967295"), Some(u32::MAX));
    assert_eq!(parse_u32(b"4294967296"), None);
    assert_eq!(parse_u32(b""), None);
    assert_eq!(parse_u32(b"12a"), None);
    assert_eq!(parse_u32(b"-3"), None);
}

/// The same triangle as `triangle_doc`, text-encoded.
fn ascii_triangle_doc() -> Vec<u8> {
    let mut doc = standard_header("ascii", 3, 1);
    doc.push_str("0 0 0 0 0 1 255 0 0\n");
    doc.push_str("1 0 0 0 0 1 0 255 0\n");
    doc.push_str("0 1 0 0 0 1 0 0 255\n");
    doc.push_str("3 0 1 2\n");
    doc.into_bytes()
}

fn host_float_bits(tokens: &[Vec<u8>]) -> Vec<u32> {
    tokens
        .iter()
        .map(|t| std::str::from_utf8(t).unwrap().parse::<f32>().unwrap().to_bits())
        .collect()
}

#[test]
fn ascii_triangle_decodes_exactly() {
    let geo = plyview::ply::AsciiGeometry::parse(&ascii_triangle_doc()).unwrap();
    let expected_tokens: Vec<Vec<u8>> = ["0", "0", "0", "1", "0", "0", "0", "1", "0"]
        .iter()
        .map(|s| s.as_bytes().to_vec())
        .collect();
    assert_eq!(geo.position_tokens, expected_tokens);
    assert_eq!(geo.colors, bits(&[1., 0., 0., 0., 1., 0., 0., 0., 1.]));
    assert_eq!(geo.indices, vec![0u16, 1, 2]);
}

#[test]
fn ascii_and_binary_encodings_agree() {
    let binary = PlyMesh::parse(&triangle_doc(true)).unwrap();
    let geo = plyview::ply::AsciiGeometry::parse(&ascii_triangle_doc()).unwrap();
    let pos = host_float_bits(&geo.position_tokens);
    let nor = host_float_bits(&geo.normal_tokens);
    let text = PlyMesh::from_ascii(geo, pos, nor).unwrap();
    assert_eq!(text, binary);
}

#[test]
fn ascii_coordinate_tokens_are_captured_verbatim() {
    let mut doc = standard_header("ascii", 1, 0);
    doc.push_str("0.5 -125e-1 3.25 0 1 0 10 20 30\n");
    let geo = plyview::ply::AsciiGeometry::parse(doc.as_bytes()).unwrap();
    assert_eq!(geo.position_tokens[0], b"0.5".to_vec());
    assert_eq!(geo.position_tokens[1], b"-125e-1".to_vec());
    assert_eq!(geo.position_tokens[2], b"3.25".to_vec());
    let pos = host_float_bits(&geo.position_tokens);
    assert_eq!(pos, vec![0.5f32.to_bits(), (-12.5f32).to_bits(), 3.25f32.to_bits()]);
}

#[test]
fn from_ascii_rejects_mismatched_lengths() {
    let geo = plyview::ply::AsciiGeometry::parse(&ascii_triangle_doc()).unwrap();
    let nor = host_float_bits(&geo.normal_tokens);
    let r = PlyMesh::from_ascii(geo, vec![0u32; 2], nor);
    assert_eq!(r, Err(ParseError::AttributeTypeMismatch));
}

#[test]
fn each_payload_kind_points_at_the_other_entry() {
    assert_eq!(PlyMesh::parse(&ascii_triangle_doc()), Err(ParseError::AsciiPayload));
    assert_eq!(
        plyview::ply::AsciiGeometry::parse(&triangle_doc(true)),
        Err(ParseError::BinaryPayload)
    );
}

#[test]
fn ascii_color_channel_out_of_range_is_rejected() {
    let mut doc = standard_header("ascii", 1, 0);
    doc.push_str("0 0 0 0 0 1 300 0 0\n");
    assert_eq!(
        plyview::ply::AsciiGeometry::parse(doc.as_bytes()),
        Err(ParseError::BadCount)
    );
}

#[test]
fn ascii_bad_face_index_is_rejected() {
    let mut doc = standard_header("ascii", 1, 1);
    doc.push_str("0 0 0 0 0 1 1 2 3\n3 0 0 9\n");
    assert_eq!(
        plyview::ply::AsciiGeometry::parse(doc.as_bytes()),
        Err(ParseError::IndexOutOfRange)
    );
    let mut doc2 = standard_header("ascii", 1, 1);
    doc2.push_str("0 0 0 0 0 1 1 2 3\n3 0 0 frog\n");
    assert_eq!(
        plyview::ply::AsciiGeometry::parse(doc2.as_bytes()),
        Err(ParseError::IndexOutOfRange)
    );
}

#[test]
fn ascii_truncated_payload_is_rejected() {
    let mut doc = standard_header("ascii", 2, 0);
    doc.push_str("0 0 0 0 0 1 1 2 3\n");
    assert_eq!(
        plyview::ply::AsciiGeometry::parse(doc.as_bytes()),
        Err(ParseError::TruncatedPayload)
    );
}

#[test]
fn binding_the_parsed_triangle_reports_three_indices() {
    let m = PlyMesh::parse(&triangle_doc(true)).unwrap();
    let mut gpu = plyview::gpu::GpuModel::new();
    let bm = plyview::gpu::bind(&m, &mut gpu);
    assert_eq!(bm.num_indices, 3);
    match gpu.read_buffer(bm.vertex_buffer).unwrap() {
        plyview::gpu::BufferData::FloatBits(v) => assert_eq!(*v, m.vertices),
        _ => panic!("vertex buffer holds the wrong kind of data"),
    }
}

#[test]
fn parsing_is_a_pure_function_of_the_bytes() {
    let doc = triangle_doc(true);
    assert_eq!(PlyMesh::parse(&doc), PlyMesh::parse(&doc));
    let adoc = ascii_triangle_doc();
    assert_eq!(
        plyview::ply::AsciiGeometry::parse(&adoc),
        plyview::ply::AsciiGeometry::parse(&adoc)
    );
}
