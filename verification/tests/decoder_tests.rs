use meshdec::add;
use meshdec::model::{args_to_io_type, IOType, StlEncoding, StlError};
use meshdec::obj::{read_obj, face_vertex_of, FaceVertex};
use meshdec::read_stl;
use meshdec::sniff::sniff_is_ascii;
use meshdec::stl_ascii::read_ascii_stl;
use meshdec::stl_binary::{decode_binary_stl, encode_binary_stl, Triangle, Vec3Bits};
use meshdec::STLDocument;

fn v3(x: u32, y: u32, z: u32) -> Vec3Bits {
    Vec3Bits { x, y, z }
}

fn sample_triangle() -> Triangle {
    // 1.0f32 is 0x3F800000, 2.0f32 is 0x40000000 as little-endian payloads
    Triangle {
        normal: v3(0, 0, 0x3F800000),
        v0: v3(0, 0, 0),
        v1: v3(0x3F800000, 0, 0),
        v2: v3(0, 0x40000000, 0),
    }
}

fn binary_stream(count_declared: u32, triangles: &[Triangle]) -> Vec<u8> {
    let mut bytes = vec![0u8; 80];
    bytes.extend_from_slice(&count_declared.to_le_bytes());
    for t in triangles {
        for c in [
            t.normal.x, t.normal.y, t.normal.z, t.v0.x, t.v0.y, t.v0.z, t.v1.x, t.v1.y, t.v1.z,
            t.v2.x, t.v2.y, t.v2.z,
        ] {
            bytes.extend_from_slice(&c.to_le_bytes());
        }
        bytes.extend_from_slice(&[0u8, 0u8]);
    }
    bytes
}

#[test]
fn it_works() {
    let result = add(2, 2);
    assert_eq!(result, 4);
}

#[test]
fn read_binary_stl_test() {
    let bytes = binary_stream(1, &[sample_triangle()]);
    let result = read_stl(&bytes);
    assert!(result.is_ok());
}

#[test]
fn read_ascii_stl_test() {
    let text = "solid ball\nfacet normal 0 0 1\nouter loop\nvertex 0 0 0\nvertex 1 0 0\nvertex 0 1 0\nendloop\nendfacet\nendsolid\n";
    let result = read_stl(&text.as_bytes().to_vec());
    assert!(result.is_ok());
}

#[test]
fn read_obj_test() {
    let doc = read_obj("v 0 0 0\nv 1 0 0\nv 0 1 0\nf 1 2 3\n");
    assert!(doc.vertices.len() == 3 && doc.faces.len() == 1);
}

#[test]
fn binary_decode_yields_declared_count() {
    let ts = [sample_triangle(), sample_triangle(), sample_triangle()];
    let bytes = binary_stream(3, &ts);
    let decoded = decode_binary_stl(&bytes).unwrap();
    assert_eq!(decoded.len(), 3);
    assert_eq!(decoded[0], sample_triangle());
}

#[test]
fn binary_decode_reads_exact_payloads() {
    let bytes = binary_stream(1, &[sample_triangle()]);
    match read_stl(&bytes).unwrap() {
        STLDocument::Binary(ts) => {
            assert_eq!(ts.len(), 1);
            assert_eq!(ts[0].normal.z, 0x3F800000);
            assert_eq!(ts[0].v1.x, 0x3F800000);
            assert_eq!(ts[0].v2.y, 0x40000000);
        }
        STLDocument::Ascii(_) => panic!("sniffed a zeroed header as ASCII"),
    }
}

#[test]
fn binary_decode_truncated_is_all_or_nothing() {
    // two records declared, only one present
    let ts = [sample_triangle()];
    let bytes = binary_stream(2, &ts);
    let result = decode_binary_stl(&bytes);
    assert_eq!(result, Err(StlError::TruncatedBinaryRecord));
}

#[test]
fn binary_decode_short_fixed_part_fails() {
    let bytes = vec![0u8; 83];
    assert_eq!(decode_binary_stl(&bytes), Err(StlError::TruncatedBinaryRecord));
}

#[test]
fn binary_decode_zero_count_is_valid() {
    let bytes = binary_stream(0, &[]);
    let decoded = decode_binary_stl(&bytes).unwrap();
    assert_eq!(decoded.len(), 0);
}

#[test]
fn binary_round_trip_preserves_payloads() {
    let mut ts = Vec::new();
    ts.push(sample_triangle());
    ts.push(Triangle { normal: v3(7, 8, 9), v0: v3(1, 2, 3), v1: v3(4, 5, 6), v2: v3(10, 11, 12) });
    let bytes = encode_binary_stl(&ts);
    let decoded = decode_binary_stl(&bytes).unwrap();
    assert_eq!(decoded, ts);
}

#[test]
fn ascii_name_is_captured() {
    let parsed = read_ascii_stl("solid cube\nfacet normal 0 0 1\nvertex 1 2 3\nendsolid\n".to_string());
    assert_eq!(parsed.name, "cube");
}

#[test]
fn ascii_named_terminator_collapses_scan() {
    let text = "solid cube\nfacet normal 0 0 1\nvertex 0 0 0\nvertex 1 0 0\nvertex 0 1 0\nendsolid cube\n";
    let parsed = read_ascii_stl(text.to_string());
    assert_eq!(parsed.normal_vectors.len(), 0);
    assert_eq!(parsed.vertex_coordinates.len(), 0);
}

#[test]
fn ascii_scan_collects_textual_triples() {
    let text = "solid s\nfacet normal 0.5 -1 2e3\nvertex 1.25 0 3\nvertex 4 5 6\nendsolid\n";
    let parsed = read_ascii_stl(text.to_string());
    assert_eq!(parsed.normal_vectors.len(), 1);
    assert_eq!(parsed.normal_vectors[0].x, "0.5");
    assert_eq!(parsed.normal_vectors[0].y, "-1");
    assert_eq!(parsed.normal_vectors[0].z, "2e3");
    assert_eq!(parsed.vertex_coordinates.len(), 2);
    assert_eq!(parsed.vertex_coordinates[1].z, "6");
    assert!(parsed.is_ascii && !parsed.is_binary && parsed.is_valid);
}

#[test]
fn ascii_scan_accepts_crlf_lines() {
    let text = "solid a\r\nfacet normal 1 2 3\r\nvertex 4 5 6\r\nendsolid\r\n";
    let parsed = read_ascii_stl(text.to_string());
    assert_eq!(parsed.name, "a");
    assert_eq!(parsed.normal_vectors.len(), 1);
    assert_eq!(parsed.vertex_coordinates.len(), 1);
}

#[test]
fn ascii_unequal_counts_are_kept() {
    let text = "solid s\nfacet normal 1 2 3\nfacet normal 4 5 6\nvertex 7 8 9\nendsolid\n";
    let parsed = read_ascii_stl(text.to_string());
    assert_eq!(parsed.normal_vectors.len(), 2);
    assert_eq!(parsed.vertex_coordinates.len(), 1);
}

#[test]
fn read_stl_ascii_path_carries_name() {
    let bytes = "solid cube\nendsolid\n".as_bytes().to_vec();
    match read_stl(&bytes).unwrap() {
        STLDocument::Ascii(parsed) => assert_eq!(parsed.name, "cube"),
        STLDocument::Binary(_) => panic!("keyword prefix must sniff as ASCII"),
    }
}

#[test]
fn read_stl_rejects_undecodable_ascii() {
    let mut bytes = "solid ".as_bytes().to_vec();
    bytes.push(0xFF);
    bytes.push(0xFE);
    let result = read_stl(&bytes);
    assert_eq!(result.err(), Some(StlError::IoError));
}

#[test]
fn documents_report_their_encoding() {
    let binary = read_stl(&binary_stream(0, &[])).unwrap();
    assert_eq!(binary.encoding(), StlEncoding::Binary);
    let ascii = read_stl(&"solid s\nendsolid\n".as_bytes().to_vec()).unwrap();
    assert_eq!(ascii.encoding(), StlEncoding::Ascii);
}

#[test]
fn sniffer_is_case_insensitive() {
    assert!(sniff_is_ascii(&"SOLID x".as_bytes().to_vec()));
    assert!(sniff_is_ascii(&"Solid".as_bytes().to_vec()));
    assert!(!sniff_is_ascii(&"soli".as_bytes().to_vec()));
    assert!(!sniff_is_ascii(&vec![0u8; 80]));
}

#[test]
fn obj_face_resolves_declared_vertices() {
    let doc = read_obj("v 0 0 0\nv 1 0 0\nv 0 1 0\nf 1 2 3\n");
    let face = &doc.faces[0];
    assert_eq!(face.len(), 3);
    assert_eq!(face[0].vertex, 0);
    assert_eq!(face[1].vertex, 1);
    assert_eq!(face[2].vertex, 2);
    assert_eq!(doc.vertices[face[1].vertex].x, "1");
    assert_eq!(doc.vertices[face[1].vertex].y, "0");
    assert_eq!(doc.vertices[face[2].vertex].y, "1");
}

#[test]
fn obj_face_token_bad_texcoord_keeps_vertex() {
    let resolved = face_vertex_of("1/a/2");
    assert_eq!(resolved, Some(FaceVertex { vertex: 0, tex: None, normal: Some(1) }));
}

#[test]
fn obj_face_token_negative_is_omitted() {
    assert_eq!(face_vertex_of("-1"), None);
    let doc = read_obj("v 0 0 0\nv 1 1 1\nf 1 2 -1\n");
    assert_eq!(doc.faces[0].len(), 2);
}

#[test]
fn obj_face_token_forms() {
    assert_eq!(face_vertex_of("3"), Some(FaceVertex { vertex: 2, tex: None, normal: None }));
    assert_eq!(face_vertex_of("3/4"), Some(FaceVertex { vertex: 2, tex: Some(3), normal: None }));
    assert_eq!(
        face_vertex_of("3//4"),
        Some(FaceVertex { vertex: 2, tex: None, normal: Some(3) })
    );
    assert_eq!(
        face_vertex_of("3/4/5"),
        Some(FaceVertex { vertex: 2, tex: Some(3), normal: Some(4) })
    );
    assert_eq!(face_vertex_of("0"), None);
    assert_eq!(face_vertex_of(""), None);
}

#[test]
fn obj_components_default_to_zero() {
    let doc = read_obj("v 1 x 2\nvn nan -inf 1E-3\nvt .5 3.\n");
    assert_eq!(doc.vertices[0].x, "1");
    assert_eq!(doc.vertices[0].y, "0");
    assert_eq!(doc.vertices[0].z, "2");
    assert_eq!(doc.normals[0].x, "nan");
    assert_eq!(doc.normals[0].y, "-inf");
    assert_eq!(doc.normals[0].z, "1E-3");
    assert_eq!(doc.tex_coords[0].u, ".5");
    assert_eq!(doc.tex_coords[0].v, "3.");
}

#[test]
fn obj_short_directive_pads_with_zero() {
    let doc = read_obj("v 1 2\n");
    assert_eq!(doc.vertices[0].z, "0");
}

#[test]
fn obj_unknown_directives_are_skipped() {
    let doc = read_obj("# comment\ng group\nusemtl m\ns off\nv 1 2 3\n");
    assert_eq!(doc.vertices.len(), 1);
    assert_eq!(doc.normals.len(), 0);
    assert_eq!(doc.faces.len(), 0);
}

#[test]
fn args_pattern_selects_reader() {
    assert_eq!(args_to_io_type(&"read_ascii_stl".to_string()), Some(IOType::ReadAsciiSTL));
    assert_eq!(args_to_io_type(&"write_ascii_stl".to_string()), None);
    assert_eq!(args_to_io_type(&"".to_string()), None);
}
