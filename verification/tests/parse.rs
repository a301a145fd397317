//! Tests for the OBJ parser.

use bunny::obj::{parse, parse_face, parse_index, Normal, ObjError, Vertex};

fn triple(a: &str, b: &str, c: &str) -> (Vec<u8>, Vec<u8>, Vec<u8>) {
    (a.as_bytes().to_vec(), b.as_bytes().to_vec(), c.as_bytes().to_vec())
}

#[test]
fn empty_input_is_an_empty_mesh() {
    let o = parse("").unwrap();
    assert_eq!(o.vertices.len(), 0);
    assert_eq!(o.normals.len(), 0);
    assert_eq!(o.indices.len(), 0);
}

#[test]
fn counts_follow_the_record_lines() {
    let text = "v 1.0 2.0 3.0\nv 4.0 5.0 6.0\nvn 0.0 1.0 0.0\nvn 1.0 0.0 0.0\nf 1//1 2//2 1//1\n";
    let o = parse(text).unwrap();
    assert_eq!(o.vertices.len(), 2);
    assert_eq!(o.normals.len(), 2);
    assert_eq!(o.indices.len(), 3);
    assert!(o.indices.iter().all(|&i| (i as usize) < 2));
}

#[test]
fn coordinates_keep_their_source_fields() {
    let o = parse("v 1.0 -2.5 3e2\nvn 0.0 1.0 0.0\n").unwrap();
    assert_eq!(o.vertices[0], Vertex { position: triple("1.0", "-2.5", "3e2") });
    assert_eq!(o.normals[0], Normal { normal: triple("0.0", "1.0", "0.0") });
}

#[test]
fn face_line_becomes_zero_based_triple() {
    // `f 2//2 1//1 3//3` yields (1, 0, 2).
    let r = parse_face(b"f 2//2 1//1 3//3").unwrap();
    assert_eq!(r, vec![1u16, 0u16, 2u16]);
}

#[test]
fn whole_file_face_indices_are_zero_based() {
    let text = "v 0 0 0\nv 1 0 0\nv 0 1 0\nvn 0 0 1\nvn 0 0 1\nvn 0 0 1\nf 2//2 1//1 3//3\n";
    let o = parse(text).unwrap();
    assert_eq!(o.indices, vec![1u16, 0u16, 2u16]);
}

#[test]
fn mismatched_indices_are_not_supported() {
    assert!(matches!(parse_index(b"1//2"), Err(ObjError::NotSupported)));
    let text = "v 0 0 0\nv 1 0 0\nvn 0 0 1\nvn 0 0 1\nf 1//2 2//2 2//2\n";
    assert!(matches!(parse(text), Err(ObjError::NotSupported)));
}

#[test]
fn short_vertex_line_is_a_syntax_error() {
    // `v 1.0 2.0` has only two fields.
    assert!(matches!(parse("v 1.0 2.0"), Err(ObjError::SyntaxError)));
}

#[test]
fn long_vertex_line_is_a_syntax_error() {
    assert!(matches!(parse("v 1.0 2.0 3.0 4.0"), Err(ObjError::SyntaxError)));
}

#[test]
fn bad_float_field_is_a_syntax_error() {
    assert!(matches!(parse("v 1,0 2.0 3.0"), Err(ObjError::SyntaxError)));
    assert!(matches!(parse("v 1e 2.0 3.0"), Err(ObjError::SyntaxError)));
    assert!(matches!(parse("v . 2.0 3.0"), Err(ObjError::SyntaxError)));
    assert!(matches!(parse("vn 1.0 2.0 x"), Err(ObjError::SyntaxError)));
}

#[test]
fn float_grammar_accepts_the_documented_forms() {
    let o = parse("v inf -inf nan\nv 1. .5 1e3\nv +1.25e-3 2E+4 -0.0\nv INF NaN Infinity\n")
        .unwrap();
    assert_eq!(o.vertices.len(), 4);
}

#[test]
fn face_with_wrong_token_count_is_a_syntax_error() {
    assert!(matches!(parse_face(b"f 1//1 2//2"), Err(ObjError::SyntaxError)));
    assert!(matches!(parse_face(b"f 1//1 2//2 3//3 4//4"), Err(ObjError::SyntaxError)));
}

#[test]
fn malformed_face_tokens_are_syntax_errors() {
    assert!(matches!(parse_index(b"1//1//1"), Err(ObjError::SyntaxError)));
    assert!(matches!(parse_index(b"1/1"), Err(ObjError::SyntaxError)));
    assert!(matches!(parse_index(b"1//"), Err(ObjError::SyntaxError)));
    assert!(matches!(parse_index(b"x//x"), Err(ObjError::SyntaxError)));
    assert!(matches!(parse_index(b"0//0"), Err(ObjError::SyntaxError)));
    assert!(matches!(parse_index(b"70000//70000"), Err(ObjError::SyntaxError)));
}

#[test]
fn plus_signed_indices_parse_as_in_std() {
    assert_eq!(parse_index(b"+2//+2").unwrap(), 1u16);
}

#[test]
fn out_of_range_index_is_a_syntax_error() {
    let text = "v 0 0 0\nvn 0 0 1\nf 2//2 2//2 2//2\n";
    assert!(matches!(parse(text), Err(ObjError::SyntaxError)));
    // An index may refer to a vertex declared on a later line.
    let late = "f 1//1 1//1 1//1\nv 0 0 0\nvn 0 0 1\n";
    assert!(parse(late).is_ok());
}

#[test]
fn unknown_lines_are_ignored() {
    let text = "# comment\nvt 0.5 0.5\ng group\nv\t1 2 3\nusemtl m\n";
    let o = parse(text).unwrap();
    assert_eq!(o.vertices.len(), 0);
    assert_eq!(o.normals.len(), 0);
    assert_eq!(o.indices.len(), 0);
}

#[test]
fn carriage_returns_do_not_disturb_records() {
    let text = "v 1 2 3\r\nvn 0 0 1\r\nf 1//1 1//1 1//1\r\n";
    let o = parse(text).unwrap();
    assert_eq!(o.vertices.len(), 1);
    assert_eq!(o.normals.len(), 1);
    assert_eq!(o.indices, vec![0u16, 0u16, 0u16]);
}

#[test]
fn from_builds_the_record_types() {
    let v = Vertex::from(triple("1", "2", "3"));
    assert_eq!(v.position.0, b"1".to_vec());
    let n = Normal::from(triple("4", "5", "6"));
    assert_eq!(n.normal.2, b"6".to_vec());
}

#[test]
fn io_errors_carry_their_cause() {
    let e = ObjError::from(std::io::Error::new(std::io::ErrorKind::NotFound, "missing"));
    assert!(matches!(e, ObjError::Io(_)));
}
