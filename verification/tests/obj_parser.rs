use tuber::obj_parser::{Model, ModelParser, ObjParseError, ObjParser, ParseError};
use tuber::number::{FloatErrorKind, IntErrorKind};

fn coordinate(s: &str) -> f32 {
    s.parse::<f32>().unwrap()
}

#[test]
pub fn parse_triangle_mesh() -> Result<(), ParseError> {
    let obj_data = " \n
        o triangle \n
        v 0.5 1.0 0.0 \n
        v 0.0 -1.0 0.0 \n
        v 1.0 -1.0 0.0 \n
        f 1 2 3 \n
        \n";

    let result = ObjParser::parse_model(obj_data)?;
    assert_eq!(result.meshes.len(), 1);
    assert_eq!(result.meshes[0].vertices.len(), 3);

    assert_eq!(coordinate(&result.meshes[0].vertices[0].position[0]), 0.5);
    assert_eq!(coordinate(&result.meshes[0].vertices[0].position[1]), 1.0);
    assert_eq!(coordinate(&result.meshes[0].vertices[0].position[2]), 0.0);

    assert_eq!(coordinate(&result.meshes[0].vertices[1].position[0]), 0.0);
    assert_eq!(coordinate(&result.meshes[0].vertices[1].position[1]), -1.0);
    assert_eq!(coordinate(&result.meshes[0].vertices[1].position[2]), 0.0);

    assert_eq!(coordinate(&result.meshes[0].vertices[2].position[0]), 1.0);
    assert_eq!(coordinate(&result.meshes[0].vertices[2].position[1]), -1.0);
    assert_eq!(coordinate(&result.meshes[0].vertices[2].position[2]), 0.0);

    assert_eq!(result.meshes[0].indices.len(), 3);
    assert_eq!(result.meshes[0].indices[0], 0);
    assert_eq!(result.meshes[0].indices[1], 1);
    assert_eq!(result.meshes[0].indices[2], 2);
    Ok(())
}

fn error_of(data: &str) -> ObjParseError {
    match ObjParser::parse_model(data) {
        Err(ParseError::ObjParseError(e)) => e,
        Ok(_) => panic!("expected an error"),
    }
}

#[test]
fn vertex_before_object_is_refused() {
    assert_eq!(error_of("v 1 2 3"), ObjParseError::NotParsingMesh);
}

#[test]
fn unknown_keyword_is_refused() {
    assert_eq!(error_of("o a\nvt 0 0"), ObjParseError::UnsupportedKeyword);
    assert_eq!(error_of("#comment"), ObjParseError::UnsupportedKeyword);
}

#[test]
fn missing_coordinate_is_refused() {
    assert_eq!(error_of("o a\nv 1 2"), ObjParseError::CoordinateNotFound);
}

#[test]
fn bad_coordinate_is_refused() {
    match error_of("o a\nv 1 x 3") {
        ObjParseError::CoordinateParsingFailed(e) => assert_eq!(e.kind, FloatErrorKind::Invalid),
        e => panic!("unexpected {:?}", e),
    }
}

#[test]
fn face_errors() {
    assert_eq!(error_of("o a\nf 1 2"), ObjParseError::VertexIndexNotFound);
    match error_of("o a\nf 1 b 3") {
        ObjParseError::VertexIndexParsingFailed(e) => assert_eq!(e.kind, IntErrorKind::InvalidDigit),
        e => panic!("unexpected {:?}", e),
    }
    match error_of("o a\nf 1 70000 3") {
        ObjParseError::VertexIndexParsingFailed(e) => assert_eq!(e.kind, IntErrorKind::PosOverflow),
        e => panic!("unexpected {:?}", e),
    }
}

#[test]
fn first_failing_line_decides() {
    assert_eq!(error_of("o a\nv 1 2\nq"), ObjParseError::CoordinateNotFound);
}

#[test]
fn comments_smoothing_and_blank_lines_are_skipped() {
    let m: Model = ObjParser::parse_model("# c\n\ns off\r\no a\r\nv 1e3 +inf .5\r\nf +1 1 1\n").unwrap();
    assert_eq!(m.meshes.len(), 1);
    assert_eq!(m.meshes[0].vertices[0].position[0], "1e3");
    assert_eq!(m.meshes[0].vertices[0].position[1], "+inf");
    assert_eq!(m.meshes[0].indices, vec![0, 0, 0]);
}

#[test]
fn two_objects_give_two_meshes() {
    let m = ObjParser::parse_model("o a\nv 0 0 0\no b\nv 1 1 1\nv 2 2 2").unwrap();
    assert_eq!(m.meshes.len(), 2);
    assert_eq!(m.meshes[0].vertices.len(), 1);
    assert_eq!(m.meshes[1].vertices.len(), 2);
}

#[test]
fn zero_face_index_is_found_only_where_reading_reaches_it() {
    assert!(ObjParser::reaches_zero_index("o a\nv 1 2 3\nf 0 1 2\n"));
    assert!(ObjParser::reaches_zero_index("o a\nf 1 2 0\n"));
    // Reading stops at the first failing line.
    assert!(!ObjParser::reaches_zero_index("o a\nx\nf 0 1 2\n"));
    // A face line before any mesh fails before its indices are read.
    assert!(!ObjParser::reaches_zero_index("f 0 1 2\n"));
    // An earlier index that fails is reported first.
    assert!(!ObjParser::reaches_zero_index("o a\nf q 0 1\n"));
    // Only three indices are read.
    assert!(!ObjParser::reaches_zero_index("o a\nf 1 2 3 0\n"));
    assert!(!ObjParser::reaches_zero_index("o a\nv 1 2 3\nf 1 1 1\n"));
}
