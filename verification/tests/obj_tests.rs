use softraster::obj::{
    check_not_empty, line_kind, parse_face_corner, parse_index, parse_line, read_line,
    resolve_corner, split_fields, Action, FaceCorner, Field, LineKind, ObjError, Record,
    ResolvedCorner,
};

fn field(start: usize, end: usize) -> Field {
    Field { start, end }
}

fn corner(position: Option<usize>, uv: Option<usize>, normal: Option<usize>) -> FaceCorner {
    FaceCorner { position, uv, normal }
}

fn texts(line: &str) -> Vec<&str> {
    split_fields(line.as_bytes()).iter().map(|f| &line[f.start..f.end]).collect()
}

#[test]
fn index_is_a_decimal_number() {
    assert_eq!(parse_index(b"0"), Some(0));
    assert_eq!(parse_index(b"7"), Some(7));
    assert_eq!(parse_index(b"1234"), Some(1234));
    assert_eq!(parse_index(b"007"), Some(7));
    assert_eq!(parse_index(b"+42"), Some(42));
}

#[test]
fn index_refuses_what_is_no_number() {
    assert_eq!(parse_index(b""), None);
    assert_eq!(parse_index(b"+"), None);
    assert_eq!(parse_index(b"-1"), None);
    assert_eq!(parse_index(b"++1"), None);
    assert_eq!(parse_index(b"1+"), None);
    assert_eq!(parse_index(b"12a"), None);
    assert_eq!(parse_index(b" 1"), None);
    assert_eq!(parse_index(b"1.5"), None);
    assert_eq!(parse_index(b"/"), None);
    assert_eq!(parse_index(b":"), None);
}

#[test]
fn index_agrees_with_the_standard_reader() {
    let samples = [
        "0", "1", "9", "10", "99", "+5", "-5", "", "+", "00", "4294967295", "4294967296",
        "18446744073709551615", "18446744073709551616", "99999999999999999999999", "1x", "x1",
        "+0", "1 ", "١",
    ];
    for s in samples {
        assert_eq!(parse_index(s.as_bytes()), s.parse::<usize>().ok(), "{:?}", s);
    }
    let max = usize::MAX.to_string();
    assert_eq!(parse_index(max.as_bytes()), Some(usize::MAX));
    let over = format!("{}0", max);
    assert_eq!(parse_index(over.as_bytes()), None);
}

#[test]
fn corner_with_position_only() {
    assert_eq!(parse_face_corner(b"1"), Ok(corner(Some(0), None, None)));
    assert_eq!(parse_face_corner(b"12"), Ok(corner(Some(11), None, None)));
}

#[test]
fn corner_with_all_three() {
    assert_eq!(parse_face_corner(b"3/4/5"), Ok(corner(Some(2), Some(3), Some(4))));
    assert_eq!(parse_face_corner(b"3/4/5/6"), Ok(corner(Some(2), Some(3), Some(4))));
}

#[test]
fn corner_with_parts_missing() {
    assert_eq!(parse_face_corner(b"3/4"), Ok(corner(Some(2), Some(3), None)));
    assert_eq!(parse_face_corner(b"3//5"), Ok(corner(Some(2), None, Some(4))));
    assert_eq!(parse_face_corner(b"3/"), Ok(corner(Some(2), None, None)));
    assert_eq!(parse_face_corner(b"3//"), Ok(corner(Some(2), None, None)));
    assert_eq!(parse_face_corner(b"3/x/y"), Ok(corner(Some(2), None, None)));
    assert_eq!(parse_face_corner(b"3/-1/2"), Ok(corner(Some(2), None, Some(1))));
}

#[test]
fn corner_index_zero_names_nothing() {
    assert_eq!(parse_face_corner(b"0"), Ok(corner(None, None, None)));
    assert_eq!(parse_face_corner(b"1/0/0"), Ok(corner(Some(0), None, None)));
}

#[test]
fn corner_needs_a_position() {
    assert_eq!(parse_face_corner(b""), Err(ObjError::InvalidFacePositionIndex));
    assert_eq!(parse_face_corner(b"/1/2"), Err(ObjError::InvalidFacePositionIndex));
    assert_eq!(parse_face_corner(b"a/1/2"), Err(ObjError::InvalidFacePositionIndex));
    assert_eq!(parse_face_corner(b"-3"), Err(ObjError::InvalidFacePositionIndex));
    assert_eq!(parse_face_corner(b"1.0"), Err(ObjError::InvalidFacePositionIndex));
}

#[test]
fn keywords() {
    assert_eq!(line_kind(b"v"), LineKind::Position);
    assert_eq!(line_kind(b"vn"), LineKind::Normal);
    assert_eq!(line_kind(b"vt"), LineKind::TexCoord);
    assert_eq!(line_kind(b"f"), LineKind::Face);
    assert_eq!(line_kind(b""), LineKind::Other);
    assert_eq!(line_kind(b"vp"), LineKind::Other);
    assert_eq!(line_kind(b"vnn"), LineKind::Other);
    assert_eq!(line_kind(b"g"), LineKind::Other);
    assert_eq!(line_kind(b"usemtl"), LineKind::Other);
    assert_eq!(line_kind(b"V"), LineKind::Other);
}

#[test]
fn corners_are_checked_against_the_lists() {
    let c = corner(Some(2), Some(1), Some(0));
    assert_eq!(
        resolve_corner(&c, 3, 2, 1),
        Some(ResolvedCorner { position: 2, uv: Some(1), normal: Some(0) })
    );
    assert_eq!(resolve_corner(&c, 2, 2, 1), None);
    assert_eq!(
        resolve_corner(&c, 3, 1, 0),
        Some(ResolvedCorner { position: 2, uv: None, normal: None })
    );
    assert_eq!(resolve_corner(&corner(None, Some(0), Some(0)), 5, 5, 5), None);
    assert_eq!(
        resolve_corner(&corner(Some(0), None, None), 1, 9, 9),
        Some(ResolvedCorner { position: 0, uv: None, normal: None })
    );
}

#[test]
fn a_text_without_vertices_is_refused() {
    assert_eq!(check_not_empty(0), Err(ObjError::NoVertices));
    assert_eq!(check_not_empty(1), Ok(()));
    assert_eq!(check_not_empty(usize::MAX), Ok(()));
}

#[test]
fn fields_are_the_runs_between_white_space() {
    assert_eq!(split_fields(b"v 1.0 2.0 3.0"), vec![field(0, 1), field(2, 5), field(6, 9), field(10, 13)]);
    assert_eq!(split_fields(b"  f\t1/2/3   4 \r"), vec![field(2, 3), field(4, 9), field(12, 13)]);
    assert_eq!(split_fields(b""), Vec::<Field>::new());
    assert_eq!(split_fields(b" \t \x0B\x0C\r\n"), Vec::<Field>::new());
    assert_eq!(split_fields(b"abc"), vec![field(0, 3)]);
}

#[test]
fn fields_agree_with_the_standard_splitter() {
    let samples = [
        "v 1 2 3",
        "  vn   0.5\t-1e3  7 ",
        "",
        "   ",
        "f 1/2/3 4//5 6",
        "a\u{00A0}b\u{0085}c",
        "\u{1680}x\u{2000}y\u{200A}z\u{2028}\u{2029}w\u{202F}u\u{205F}t\u{3000}",
        "\u{200B}not\u{200B}space",
        "é v\u{00E9}\u{3000}ü",
        "\u{2001}\u{2002}",
        "x\u{180E}y",
        "tab\there\x0Bthere\x0Ceverywhere",
    ];
    for s in samples {
        let expected: Vec<&str> = s.split_whitespace().collect();
        assert_eq!(texts(s), expected, "{:?}", s);
    }
}

#[test]
fn lines_that_say_nothing() {
    assert_eq!(parse_line(b""), Ok(Record::Skip));
    assert_eq!(parse_line(b"    "), Ok(Record::Skip));
    assert_eq!(parse_line(b"# a comment"), Ok(Record::Skip));
    assert_eq!(parse_line(b"   #v 1 2 3"), Ok(Record::Skip));
    assert_eq!(parse_line(b"#f x y z"), Ok(Record::Skip));
    assert_eq!(parse_line(b"o sphere"), Ok(Record::Skip));
    assert_eq!(parse_line(b"s off"), Ok(Record::Skip));
    assert_eq!(parse_line(b"v 1 2"), Ok(Record::Skip));
    assert_eq!(parse_line(b"vn 1 2"), Ok(Record::Skip));
    assert_eq!(parse_line(b"vt 1"), Ok(Record::Skip));
    assert_eq!(parse_line(b"f 1 2"), Ok(Record::Skip));
    assert_eq!(parse_line(b"f x y"), Ok(Record::Skip));
}

#[test]
fn lines_with_coordinates() {
    assert_eq!(
        parse_line(b"v 1.0 -2.5 3"),
        Ok(Record::Position { x: field(2, 5), y: field(6, 10), z: field(11, 12) })
    );
    assert_eq!(
        parse_line(b"  vn 0 1 0 extra"),
        Ok(Record::Normal { x: field(5, 6), y: field(7, 8), z: field(9, 10) })
    );
    assert_eq!(parse_line(b"vt 0.5 0.25"), Ok(Record::TexCoord { u: field(3, 6), v: field(7, 11) }));
    assert_eq!(
        parse_line(b"v a b c"),
        Ok(Record::Position { x: field(2, 3), y: field(4, 5), z: field(6, 7) })
    );
}

#[test]
fn lines_with_faces() {
    assert_eq!(
        parse_line(b"f 1 2 3"),
        Ok(Record::Face {
            a: corner(Some(0), None, None),
            b: corner(Some(1), None, None),
            c: corner(Some(2), None, None),
        })
    );
    assert_eq!(
        parse_line(b"f 1/1/1 2//2 3/3 4/4/4"),
        Ok(Record::Face {
            a: corner(Some(0), Some(0), Some(0)),
            b: corner(Some(1), None, Some(1)),
            c: corner(Some(2), Some(2), None),
        })
    );
    assert_eq!(parse_line(b"f 1 x 3"), Err(ObjError::InvalidFacePositionIndex));
    assert_eq!(parse_line(b"f 1 2 /3"), Err(ObjError::InvalidFacePositionIndex));
    assert_eq!(parse_line(b"f -1 2 3"), Err(ObjError::InvalidFacePositionIndex));
    assert_eq!(
        parse_line(b"f 1 2 3 x"),
        Ok(Record::Face {
            a: corner(Some(0), None, None),
            b: corner(Some(1), None, None),
            c: corner(Some(2), None, None),
        })
    );
}

#[test]
fn the_reader_acts_on_each_kind_of_line() {
    assert_eq!(read_line(b"# nothing", 1, 1, 1), Ok(Action::Nothing));
    assert_eq!(read_line(b"g group", 1, 1, 1), Ok(Action::Nothing));
    assert_eq!(
        read_line(b"v 1 2 3", 0, 0, 0),
        Ok(Action::AddPosition { x: field(2, 3), y: field(4, 5), z: field(6, 7) })
    );
    assert_eq!(
        read_line(b"vn 1 2 3", 0, 0, 0),
        Ok(Action::AddNormal { x: field(3, 4), y: field(5, 6), z: field(7, 8) })
    );
    assert_eq!(
        read_line(b"vt 1 2", 0, 0, 0),
        Ok(Action::AddTexCoord { u: field(3, 4), v: field(5, 6) })
    );
    assert_eq!(read_line(b"f 1 2 z", 9, 9, 9), Err(ObjError::InvalidFacePositionIndex));
}

#[test]
fn the_reader_checks_corners_against_the_lists() {
    let all = Ok(Action::AddCorners {
        a: Some(ResolvedCorner { position: 0, uv: Some(0), normal: Some(0) }),
        b: Some(ResolvedCorner { position: 1, uv: Some(1), normal: Some(1) }),
        c: Some(ResolvedCorner { position: 2, uv: Some(2), normal: Some(2) }),
    });
    assert_eq!(read_line(b"f 1/1/1 2/2/2 3/3/3", 3, 3, 3), all);
    assert_eq!(
        read_line(b"f 1/1/1 2/2/2 3/3/3", 2, 1, 0),
        Ok(Action::AddCorners {
            a: Some(ResolvedCorner { position: 0, uv: Some(0), normal: None }),
            b: Some(ResolvedCorner { position: 1, uv: None, normal: None }),
            c: None,
        })
    );
    assert_eq!(
        read_line(b"f 0 1 2", 1, 0, 0),
        Ok(Action::AddCorners {
            a: None,
            b: Some(ResolvedCorner { position: 0, uv: None, normal: None }),
            c: None,
        })
    );
}
