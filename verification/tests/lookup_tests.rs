use esdetect::esc::{Detail, Line};
use esdetect::{lookup, ErrorKind};

fn det(l0: i32, c0: i32, l1: i32, c1: i32) -> Detail {
    Detail {
        feature: String::new(),
        s: 0,
        e: 0,
        ls: Line { l: l0, c: c0 },
        le: Line { l: l1, c: c1 },
    }
}

const MAP: &str = r#"{"version":3,"sources":["a.js"],"names":[],"mappings":"AACA"}"#;

#[test]
fn resolves_position_on_mapped_line() {
    // "AACA" is one segment at generated (0,0) -> source 0, line 1, col 0.
    let r = lookup(MAP, &vec![det(0, 5, 0, 7)]).unwrap();
    assert_eq!(r.len(), 1);
    let e = &r[0];
    assert_eq!(e.ls.as_ref().map(|l| (l.l, l.c)), Some((1, 0)));
    assert_eq!(e.le.as_ref().map(|l| (l.l, l.c)), Some((1, 0)));
    assert_eq!(e.source.as_deref(), Some("a.js"));
}

#[test]
fn uncovered_line_resolves_to_nothing() {
    // No segment covers generated line 1.
    let r = lookup(MAP, &vec![det(1, 0, 1, 4)]).unwrap();
    assert_eq!(r.len(), 1);
    assert!(r[0].ls.is_none());
    assert!(r[0].le.is_none());
    assert!(r[0].source.is_none());
}

#[test]
fn source_name_carries_forward() {
    let r = lookup(MAP, &vec![det(0, 0, 0, 0), det(1, 0, 1, 0)]).unwrap();
    assert_eq!(r.len(), 2);
    assert!(r[1].ls.is_none());
    // The second pair fails to resolve but keeps the last known source.
    assert_eq!(r[1].source.as_deref(), Some("a.js"));
}

#[test]
fn malformed_document_fails_whole_batch() {
    let e = lookup("not json", &vec![det(0, 0, 0, 0)]).unwrap_err();
    assert_eq!(e.kind, ErrorKind::SourceMapError);
    let e2 = lookup(r#"{"mappings":"!!"}"#, &vec![det(0, 0, 0, 0)]).unwrap_err();
    assert_eq!(e2.kind, ErrorKind::SourceMapError);
}

#[test]
fn later_segments_on_line_win() {
    // Two segments on line 0: cols 0 and 4 (delta 4 -> "I").
    // "AACA,IACA": second at col 4 maps to source line 2.
    let map = r#"{"version":3,"sources":["a.js"],"mappings":"AACA,IACA"}"#;
    let r = lookup(map, &vec![det(0, 2, 0, 6)]).unwrap();
    assert_eq!(r[0].ls.as_ref().map(|l| (l.l, l.c)), Some((1, 0)));
    assert_eq!(r[0].le.as_ref().map(|l| (l.l, l.c)), Some((2, 0)));
}

#[test]
fn escaped_source_names_decode() {
    let map = r#"{"version":3,"sources":["A.js"],"mappings":"AACA"}"#;
    let r = lookup(map, &vec![det(0, 0, 0, 0)]).unwrap();
    assert_eq!(r[0].source.as_deref(), Some("A.js"));
}

#[test]
fn bad_segment_size_is_malformed() {
    // Two-value segment: not a legal segment shape.
    let map = r#"{"version":3,"sources":["a.js"],"mappings":"AA"}"#;
    let e = lookup(map, &vec![det(0, 0, 0, 0)]).unwrap_err();
    assert_eq!(e.kind, ErrorKind::SourceMapError);
}

#[test]
fn source_index_out_of_range_is_malformed() {
    // Segment references source 0 but the source list is empty.
    let map = r#"{"version":3,"sources":[],"mappings":"AACA"}"#;
    let e = lookup(map, &vec![det(0, 0, 0, 0)]).unwrap_err();
    assert_eq!(e.kind, ErrorKind::SourceMapError);
}
