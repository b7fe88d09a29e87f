use caustic::openscad::source::{
    push_decimal, FileCodeResource, FileSource, StringCodeResource, StringSource,
};
use caustic::text::{chars_of, line_and_column_at_offset, line_number_at_offset};
use caustic::wasm::{MessageLevel, WasmMessage, WasmMessageLevel, WasmPosition};

#[test]
fn test_chars_of() {
    assert_eq!(chars_of(""), Vec::<char>::new());
    assert_eq!(chars_of("a\u{e9}\u{1F600}"), vec!['a', '\u{e9}', '\u{1F600}']);
}

#[test]
fn test_line_and_column() {
    let code = "ab\ncd\n\ne";
    assert_eq!(line_and_column_at_offset(code, 0), Some((1, 1)));
    assert_eq!(line_and_column_at_offset(code, 2), Some((1, 3)));
    assert_eq!(line_and_column_at_offset(code, 3), Some((2, 1)));
    assert_eq!(line_and_column_at_offset(code, 5), Some((2, 3)));
    assert_eq!(line_and_column_at_offset(code, 6), Some((3, 1)));
    assert_eq!(line_and_column_at_offset(code, 7), Some((4, 1)));
    assert_eq!(line_and_column_at_offset(code, 8), Some((4, 2)));
    assert_eq!(line_and_column_at_offset(code, 9), None);
    assert_eq!(line_and_column_at_offset(code, usize::MAX), None);
    assert_eq!(line_and_column_at_offset("", 0), Some((1, 1)));
    assert_eq!(line_and_column_at_offset("", 1), None);
}

#[test]
fn test_offsets_count_characters() {
    assert_eq!(line_and_column_at_offset("\u{e9}\u{e9}\nx", 3), Some((2, 1)));
    assert_eq!(line_number_at_offset("\u{e9}\u{e9}\nx", 3), 2);
}

#[test]
fn test_line_number() {
    let code = "ab\ncd\n\ne";
    assert_eq!(line_number_at_offset(code, 0), 1);
    assert_eq!(line_number_at_offset(code, 2), 1);
    assert_eq!(line_number_at_offset(code, 3), 2);
    assert_eq!(line_number_at_offset(code, 7), 4);
    assert_eq!(line_number_at_offset(code, 8), 4);
    assert_eq!(line_number_at_offset(code, 1000), 4);
    assert_eq!(line_number_at_offset("", 5), 1);
}

#[test]
fn test_push_decimal() {
    for n in [0usize, 7, 10, 99, 100, 1234567890, usize::MAX] {
        let mut text = String::from("n=");
        push_decimal(&mut text, n);
        assert_eq!(text, format!("n={}", n));
    }
}

#[test]
fn test_string_source() {
    let source = StringSource::new("cube(1);\ncube(2);");
    assert_eq!(source.get_code(), "cube(1);\ncube(2);");
    assert_eq!(source.get_filename(), "string");
    assert_eq!(source.to_string(0, 4), "string:1");
    assert_eq!(source.to_string(9, 13), "string:2");
    assert_eq!(source.to_string(500, 501), "string:2");
    assert!(source.equals(&StringSource::new("cube(1);\ncube(2);")));
    assert!(!source.equals(&StringSource::new("cube(1);")));
}

#[test]
fn test_file_source() {
    let lines = "\n".repeat(11);
    let source = FileSource::new("scenes/a.scad", &lines);
    assert_eq!(source.get_filename(), "scenes/a.scad");
    assert_eq!(source.get_code(), lines);
    assert_eq!(source.to_string(0, 0), "scenes/a.scad:1");
    assert_eq!(source.to_string(11, 11), "scenes/a.scad:12");
    assert!(source.equals(&FileSource::new("scenes/a.scad", &lines)));
    assert!(!source.equals(&FileSource::new("scenes/b.scad", &lines)));
    assert!(!source.equals(&FileSource::new("scenes/a.scad", "")));
}

#[test]
fn test_code_resources() {
    let a = StringCodeResource::new("x");
    assert_eq!(a.get_code(), "x");
    assert!(a.equals(&StringCodeResource::new("x")));
    assert!(!a.equals(&StringCodeResource::new("y")));
    let f = FileCodeResource::new("a.scad", "x");
    assert_eq!(f.get_code(), "x");
    assert_eq!(f.get_filename(), "a.scad");
    assert!(f.equals(&FileCodeResource::new("a.scad", "x")));
    assert!(!f.equals(&FileCodeResource::new("b.scad", "x")));
    assert!(!f.equals(&FileCodeResource::new("a.scad", "y")));
}

#[test]
fn test_wasm_position() {
    let p = WasmPosition::new("ab\ncd", "main.scad", 4, 5);
    assert_eq!(
        p,
        WasmPosition {
            start: 4,
            end: 5,
            start_line: Some(2),
            start_column: Some(2),
            filename: "main.scad".to_string(),
        }
    );
    let q = WasmPosition::new("ab", "string", 3, 9);
    assert_eq!((q.start, q.end, q.start_line, q.start_column), (3, 9, None, None));
}

#[test]
fn test_wasm_message() {
    assert_eq!(WasmMessageLevel::from(&MessageLevel::Echo), WasmMessageLevel::Echo);
    assert_eq!(WasmMessageLevel::from(&MessageLevel::Warning), WasmMessageLevel::Warning);
    assert_eq!(WasmMessageLevel::from(&MessageLevel::Error), WasmMessageLevel::Error);
    let m = WasmMessage::new(&MessageLevel::Warning, "careful", WasmPosition::new("x", "f", 0, 1));
    assert_eq!(m.level, WasmMessageLevel::Warning);
    assert_eq!(m.message, "careful");
    assert_eq!(m.position.start_line, Some(1));
    assert_eq!(m.position.filename, "f");
}
