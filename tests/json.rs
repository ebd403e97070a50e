use aira_tiff::json::{JsonString, JsonWriter};

fn text(writer: JsonWriter) -> String {
    String::from_utf8(writer.into_inner()).unwrap()
}

#[test]
fn json_nested_values_and_separators() {
    let mut writer = JsonWriter::new();
    writer.start_object();
    writer.write_key("a");
    writer.write_u64(1);
    writer.write_key("list");
    writer.start_array();
    writer.write_i64(-12);
    writer.write_str("x");
    writer.start_object();
    writer.end_object();
    writer.write_number("2.5");
    writer.end_array();
    writer.end_object();
    assert!(!writer.accepts_value());
    assert_eq!(text(writer), r#"{"a":1,"list":[-12,"x",{},2.5]}"#);
}

#[test]
fn json_top_level_array() {
    let mut writer = JsonWriter::new();
    assert!(writer.accepts_value());
    writer.start_array();
    assert!(writer.in_array());
    writer.write_u64(0);
    writer.write_u64(18446744073709551615);
    writer.write_i64(i64::MIN);
    writer.end_array();
    assert_eq!(text(writer), "[0,18446744073709551615,-9223372036854775808]");
}

#[test]
fn json_string_escaping() {
    let mut writer = JsonWriter::new();
    writer.write_str("q\"b\\n\nr\rt\tb\u{8}f\u{c}c\u{1}d\u{7f}é");
    assert_eq!(
        text(writer),
        "\"q\\\"b\\\\n\\nr\\rt\\tb\\bf\\fc\\u0001d\\u007fé\""
    );
    assert_eq!(JsonString("a\u{1f}\"").escaped(), b"a\\u001f\\\"".to_vec());
}

#[test]
fn json_object_state() {
    let mut writer = JsonWriter::new();
    writer.start_object();
    assert!(writer.can_end_object());
    writer.write_key("k");
    assert!(!writer.can_end_object());
    writer.write_u64(3);
    assert!(writer.can_end_object());
    writer.end_object();
    assert_eq!(writer.as_bytes(), b"{\"k\":3}");
}
