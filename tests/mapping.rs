use csv2json::args::Args;
use csv2json::document::{Document, FieldValue, JsonObject};
use csv2json::mapping::{convert_rows, field_value, update_json_with_record_row, ConvertError};

fn strings(items: &[&str]) -> Vec<String> {
    items.iter().map(|s| String::from(*s)).collect()
}

fn options(is_nulled: bool, is_keyed: bool) -> Args {
    Args {
        input: String::from("input"),
        output: Some(String::from("output")),
        is_nulled,
        is_keyed,
    }
}

#[test]
fn test_is_not_keyed() {
    let mut json = Document::new_array();
    let mut args = options(false, false);
    let record = strings(&["a", "", "c"]);
    let headers = strings(&["header_a", "header_b", "header_c"]);
    json = update_json_with_record_row(json, record, &headers, &args).unwrap();
    assert_eq!(
        json.to_json_string(),
        r#"[{"header_a":"a","header_b":"","header_c":"c"}]"#
    );

    args.is_nulled = true;
    let mut json = Document::new_array();
    let record = strings(&["a", "", "c"]);
    json = update_json_with_record_row(json, record, &headers, &args).unwrap();
    assert_eq!(
        json.to_json_string(),
        r#"[{"header_a":"a","header_b":null,"header_c":"c"}]"#
    );
}

#[test]
fn test_is_nulled() {
    let mut json = Document::new_object();
    let mut args = options(false, true);
    let record = strings(&["a", "", "c"]);
    let headers = strings(&["header_a", "header_b", "header_c"]);
    json = update_json_with_record_row(json, record, &headers, &args).unwrap();
    assert_eq!(
        json.to_json_string(),
        r#"{"a":{"header_b":"","header_c":"c"}}"#
    );

    args.is_nulled = true;

    let record = strings(&["a", "", "c"]);
    json = update_json_with_record_row(json, record, &headers, &args).unwrap();
    assert_eq!(
        json.to_json_string(),
        r#"{"a":{"header_b":null,"header_c":"c"}}"#
    );
}

#[test]
fn updating_json() {
    let mut json = Document::new_object();
    let args = options(false, true);
    let record = strings(&["a", "b", "c"]);
    let headers = strings(&["header_a", "header_b", "header_c"]);
    json = update_json_with_record_row(json, record, &headers, &args).unwrap();
    assert_eq!(
        json.to_json_string(),
        r#"{"a":{"header_b":"b","header_c":"c"}}"#
    );

    // If there is less column on the record
    let mut json = Document::new_object();
    let record = strings(&["a", "b", "c"]);
    let headers = strings(&["header_a", "header_b"]);
    json = update_json_with_record_row(json, record, &headers, &args).unwrap();
    assert_eq!(json.to_json_string(), r#"{"a":{"header_b":"b"}}"#);

    // If there is one column on the record.
    let mut json = Document::new_object();
    let record = strings(&["a", "b", "c"]);
    let headers = strings(&["header_a"]);
    json = update_json_with_record_row(json, record, &headers, &args).unwrap();
    assert_eq!(json.to_json_string(), r#"{"a":{}}"#);

    // If there are more record columns than headers
    let mut json = Document::new_object();
    let record = strings(&["a", "b"]);
    let headers = strings(&["header_a", "header_b", "header_c"]);
    json = update_json_with_record_row(json, record, &headers, &args).unwrap();
    assert_eq!(json.to_json_string(), r#"{"a":{"header_b":"b"}}"#);
}

#[test]
fn array_of_full_objects() {
    let headers = strings(&["id", "name", "city"]);
    let rows = vec![strings(&["1", "Alice", "NY"]), strings(&["2", "Bob", "LA"])];
    let doc = convert_rows(&headers, &rows, &options(false, false)).unwrap();
    assert_eq!(
        doc.to_json_string(),
        r#"[{"id":"1","name":"Alice","city":"NY"},{"id":"2","name":"Bob","city":"LA"}]"#
    );
}

#[test]
fn keyed_objects() {
    let headers = strings(&["id", "name", "city"]);
    let rows = vec![strings(&["1", "Alice", "NY"]), strings(&["2", "Bob", "LA"])];
    let doc = convert_rows(&headers, &rows, &options(false, true)).unwrap();
    assert_eq!(
        doc.to_json_string(),
        r#"{"1":{"name":"Alice","city":"NY"},"2":{"name":"Bob","city":"LA"}}"#
    );
}

#[test]
fn keyed_blanks_become_null() {
    let headers = strings(&["id", "name", "city"]);
    let rows = vec![strings(&["3", "", ""])];
    let doc = convert_rows(&headers, &rows, &options(true, true)).unwrap();
    assert_eq!(doc.to_json_string(), r#"{"3":{"name":null,"city":null}}"#);
}

#[test]
fn short_row_omits_missing_headers() {
    let headers = strings(&["a", "b", "c"]);
    let rows = vec![strings(&["x", "y"])];
    let doc = convert_rows(&headers, &rows, &options(false, false)).unwrap();
    assert_eq!(doc.to_json_string(), r#"[{"a":"x","b":"y"}]"#);
}

#[test]
fn long_row_keyed_keeps_only_key() {
    let headers = strings(&["a"]);
    let rows = vec![strings(&["x", "y", "z"])];
    let doc = convert_rows(&headers, &rows, &options(false, true)).unwrap();
    assert_eq!(doc.to_json_string(), r#"{"x":{}}"#);
}

#[test]
fn empty_row_keyed_fails() {
    let headers = strings(&["a", "b"]);
    let rows = vec![strings(&["k", "v"]), strings(&[])];
    let result = convert_rows(&headers, &rows, &options(false, true));
    assert_eq!(result.err(), Some(ConvertError::InvalidRow));

    let json = Document::new_object();
    let result = update_json_with_record_row(json, strings(&[]), &headers, &options(false, true));
    assert_eq!(result.err(), Some(ConvertError::InvalidRow));
}

#[test]
fn empty_row_array_appends_empty_object() {
    let headers = strings(&["a", "b"]);
    let rows = vec![strings(&[])];
    let doc = convert_rows(&headers, &rows, &options(true, false)).unwrap();
    assert_eq!(doc.to_json_string(), "[{}]");
}

#[test]
fn no_rows_give_empty_documents() {
    let headers = strings(&["a", "b"]);
    let rows: Vec<Vec<String>> = Vec::new();
    let doc = convert_rows(&headers, &rows, &options(false, false)).unwrap();
    assert_eq!(doc.to_json_string(), "[]");
    let doc = convert_rows(&headers, &rows, &options(false, true)).unwrap();
    assert_eq!(doc.to_json_string(), "{}");
}

#[test]
fn duplicate_keys_last_row_wins() {
    let headers = strings(&["id", "name", "city"]);
    let rows = vec![
        strings(&["1", "Alice", "NY"]),
        strings(&["2", "Bob", "LA"]),
        strings(&["1", "Carol"]),
    ];
    let doc = convert_rows(&headers, &rows, &options(false, true)).unwrap();
    assert_eq!(
        doc.to_json_string(),
        r#"{"1":{"name":"Carol"},"2":{"name":"Bob","city":"LA"}}"#
    );
}

#[test]
fn array_length_matches_rows_and_keyed_counts_distinct_keys() {
    let headers = strings(&["k", "v"]);
    let rows = vec![
        strings(&["a", "1"]),
        strings(&["b", "2"]),
        strings(&["a", "3"]),
        strings(&["c", "4"]),
    ];
    match convert_rows(&headers, &rows, &options(false, false)).unwrap() {
        Document::Array(objects) => assert_eq!(objects.len(), 4),
        Document::Keyed(_) => panic!("expected an array"),
    }
    match convert_rows(&headers, &rows, &options(false, true)).unwrap() {
        Document::Keyed(entries) => assert_eq!(entries.len(), 3),
        Document::Array(_) => panic!("expected an object"),
    }
}

#[test]
fn duplicate_headers_last_write_wins_in_place() {
    let headers = strings(&["a", "b", "a"]);
    let rows = vec![strings(&["x", "y", "z"])];
    let doc = convert_rows(&headers, &rows, &options(false, false)).unwrap();
    assert_eq!(doc.to_json_string(), r#"[{"a":"z","b":"y"}]"#);
}

#[test]
fn mapping_twice_gives_same_document() {
    let headers = strings(&["id", "name"]);
    let first = update_json_with_record_row(
        Document::new_array(),
        strings(&["1", ""]),
        &headers,
        &options(true, false),
    )
    .unwrap();
    let second = update_json_with_record_row(
        Document::new_array(),
        strings(&["1", ""]),
        &headers,
        &options(true, false),
    )
    .unwrap();
    assert_eq!(first.to_json_string(), second.to_json_string());
}

#[test]
fn values_are_never_trimmed_or_coerced() {
    let headers = strings(&["n", "b", "s"]);
    let rows = vec![strings(&["42", "true", "  padded "])];
    let doc = convert_rows(&headers, &rows, &options(true, false)).unwrap();
    assert_eq!(doc.to_json_string(), r#"[{"n":"42","b":"true","s":"  padded "}]"#);
}

#[test]
fn strings_are_escaped() {
    let headers = strings(&["q\"uote"]);
    let rows = vec![strings(&["line\nbreak\\"])];
    let doc = convert_rows(&headers, &rows, &options(false, false)).unwrap();
    assert_eq!(doc.to_json_string(), r#"[{"q\"uote":"line\nbreak\\"}]"#);
}

#[test]
fn field_value_null_only_for_blank_when_nulled() {
    assert!(matches!(field_value(&String::new(), true), FieldValue::Null));
    assert!(matches!(field_value(&String::new(), false), FieldValue::Text(ref s) if s.is_empty()));
    assert!(matches!(field_value(&String::from("x"), true), FieldValue::Text(ref s) if s == "x"));
}

#[test]
fn object_set_replaces_in_place() {
    let mut o = JsonObject::new();
    o.set(String::from("a"), FieldValue::Text(String::from("1")));
    o.set(String::from("b"), FieldValue::Null);
    o.set(String::from("a"), FieldValue::Text(String::from("2")));
    assert_eq!(o.to_json_string(), r#"{"a":"2","b":null}"#);
}
