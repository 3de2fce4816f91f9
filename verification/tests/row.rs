use csv_to_json_converter::{update_json_with_record_row, Args};
use json::JsonValue;

fn args(is_nulled: bool, is_keyed: bool) -> Args {
    Args {
        input: String::from("input"),
        output: Some(String::from("output")),
        is_nulled,
        is_keyed,
    }
}

fn strings(items: &[&str]) -> Vec<String> {
    items.iter().map(|item| String::from(*item)).collect()
}

fn object(members: &[(&str, JsonValue)]) -> JsonValue {
    let mut object = JsonValue::new_object();
    for (key, value) in members {
        object[*key] = value.clone();
    }
    object
}

fn array(elements: &[JsonValue]) -> JsonValue {
    let mut array = JsonValue::new_array();
    for element in elements {
        array.push(element.clone()).unwrap();
    }
    array
}

#[test]
fn test_is_not_keyed() {
    let mut json: JsonValue = JsonValue::new_array();
    let mut args: Args = Args {
        input: String::from("input"),
        output: Some(String::from("output")),
        is_nulled: false,
        is_keyed: false,
    };
    let record: Vec<String> = vec![String::from("a"), String::from(""), String::from("c")];
    let headers: Vec<String> = vec![
        String::from("header_a"),
        String::from("header_b"),
        String::from("header_c"),
    ];
    json = update_json_with_record_row(json, record, &headers, &args);
    assert_eq!(
        json.to_string(),
        array(&[object(&[
            ("header_a", "a".into()),
            ("header_b", "".into()),
            ("header_c", "c".into()),
        ])])
        .to_string()
    );

    args.is_nulled = true;
    let mut json: JsonValue = JsonValue::new_array();
    let record: Vec<String> = vec![String::from("a"), String::from(""), String::from("c")];
    json = update_json_with_record_row(json, record, &headers, &args);
    assert_eq!(
        json.to_string(),
        array(&[object(&[
            ("header_a", "a".into()),
            ("header_b", JsonValue::Null),
            ("header_c", "c".into()),
        ])])
        .to_string()
    );
}

#[test]
fn test_is_nulled() {
    let mut json: JsonValue = JsonValue::new_object();
    let mut args: Args = Args {
        input: String::from("input"),
        output: Some(String::from("output")),
        is_nulled: false,
        is_keyed: true,
    };
    let record: Vec<String> = vec![String::from("a"), String::from(""), String::from("c")];
    let headers: Vec<String> = vec![
        String::from("header_a"),
        String::from("header_b"),
        String::from("header_c"),
    ];
    json = update_json_with_record_row(json, record, &headers, &args);
    assert_eq!(
        json.to_string(),
        object(&[(
            "a",
            object(&[("header_b", "".into()), ("header_c", "c".into())])
        )])
        .to_string()
    );

    args.is_nulled = true;

    let record: Vec<String> = vec![String::from("a"), String::from(""), String::from("c")];
    json = update_json_with_record_row(json, record, &headers, &args);
    assert_eq!(
        json.to_string(),
        object(&[(
            "a",
            object(&[("header_b", JsonValue::Null), ("header_c", "c".into())])
        )])
        .to_string()
    );
}

#[test]
fn updating_json() {
    let mut json: JsonValue = JsonValue::new_object();
    let args: Args = Args {
        input: String::from("input"),
        output: Some(String::from("output")),
        is_nulled: false,
        is_keyed: true,
    };
    let record: Vec<String> = vec![String::from("a"), String::from("b"), String::from("c")];
    let headers: Vec<String> = vec![
        String::from("header_a"),
        String::from("header_b"),
        String::from("header_c"),
    ];
    json = update_json_with_record_row(json, record, &headers, &args);
    assert_eq!(
        json.to_string(),
        object(&[(
            "a",
            object(&[("header_b", "b".into()), ("header_c", "c".into())])
        )])
        .to_string()
    );

    // If there is less column on the record
    let mut json: JsonValue = JsonValue::new_object();
    let record: Vec<String> = vec![String::from("a"), String::from("b"), String::from("c")];
    let headers: Vec<String> = vec![String::from("header_a"), String::from("header_b")];
    json = update_json_with_record_row(json, record, &headers, &args);
    assert_eq!(
        json.to_string(),
        object(&[("a", object(&[("header_b", "b".into())]))]).to_string()
    );

    // If there is one column on the record.
    let mut json: JsonValue = JsonValue::new_object();
    let record: Vec<String> = vec![String::from("a"), String::from("b"), String::from("c")];
    let headers: Vec<String> = vec![String::from("header_a")];
    json = update_json_with_record_row(json, record, &headers, &args);
    assert_eq!(
        json.to_string(),
        object(&[("a", object(&[]))]).to_string()
    );

    // If there are more record columns than headers
    let mut json: JsonValue = JsonValue::new_object();
    let record: Vec<String> = vec![String::from("a"), String::from("b")];
    let headers: Vec<String> = vec![
        String::from("header_a"),
        String::from("header_b"),
        String::from("header_c"),
    ];
    json = update_json_with_record_row(json, record, &headers, &args);
    assert_eq!(
        json.to_string(),
        object(&[("a", object(&[("header_b", "b".into())]))]).to_string()
    );
}

#[test]
fn row_with_empty_cell_keeps_empty_string() {
    let json = update_json_with_record_row(
        JsonValue::new_array(),
        strings(&["x", "", "z"]),
        &strings(&["a", "b", "c"]),
        &args(false, false),
    );
    assert_eq!(json.dump(), r#"[{"a":"x","b":"","c":"z"}]"#);
}

#[test]
fn row_with_empty_cell_gives_null_when_asked() {
    let json = update_json_with_record_row(
        JsonValue::new_array(),
        strings(&["x", "", "z"]),
        &strings(&["a", "b", "c"]),
        &args(true, false),
    );
    assert_eq!(json.dump(), r#"[{"a":"x","b":null,"c":"z"}]"#);
}

#[test]
fn keyed_row_goes_under_its_first_cell() {
    let json = update_json_with_record_row(
        JsonValue::new_object(),
        strings(&["x", "1", "2"]),
        &strings(&["k", "a", "b"]),
        &args(false, true),
    );
    assert_eq!(json.dump(), r#"{"x":{"a":"1","b":"2"}}"#);
}

#[test]
fn short_row_omits_trailing_headers() {
    let json = update_json_with_record_row(
        JsonValue::new_array(),
        strings(&["x", "y"]),
        &strings(&["a", "b", "c"]),
        &args(false, false),
    );
    assert_eq!(json.dump(), r#"[{"a":"x","b":"y"}]"#);
    assert_eq!(json[0].len(), 2);
    assert!(!json[0].has_key("c"));
}

#[test]
fn long_row_drops_extra_cells() {
    let json = update_json_with_record_row(
        JsonValue::new_array(),
        strings(&["x", "y", "z"]),
        &strings(&["a"]),
        &args(false, false),
    );
    assert_eq!(json.dump(), r#"[{"a":"x"}]"#);
    assert_eq!(json[0].len(), 1);
}

#[test]
fn cells_are_never_numbers_or_booleans() {
    let json = update_json_with_record_row(
        JsonValue::new_array(),
        strings(&["12", "true", "null"]),
        &strings(&["a", "b", "c"]),
        &args(true, false),
    );
    assert_eq!(json.dump(), r#"[{"a":"12","b":"true","c":"null"}]"#);
    assert!(json[0]["a"].is_string());
    assert!(json[0]["b"].is_string());
    assert!(json[0]["c"].is_string());
}

#[test]
fn long_cell_is_a_string_too() {
    let long = "0123456789012345678901234567890123456789";
    let json = update_json_with_record_row(
        JsonValue::new_array(),
        strings(&[long]),
        &strings(&["a"]),
        &args(false, false),
    );
    assert_eq!(json[0]["a"].as_str(), Some(long));
}

#[test]
fn empty_row_adds_empty_object_without_keys() {
    let json = update_json_with_record_row(
        JsonValue::new_array(),
        strings(&[]),
        &strings(&["a", "b"]),
        &args(false, false),
    );
    assert_eq!(json.dump(), "[{}]");
}

#[test]
fn no_header_adds_empty_object_without_keys() {
    let json = update_json_with_record_row(
        JsonValue::new_array(),
        strings(&["x", "y"]),
        &strings(&[]),
        &args(false, false),
    );
    assert_eq!(json.dump(), "[{}]");
}

#[test]
fn row_is_added_behind_earlier_elements() {
    let mut json = JsonValue::new_array();
    json.push(7).unwrap();
    let json = update_json_with_record_row(
        json,
        strings(&["x"]),
        &strings(&["a"]),
        &args(false, false),
    );
    assert_eq!(json.dump(), r#"[7,{"a":"x"}]"#);
}

#[test]
fn keyed_empty_row_leaves_document_unchanged() {
    let start = object(&[("k", object(&[("a", "1".into())]))]);
    let json = update_json_with_record_row(
        start.clone(),
        strings(&[]),
        &strings(&["k", "a"]),
        &args(false, true),
    );
    assert_eq!(json.dump(), start.dump());
}

#[test]
fn keyed_row_without_header_still_names_a_member() {
    let json = update_json_with_record_row(
        JsonValue::new_object(),
        strings(&["x", "y"]),
        &strings(&[]),
        &args(false, true),
    );
    assert_eq!(json.dump(), r#"{"x":{}}"#);
}

#[test]
fn keyed_key_is_never_null() {
    let json = update_json_with_record_row(
        JsonValue::new_object(),
        strings(&["", ""]),
        &strings(&["k", "a"]),
        &args(true, true),
    );
    assert_eq!(json.dump(), r#"{"":{"a":null}}"#);
}

#[test]
fn keyed_later_row_replaces_earlier_in_place() {
    let headers = strings(&["k", "a", "b"]);
    let settings = args(false, true);
    let mut json = JsonValue::new_object();
    json = update_json_with_record_row(json, strings(&["x", "1", "2"]), &headers, &settings);
    json = update_json_with_record_row(json, strings(&["y", "3", "4"]), &headers, &settings);
    json = update_json_with_record_row(json, strings(&["x", "5"]), &headers, &settings);
    assert_eq!(json.dump(), r#"{"x":{"a":"5"},"y":{"a":"3","b":"4"}}"#);
    assert!(!json["x"].has_key("b"));
}

#[test]
fn keyed_row_turns_other_document_into_object() {
    let json = update_json_with_record_row(
        JsonValue::new_array(),
        strings(&["x", "1"]),
        &strings(&["k", "a"]),
        &args(false, true),
    );
    assert_eq!(json.dump(), r#"{"x":{"a":"1"}}"#);
}

#[test]
fn repeated_header_keeps_place_of_first_and_value_of_last() {
    let json = update_json_with_record_row(
        JsonValue::new_array(),
        strings(&["1", "2", "3"]),
        &strings(&["a", "b", "a"]),
        &args(false, false),
    );
    assert_eq!(json.dump(), r#"[{"a":"3","b":"2"}]"#);
}
