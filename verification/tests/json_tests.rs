use mongodb_cli::json::{create_values_from_reader, parse_json_text, JsonValue};

#[test]
fn ingest_single_object_yields_batch_of_one() {
    let batch = create_values_from_reader(b"{\"a\":1}").unwrap();
    assert_eq!(batch.len(), 1);
    match &batch[0] {
        JsonValue::Object(fields) => {
            assert_eq!(fields.len(), 1);
            assert_eq!(fields[0].0, "a");
            assert_eq!(fields[0].1, JsonValue::Number("1".to_string()));
        },
        other => panic!("expected an object, got {:?}", other),
    }
}

#[test]
fn ingest_array_yields_flattened_batch() {
    let batch = create_values_from_reader(b"[{\"a\":1},{\"b\":2}]").unwrap();
    assert_eq!(batch.len(), 2);
    assert!(matches!(batch[0], JsonValue::Object(_)));
    assert!(matches!(batch[1], JsonValue::Object(_)));
}

#[test]
fn ingest_json_lines_yields_batch_of_two() {
    let batch = create_values_from_reader(b"{\"a\":1}\n{\"b\":2}\n").unwrap();
    assert_eq!(batch.len(), 2);
}

#[test]
fn ingest_mixed_lines_flattens_arrays_only() {
    let batch = create_values_from_reader(b"[{\"a\":1},{\"b\":2}]\n{\"c\":3}\n[{\"d\":4}]").unwrap();
    assert_eq!(batch.len(), 4);
}

#[test]
fn ingest_empty_input_yields_empty_batch() {
    let batch = create_values_from_reader(b"").unwrap();
    assert_eq!(batch.len(), 0);
}

#[test]
fn ingest_non_object_values_kept_as_elements() {
    let batch = create_values_from_reader(b"1 \"two\" null true").unwrap();
    assert_eq!(batch.len(), 4);
    assert_eq!(batch[0], JsonValue::Number("1".to_string()));
    assert_eq!(batch[1], JsonValue::Str("two".to_string()));
    assert_eq!(batch[2], JsonValue::Null);
    assert_eq!(batch[3], JsonValue::Bool(true));
}

#[test]
fn ingest_malformed_input_fails_whole_batch() {
    assert!(create_values_from_reader(b"{\"a\":1} {bad}").is_err());
}

#[test]
fn parse_single_value_accepts_exactly_one() {
    let v = parse_json_text(b"{\"k\":[1,2]}").unwrap();
    match v {
        JsonValue::Object(fields) => match &fields[0].1 {
            JsonValue::Array(elems) => {
                assert_eq!(elems.len(), 2);
                assert_eq!(elems[0], JsonValue::Number("1".to_string()));
            },
            other => panic!("expected an array, got {:?}", other),
        },
        other => panic!("expected an object, got {:?}", other),
    }
}

#[test]
fn parse_single_value_rejects_two_values() {
    assert!(parse_json_text(b"{} {}").is_err());
}

#[test]
fn parse_single_value_rejects_empty_text() {
    assert!(parse_json_text(b"").is_err());
}

#[test]
fn parse_single_value_rejects_malformed_text() {
    assert!(parse_json_text(b"{\"a\":").is_err());
}

#[test]
fn numbers_keep_their_decimal_rendering() {
    let v = parse_json_text(b"[1.5,2,-3.25e2]").unwrap();
    match v {
        JsonValue::Array(elems) => {
            assert_eq!(elems[0], JsonValue::Number("1.5".to_string()));
            assert_eq!(elems[1], JsonValue::Number("2".to_string()));
        },
        other => panic!("expected an array, got {:?}", other),
    }
}
