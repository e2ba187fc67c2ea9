use arrow::datatypes::{DataType, Field, Schema, TimeUnit};
use lance_namespace::models;
use lance_namespace_ffi::error::ErrorCode;
use lance_namespace_ffi::json::{parse_schema, read_schema, schema_contents, FieldJson, JsonNode, SchemaJson, TypeJson};
use lance_namespace_ffi::schema::{
    convert_field, convert_named_type, convert_schema, convert_type, exported_schema,
    json_arrow_schema,
};
use lance_namespace_ffi::requests::DescribeTableResponse;
use lance_namespace_ffi::tables::table_schema;
use std::collections::HashMap;
use std::sync::Arc;

fn leaf(name: &str) -> TypeJson {
    TypeJson { name: name.to_string(), length: None, fields: None }
}

fn sized(name: &str, length: i64) -> TypeJson {
    TypeJson { name: name.to_string(), length: Some(length), fields: None }
}

fn nested(name: &str, fields: Vec<FieldJson>) -> TypeJson {
    TypeJson { name: name.to_string(), length: None, fields: Some(fields) }
}

fn field(name: &str, t: TypeJson) -> FieldJson {
    FieldJson { name: name.to_string(), nullable: true, data_type: Box::new(t), metadata: None }
}

fn converted(t: &TypeJson) -> DataType {
    convert_type(t).unwrap()
}

fn failure(t: &TypeJson) -> String {
    convert_type(t).unwrap_err().message
}

#[test]
fn every_simple_type() {
    let cases = vec![
        ("null", DataType::Null),
        ("bool", DataType::Boolean),
        ("boolean", DataType::Boolean),
        ("int8", DataType::Int8),
        ("uint8", DataType::UInt8),
        ("int16", DataType::Int16),
        ("uint16", DataType::UInt16),
        ("int32", DataType::Int32),
        ("uint32", DataType::UInt32),
        ("int64", DataType::Int64),
        ("uint64", DataType::UInt64),
        ("float16", DataType::Float16),
        ("float32", DataType::Float32),
        ("float64", DataType::Float64),
        ("date32", DataType::Date32),
        ("date64", DataType::Date64),
        ("timestamp", DataType::Timestamp(TimeUnit::Microsecond, None)),
        ("duration", DataType::Duration(TimeUnit::Microsecond)),
        ("utf8", DataType::Utf8),
        ("large_utf8", DataType::LargeUtf8),
        ("binary", DataType::Binary),
        ("large_binary", DataType::LargeBinary),
    ];
    for (name, expected) in cases {
        assert_eq!(converted(&leaf(name)), expected, "{}", name);
    }
}

#[test]
fn type_names_ignore_case() {
    assert_eq!(converted(&leaf("INT8")), DataType::Int8);
    assert_eq!(converted(&leaf("Large_Utf8")), DataType::LargeUtf8);
    // The lowercase form of a capital I with a dot above is two characters.
    assert_eq!(failure(&leaf("\u{130}NT8")), "Unsupported Arrow type: i\u{307}nt8");
}

#[test]
fn type_names_ignore_case_at_every_depth() {
    let spelled = |outer: &str, middle: &str, inner: &str| {
        nested(outer, vec![field("a", nested(middle, vec![field("b", leaf(inner))]))])
    };
    let small = converted(&spelled("list", "struct", "timestamp"));
    assert_eq!(converted(&spelled("LIST", "Struct", "TimeStamp")), small);
    assert_eq!(
        failure(&spelled("LIST", "STRUCT", "Nope")),
        failure(&spelled("list", "struct", "nOPE"))
    );
}

#[test]
fn ascii_case_makes_no_difference_among_other_letters() {
    // A capital sigma becomes a final one behind a letter, whatever the case of that letter.
    for (a, b) in [("\u{c9}INT", "\u{c9}int"), ("A\u{3a3}", "a\u{3a3}"), ("\u{3a3}B", "\u{3a3}b"), ("X\u{3a3}.Y", "x\u{3a3}.y")] {
        assert_eq!(failure(&leaf(a)), failure(&leaf(b)));
    }
    assert_eq!(failure(&leaf("A\u{3a3}")), "Unsupported Arrow type: a\u{3c2}");
    assert_eq!(failure(&leaf("\u{c9}X")), failure(&leaf("\u{e9}x")));
}

#[test]
fn named_type_takes_the_lowercase_name() {
    assert_eq!(convert_named_type("int8", &leaf("whatever")).unwrap(), DataType::Int8);
    assert_eq!(
        convert_named_type("INT8", &leaf("int8")).unwrap_err().message,
        "Unsupported Arrow type: INT8"
    );
}

#[test]
fn decimal_lengths() {
    assert_eq!(converted(&sized("decimal128", 38010)), DataType::Decimal128(38, 10));
    assert_eq!(converted(&sized("decimal128", 5000)), DataType::Decimal128(5, 0));
    assert_eq!(converted(&leaf("decimal128")), DataType::Decimal128(0, 0));
    // Out of range: what is left of the two parts in eight bits.
    assert_eq!(converted(&sized("decimal128", 256_000)), DataType::Decimal128(0, 0));
    assert_eq!(converted(&sized("decimal128", 1_200)), DataType::Decimal128(1, -56));
    assert_eq!(converted(&sized("decimal128", -5)), DataType::Decimal128(0, -5));
    assert_eq!(converted(&sized("decimal128", -1_005)), DataType::Decimal128(255, -5));
    for e in [i64::MIN, i64::MAX, -1000, -999, 999, 1000, 123_456_789_012] {
        assert_eq!(
            converted(&sized("decimal128", e)),
            DataType::Decimal128((e / 1000) as u8, (e % 1000) as i8)
        );
    }
}

#[test]
fn decimal_round_trip() {
    for precision in [0u8, 1, 38, 255] {
        for scale in [0i8, 1, 127] {
            let length = 1000 * precision as i64 + scale as i64;
            assert_eq!(
                converted(&sized("decimal128", length)),
                DataType::Decimal128(precision, scale)
            );
        }
    }
    assert_eq!(converted(&sized("decimal128", -128)), DataType::Decimal128(0, -128));
}

#[test]
fn fixed_sizes() {
    assert_eq!(converted(&sized("fixed_size_binary", 16)), DataType::FixedSizeBinary(16));
    assert_eq!(converted(&leaf("fixed_size_binary")), DataType::FixedSizeBinary(0));
    for n in [i64::MIN, i64::MAX, 1 << 31, (1 << 32) + 7, -1] {
        assert_eq!(
            converted(&sized("fixed_size_binary", n)),
            DataType::FixedSizeBinary(n as i32)
        );
    }
}

#[test]
fn list_types() {
    let item = Arc::new(Field::new("item", DataType::Int32, true));
    let inner = || vec![field("item", leaf("int32")), field("ignored", leaf("nonsense"))];
    assert_eq!(converted(&nested("list", inner())), DataType::List(item.clone()));
    assert_eq!(converted(&nested("large_list", inner())), DataType::LargeList(item.clone()));
    let mut fixed = nested("fixed_size_list", inner());
    assert_eq!(converted(&fixed), DataType::FixedSizeList(item.clone(), 0));
    fixed.length = Some(3);
    assert_eq!(converted(&fixed), DataType::FixedSizeList(item, 3));
}

#[test]
fn struct_and_map_types() {
    let fields = vec![field("a", leaf("utf8")), field("b", nested("list", vec![field("item", leaf("bool"))]))];
    let expected = vec![
        Field::new("a", DataType::Utf8, true),
        Field::new("b", DataType::List(Arc::new(Field::new("item", DataType::Boolean, true))), true),
    ];
    assert_eq!(converted(&nested("struct", fields)), DataType::Struct(expected.into()));
    assert_eq!(
        converted(&nested("struct", vec![])),
        DataType::Struct(Vec::<Field>::new().into())
    );
    let entries = field("entries", nested("struct", vec![field("k", leaf("utf8")), field("v", leaf("int8"))]));
    match converted(&nested("map", vec![entries])) {
        DataType::Map(f, sorted) => {
            assert_eq!(f.name(), "entries");
            assert!(!sorted);
        }
        other => panic!("{:?}", other),
    }
}

#[test]
fn missing_inner_fields() {
    let cases = vec![
        ("list", "list type missing inner field"),
        ("large_list", "large_list type missing inner field"),
        ("fixed_size_list", "fixed_size_list type missing inner field"),
        ("map", "map type missing entries field"),
    ];
    for (name, message) in cases {
        assert_eq!(failure(&leaf(name)), message);
        assert_eq!(failure(&nested(name, vec![])), message);
    }
    assert_eq!(failure(&leaf("struct")), "struct type missing fields");
}

#[test]
fn unsupported_types() {
    assert_eq!(failure(&leaf("Union")), "Unsupported Arrow type: union");
    let deep = nested("list", vec![field("x", nested("struct", vec![field("ok", leaf("int8")), field("y", leaf("time32")), field("z", leaf("time64"))]))]);
    assert_eq!(failure(&deep), "Unsupported Arrow type: time32");
}

#[test]
fn field_keeps_name_nullability_and_metadata() {
    let mut f = field("id", leaf("int64"));
    f.nullable = false;
    assert_eq!(convert_field(&f).unwrap(), Field::new("id", DataType::Int64, false));
    f.metadata = Some(vec![
        ("k".to_string(), "old".to_string()),
        ("j".to_string(), "w".to_string()),
        ("k".to_string(), "new".to_string()),
    ]);
    let mut metadata = HashMap::new();
    metadata.insert("k".to_string(), "new".to_string());
    metadata.insert("j".to_string(), "w".to_string());
    assert_eq!(
        convert_field(&f).unwrap(),
        Field::new("id", DataType::Int64, false).with_metadata(metadata)
    );
}

#[test]
fn schema_keeps_shape() {
    let schema = SchemaJson {
        fields: vec![field("b", leaf("int8")), field("a", leaf("utf8"))],
        metadata: Some(vec![("m".to_string(), "n".to_string())]),
    };
    let mut metadata = HashMap::new();
    metadata.insert("m".to_string(), "n".to_string());
    let expected = Schema::new_with_metadata(
        vec![Field::new("b", DataType::Int8, true), Field::new("a", DataType::Utf8, true)],
        metadata,
    );
    assert_eq!(convert_schema(&schema).unwrap(), expected);
    let bare = SchemaJson { fields: vec![], metadata: None };
    assert_eq!(convert_schema(&bare).unwrap(), Schema::empty());
}

#[test]
fn schema_fails_with_its_first_failing_field() {
    let schema = SchemaJson {
        fields: vec![field("a", leaf("int8")), field("b", leaf("map")), field("c", leaf("nope"))],
        metadata: None,
    };
    assert_eq!(convert_schema(&schema).unwrap_err().message, "map type missing entries field");
    let e = exported_schema(&schema).unwrap_err();
    assert_eq!(e.code, ErrorCode::SchemaExport);
    assert!(e.message.starts_with(
        "failed to convert JSON arrow schema: Namespace error: map type missing entries field, "
    ));
}

const SAMPLE: &str = r#"{
    "fields": [
        {"name": "id", "nullable": false, "type": {"type": "int64"}},
        {"name": "tags", "nullable": true, "metadata": {"x": "1", "y": "2"},
         "type": {"type": "list", "fields": [
            {"name": "item", "nullable": true, "type": {"type": "utf8"}}]}},
        {"name": "price", "nullable": true, "type": {"type": "decimal128", "length": 10002}}
    ],
    "metadata": {"owner": "me"}
}"#;

fn sample_schema() -> Schema {
    let mut tags = HashMap::new();
    tags.insert("x".to_string(), "1".to_string());
    tags.insert("y".to_string(), "2".to_string());
    let mut metadata = HashMap::new();
    metadata.insert("owner".to_string(), "me".to_string());
    let item = Arc::new(Field::new("item", DataType::Utf8, true));
    Schema::new_with_metadata(
        vec![
            Field::new("id", DataType::Int64, false),
            Field::new("tags", DataType::List(item), true).with_metadata(tags),
            Field::new("price", DataType::Decimal128(10, 2), true),
        ],
        metadata,
    )
}

#[test]
fn json_text_to_arrow() {
    assert_eq!(json_arrow_schema(Ok(SAMPLE)).unwrap(), sample_schema());
}

#[test]
fn json_text_that_is_no_schema() {
    for text in ["", "{", "[1]", "{\"metadata\": {}}", "{\"fields\": [{\"name\": \"a\"}]}"] {
        let expected = serde_json::from_str::<models::JsonArrowSchema>(text).unwrap_err();
        let e = json_arrow_schema(Ok(text)).unwrap_err();
        assert_eq!(e.code, ErrorCode::SchemaExport);
        assert_eq!(e.message, format!("failed to parse JSON arrow schema: {expected}"));
    }
}

#[test]
fn json_text_with_an_unsupported_type() {
    let text = r#"{"fields": [{"name": "a", "nullable": true, "type": {"type": "List"}}]}"#;
    let e = json_arrow_schema(Ok(text)).unwrap_err();
    assert_eq!(e.code, ErrorCode::SchemaExport);
    assert!(e.message.starts_with(
        "failed to convert JSON arrow schema: Namespace error: list type missing inner field, "
    ));
}

#[test]
fn json_text_that_could_not_be_had() {
    let e = lance_namespace_ffi::error::FfiError::new(ErrorCode::Utf8, "json_schema".to_string());
    let e = json_arrow_schema(Err(e)).unwrap_err();
    assert_eq!(e.code, ErrorCode::Utf8);
    assert_eq!(e.message, "json_schema");
}

#[test]
fn parsed_text_holds_what_it_says() {
    let s = parse_schema(SAMPLE).unwrap();
    assert_eq!(s.fields.len(), 3);
    assert_eq!(s.fields[0].name, "id");
    assert!(!s.fields[0].nullable);
    assert!(s.fields[0].metadata.is_none());
    assert_eq!(s.fields[1].data_type.name, "list");
    assert_eq!(s.fields[1].data_type.fields.as_ref().unwrap()[0].data_type.name, "utf8");
    assert_eq!(s.fields[2].data_type.length, Some(10002));
    assert_eq!(s.metadata, Some(vec![("owner".to_string(), "me".to_string())]));
    let mut metadata = s.fields[1].metadata.clone().unwrap();
    metadata.sort();
    assert_eq!(
        metadata,
        vec![("x".to_string(), "1".to_string()), ("y".to_string(), "2".to_string())]
    );
}

#[test]
fn absent_and_empty_parts_differ() {
    let text = r#"{"fields": [{"name": "a", "nullable": true, "metadata": {},
        "type": {"type": "struct", "fields": [], "length": -9223372036854775808}}]}"#;
    let s = parse_schema(text).unwrap();
    assert!(s.metadata.is_none());
    assert_eq!(s.fields[0].metadata, Some(vec![]));
    assert_eq!(s.fields[0].data_type.fields.as_ref().unwrap().len(), 0);
    assert_eq!(s.fields[0].data_type.length, Some(i64::MIN));
}

fn text(s: &str) -> JsonNode {
    JsonNode::Text(s.to_string())
}

fn object(entries: Vec<(&str, JsonNode)>) -> JsonNode {
    JsonNode::Object(entries.into_iter().map(|(k, v)| (k.to_string(), v)).collect())
}

#[test]
fn document_to_schema() {
    let field = || object(vec![
        ("nullable", JsonNode::Bool(true)),
        ("type", object(vec![("length", JsonNode::Number(Some(4))), ("type", text("fixed_size_binary"))])),
        ("name", text("a")),
    ]);
    let s = read_schema(&object(vec![("fields", JsonNode::List(vec![field(), field()]))])).unwrap();
    assert_eq!(s.fields.len(), 2);
    assert_eq!(s.fields[1].data_type.length, Some(4));
    assert!(s.metadata.is_none());
}

#[test]
fn document_that_is_no_schema() {
    let named = |t: JsonNode| object(vec![("fields", JsonNode::List(vec![t]))]);
    let with_type = |t: JsonNode| {
        named(object(vec![("name", text("a")), ("nullable", JsonNode::Bool(false)), ("type", t)]))
    };
    assert!(read_schema(&with_type(object(vec![("type", text("int8"))]))).is_some());
    assert!(read_schema(&JsonNode::Null).is_none());
    assert!(read_schema(&object(vec![])).is_none());
    assert!(read_schema(&object(vec![("fields", JsonNode::Null)])).is_none());
    assert!(read_schema(&named(JsonNode::Null)).is_none());
    assert!(read_schema(&with_type(JsonNode::Null)).is_none());
    assert!(read_schema(&with_type(object(vec![]))).is_none());
    assert!(read_schema(&with_type(object(vec![("type", JsonNode::Null)]))).is_none());
    assert!(read_schema(&with_type(object(vec![("type", text("x")), ("length", JsonNode::Number(None))]))).is_none());
    assert!(read_schema(&with_type(object(vec![("type", text("x")), ("fields", text("y"))]))).is_none());
    let metadata = |m: JsonNode| object(vec![("fields", JsonNode::List(vec![])), ("metadata", m)]);
    assert!(read_schema(&metadata(object(vec![("k", text("v"))]))).is_some());
    assert!(read_schema(&metadata(object(vec![("k", JsonNode::Null)]))).is_none());
    assert!(read_schema(&metadata(JsonNode::Null)).is_none());
    // The later of two entries with one key counts.
    assert!(read_schema(&metadata(object(vec![("k", JsonNode::Null), ("k", text("v"))]))).is_some());
    assert!(read_schema(&metadata(object(vec![("k", text("v")), ("k", JsonNode::Null)]))).is_none());
}

fn lists_around(depth: usize, innermost: models::JsonArrowDataType) -> models::JsonArrowSchema {
    let mut t = innermost;
    for _ in 0..depth {
        let mut outer = models::JsonArrowDataType::new("list".to_string());
        outer.fields = Some(vec![models::JsonArrowField::new("item".to_string(), true, t)]);
        t = outer;
    }
    models::JsonArrowSchema::new(vec![models::JsonArrowField::new("f".to_string(), true, t)])
}

fn text_of(schema: models::JsonArrowSchema) -> String {
    table_schema(Ok(Ok(DescribeTableResponse {
        location: None,
        table_uri: None,
        schema: Some(schema),
        storage_options: None,
    })))
    .unwrap()
}

#[test]
fn model_contents() {
    let mut schema = lists_around(1, models::JsonArrowDataType::new("int8".to_string()));
    let mut metadata = HashMap::new();
    metadata.insert("k".to_string(), "v".to_string());
    schema.metadata = Some(metadata);
    let s = schema_contents(&schema);
    assert_eq!(s.fields[0].name, "f");
    assert_eq!(s.fields[0].data_type.name, "list");
    assert_eq!(s.metadata, Some(vec![("k".to_string(), "v".to_string())]));
}

#[test]
fn schema_text_round_trip() {
    let schema: models::JsonArrowSchema = serde_json::from_str(SAMPLE).unwrap();
    let text = text_of(schema.clone());
    assert!(text.chars().all(|c| c >= ' '));
    assert_eq!(serde_json::from_str::<models::JsonArrowSchema>(&text).unwrap(), schema);
    assert_eq!(json_arrow_schema(Ok(&text)).unwrap(), sample_schema());
}

#[test]
fn schema_text_escapes_control_characters() {
    let schema = models::JsonArrowSchema::new(vec![models::JsonArrowField::new(
        "a\tb\nc\0d".to_string(),
        false,
        models::JsonArrowDataType::new("int8".to_string()),
    )]);
    let text = text_of(schema);
    assert!(text.chars().all(|c| c >= ' '));
    assert_eq!(json_arrow_schema(Ok(&text)).unwrap().field(0).name(), "a\tb\nc\0d");
}

#[test]
fn schema_text_nesting_limit() {
    let leaf = || models::JsonArrowDataType::new("int8".to_string());
    let with_fields = || {
        let mut t = leaf();
        t.fields = Some(vec![]);
        t
    };
    assert!(parse_schema(&text_of(lists_around(41, leaf()))).is_ok());
    assert!(parse_schema(&text_of(lists_around(42, leaf()))).is_err());
    assert!(parse_schema(&text_of(lists_around(40, with_fields()))).is_ok());
    assert!(parse_schema(&text_of(lists_around(41, with_fields()))).is_err());
}
