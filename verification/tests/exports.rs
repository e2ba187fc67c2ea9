use arrow::datatypes::{DataType, Schema};
use arrow::ffi::FFI_ArrowSchema;
use lance_namespace::models;
use lance_namespace_ffi::call::{CallArguments, NamespaceConfig, ServiceCall};
use lance_namespace_ffi::error::{ErrorCode, FfiError};
use lance_namespace_ffi::exports::{
    hand_out_schema, lance_json_arrow_schema_to_c, lance_namespace_create_empty_table, lance_namespace_describe_table,
    lance_namespace_describe_table_with_schema, lance_namespace_drop_table,
    lance_namespace_list_tables, lance_open_dataset_in_namespace, LastError, OutText,
};
use lance_namespace_ffi::list_tables::{Listing, PrefetchJob};
use lance_namespace_ffi::requests::{
    DeclareTableRequest, DeclareTableResponse, DescribeTableRequest, DescribeTableResponse,
    DropTableFailure, DropTableRequest,
};
use lance_namespace_ffi::tables::OpenTarget;
use std::collections::HashMap;

fn arguments<'a>() -> CallArguments<'a> {
    CallArguments {
        endpoint: Ok("http://ns"),
        id: Ok("t"),
        bearer_token: None,
        api_key: None,
        delimiter: None,
        headers_tsv: None,
    }
}

fn wrong_arguments<'a>() -> CallArguments<'a> {
    CallArguments { endpoint: Err(stale()), ..arguments() }
}

fn stale() -> FfiError {
    FfiError::new(ErrorCode::InvalidArgument, "endpoint is null".to_string())
}

fn slot() -> LastError {
    LastError { error: Some(stale()) }
}

fn full() -> OutText {
    OutText::Text("left over".to_string())
}

fn message(slot: &LastError) -> Option<&str> {
    slot.error.as_ref().map(|e| e.message.as_str())
}

fn text(out: &OutText) -> Option<&str> {
    match out {
        OutText::Text(t) => Some(t),
        _ => None,
    }
}

fn is_null(out: &OutText) -> bool {
    matches!(out, OutText::Null)
}

fn response(table_uri: Option<&str>) -> DescribeTableResponse {
    DescribeTableResponse {
        location: None,
        table_uri: table_uri.map(|s| s.to_string()),
        schema: None,
        storage_options: None,
    }
}

#[test]
fn last_error_slot() {
    let mut slot = LastError { error: None };
    slot.set(stale());
    assert_eq!(message(&slot), Some("endpoint is null"));
    slot.clear();
    assert_eq!(message(&slot), None);
}

fn tables(names: &[&str]) -> Vec<String> {
    names.iter().map(|n| n.to_string()).collect()
}

#[test]
fn listing_handed_back() {
    let mut last = slot();
    let r = lance_namespace_list_tables(
        arguments(),
        |_: NamespaceConfig, _: Listing| Ok(Ok(tables(&["a", "b"]))),
        |_: Vec<PrefetchJob>| {
            let mut described = response(None);
            described.schema = Some(models::JsonArrowSchema::new(vec![]));
            Ok(vec![Some(Ok(described)), Some(Err("gone".to_string()))])
        },
        &mut last,
    );
    assert_eq!(r.as_deref(), Some("a\t{\"fields\":[]}\nb"));
    assert_eq!(message(&last), None);
}

#[test]
fn empty_listing_is_an_empty_text() {
    let mut last = slot();
    let r = lance_namespace_list_tables(
        arguments(),
        |_: NamespaceConfig, _: Listing| Ok(Ok(vec![])),
        |jobs: Vec<PrefetchJob>| {
            assert!(jobs.is_empty());
            Ok(vec![])
        },
        &mut last,
    );
    assert_eq!(r.as_deref(), Some(""));
}

#[test]
fn failed_listing() {
    let mut last = LastError { error: None };
    let r = lance_namespace_list_tables(
        arguments(),
        |_: NamespaceConfig, _: Listing| Ok(Ok(tables(&["a"]))),
        |_: Vec<PrefetchJob>| Err("down".to_string()),
        &mut last,
    );
    assert_eq!(r, None);
    assert_eq!(message(&last), Some("runtime: down"));
    let r = lance_namespace_list_tables(
        wrong_arguments(),
        |_: NamespaceConfig, _: Listing| panic!("listed"),
        |_: Vec<PrefetchJob>| panic!("described"),
        &mut last,
    );
    assert_eq!(r, None);
    assert_eq!(message(&last), Some("endpoint is null"));
}

#[test]
fn described_place_handed_back() {
    let (mut location, mut options, mut last) = (OutText::Null, full(), slot());
    let status = lance_namespace_describe_table(
        arguments(),
        |_: ServiceCall<DescribeTableRequest>| Ok(Ok(response(Some("s3://u")))),
        &mut location,
        &mut options,
        &mut last,
    );
    assert_eq!(status, 0);
    assert_eq!(text(&location), Some("s3://u"));
    assert_eq!(text(&options), Some(""));
    assert_eq!(message(&last), None);
}

#[test]
fn unwanted_out_parameters_stay_absent() {
    let (mut location, mut options, mut last) = (OutText::Absent, OutText::Absent, slot());
    let status = lance_namespace_describe_table(
        arguments(),
        |_: ServiceCall<DescribeTableRequest>| Ok(Ok(response(Some("u")))),
        &mut location,
        &mut options,
        &mut last,
    );
    assert_eq!(status, 0);
    assert!(matches!(location, OutText::Absent));
    assert!(matches!(options, OutText::Absent));
}

#[test]
fn failed_description_blanks_the_out_parameters() {
    let (mut location, mut options, mut last) = (full(), OutText::Absent, LastError { error: None });
    let status = lance_namespace_describe_table(
        wrong_arguments(),
        |_: ServiceCall<DescribeTableRequest>| panic!("sent"),
        &mut location,
        &mut options,
        &mut last,
    );
    assert_eq!(status, -1);
    assert!(is_null(&location));
    assert!(matches!(options, OutText::Absent));
    assert_eq!(message(&last), Some("endpoint is null"));
}

#[test]
fn texts_with_nul_are_replaced() {
    let (mut location, mut options, mut last) = (OutText::Null, OutText::Null, slot());
    let status = lance_namespace_create_empty_table(
        arguments(),
        |_: ServiceCall<DeclareTableRequest>| {
            let mut m = HashMap::new();
            m.insert("k".to_string(), "a\0b".to_string());
            Ok(Ok(DeclareTableResponse {
                location: Some("x\0".to_string()),
                storage_options: Some(m),
            }))
        },
        &mut location,
        &mut options,
        &mut last,
    );
    assert_eq!(status, 0);
    assert_eq!(text(&location), Some("invalid location"));
    assert_eq!(text(&options), Some("invalid storage options"));
    assert_eq!(message(&last), None);
}

#[test]
fn failed_declaration() {
    let (mut location, mut options, mut last) = (full(), full(), LastError { error: None });
    let status = lance_namespace_create_empty_table(
        arguments(),
        |_: ServiceCall<DeclareTableRequest>| Ok(Err("exists".to_string())),
        &mut location,
        &mut options,
        &mut last,
    );
    assert_eq!(status, -1);
    assert!(is_null(&location) && is_null(&options));
    assert_eq!(message(&last), Some("namespace declare_table: exists"));
}

#[test]
fn drop_statuses() {
    let mut last = slot();
    let status = lance_namespace_drop_table(
        arguments(),
        |_: ServiceCall<DropTableRequest>| Ok(Err(DropTableFailure::NotFound("t".to_string()))),
        &mut last,
    );
    assert_eq!((status, message(&last)), (0, None));
    let status = lance_namespace_drop_table(
        arguments(),
        |_: ServiceCall<DropTableRequest>| Ok(Err(DropTableFailure::Other("denied".to_string()))),
        &mut last,
    );
    assert_eq!((status, message(&last)), (-1, Some("namespace drop_table 't': denied")));
}

#[test]
fn schema_json_handed_back() {
    let schema = models::JsonArrowSchema::new(vec![models::JsonArrowField::new(
        "nul \0 in a name".to_string(),
        true,
        models::JsonArrowDataType::new("int8".to_string()),
    )]);
    let (mut out, mut last) = (full(), slot());
    let status = lance_namespace_describe_table_with_schema(
        arguments(),
        |_: ServiceCall<DescribeTableRequest>| {
            let mut r = response(None);
            r.schema = Some(schema.clone());
            Ok(Ok(r))
        },
        &mut out,
        &mut last,
    );
    assert_eq!(status, 0);
    let json = text(&out).unwrap();
    assert_eq!(serde_json::from_str::<models::JsonArrowSchema>(json).unwrap(), schema);
}

#[test]
fn missing_schema() {
    let (mut out, mut last) = (full(), LastError { error: None });
    let status = lance_namespace_describe_table_with_schema(
        arguments(),
        |_: ServiceCall<DescribeTableRequest>| Ok(Ok(response(Some("u")))),
        &mut out,
        &mut last,
    );
    assert_eq!(status, -1);
    assert!(is_null(&out));
    assert_eq!(message(&last), Some("namespace describe_table: missing schema in response"));
}

#[test]
fn dataset_handed_back() {
    let (mut out, mut last) = (OutText::Null, slot());
    let r = lance_open_dataset_in_namespace(
        arguments(),
        |_: ServiceCall<DescribeTableRequest>| Ok(Ok(response(Some("s3://u")))),
        |target: OpenTarget| {
            assert_eq!(target.table_uri, "s3://u");
            Ok(Ok(5))
        },
        &mut out,
        &mut last,
    );
    assert_eq!(r, Some(5));
    assert_eq!(text(&out), Some("s3://u"));
    assert_eq!(message(&last), None);
    let r = lance_open_dataset_in_namespace(
        arguments(),
        |_: ServiceCall<DescribeTableRequest>| Ok(Ok(response(Some("a\0")))),
        |_: OpenTarget| Ok(Ok(6)),
        &mut out,
        &mut last,
    );
    assert_eq!(r, Some(6));
    assert_eq!(text(&out), Some("invalid uri"));
}

#[test]
fn dataset_that_cannot_be_opened() {
    let (mut out, mut last) = (full(), LastError { error: None });
    let r: Option<i32> = lance_open_dataset_in_namespace(
        arguments(),
        |_: ServiceCall<DescribeTableRequest>| Ok(Ok(response(Some("u")))),
        |_: OpenTarget| Ok(Err("gone".to_string())),
        &mut out,
        &mut last,
    );
    assert_eq!(r, None);
    assert!(is_null(&out));
    assert_eq!(message(&last), Some("dataset open 'u': gone"));
}

const JSON: &str =
    r#"{"fields": [{"name": "a", "nullable": true, "metadata": null, "type": {"type": "INT8", "length": null}}]}"#;

#[test]
fn json_schema_exported() {
    let mut last = slot();
    let mut out = Schema::empty();
    let status = lance_json_arrow_schema_to_c(Ok(JSON), |schema: Schema| Ok(schema), &mut out, &mut last);
    assert_eq!((status, message(&last)), (0, None));
    assert_eq!(out.fields().len(), 1);
    assert_eq!(out.field(0).data_type(), &DataType::Int8);
    assert_eq!(out.field(0).name(), "a");
}

#[test]
fn json_schema_failures() {
    let mut last = LastError { error: None };
    let mut out = 7;
    let status =
        lance_json_arrow_schema_to_c(Err(stale()), |_: Schema| panic!("exported"), &mut out, &mut last);
    assert_eq!((status, message(&last)), (-1, Some("endpoint is null")));

    let status =
        lance_json_arrow_schema_to_c(Ok("{"), |_: Schema| panic!("exported"), &mut out, &mut last);
    assert_eq!(status, -1);
    assert!(message(&last).unwrap().starts_with("failed to parse JSON arrow schema: EOF"));

    let unknown = JSON.replace("INT8", "Interval");
    let status =
        lance_json_arrow_schema_to_c(Ok(&unknown), |_: Schema| panic!("exported"), &mut out, &mut last);
    assert_eq!(status, -1);
    assert!(message(&last).unwrap().starts_with(
        "failed to convert JSON arrow schema: Namespace error: Unsupported Arrow type: interval, "
    ));

    let refused = |_: Schema| Err(FfiError::new(ErrorCode::SchemaExport, "refused".to_string()));
    let status = lance_json_arrow_schema_to_c(Ok(JSON), refused, &mut out, &mut last);
    assert_eq!((status, message(&last)), (-1, Some("refused")));
    assert_eq!(out, 7);
}

#[test]
fn c_schema_stays_as_it_was() {
    let mut last = LastError { error: None };
    let mut out = FFI_ArrowSchema::empty();
    let export = |schema: Schema| {
        FFI_ArrowSchema::try_from(&schema)
            .map_err(|err| FfiError::new(ErrorCode::SchemaExport, err.to_string()))
    };
    let status = lance_json_arrow_schema_to_c(Ok("{"), export, &mut out, &mut last);
    assert_eq!(status, -1);
    assert_eq!(out.children().count(), 0);
    let status = lance_json_arrow_schema_to_c(Ok(JSON), export, &mut out, &mut last);
    assert_eq!(status, 0);
    assert_eq!(Schema::try_from(&out).unwrap().field(0).data_type(), &DataType::Int8);
}

#[test]
fn schema_handed_out() {
    let (mut out, mut last) = (0, slot());
    let count = |schema: Schema| Ok(schema.fields().len() + 1);
    let status = hand_out_schema(Ok(Schema::empty()), count, &mut out, &mut last);
    assert_eq!((status, out, message(&last)), (0, 1, None));
    let status = hand_out_schema(Err(stale()), |_: Schema| panic!("exported"), &mut out, &mut last);
    assert_eq!((status, out, message(&last)), (-1, 1, Some("endpoint is null")));
}
