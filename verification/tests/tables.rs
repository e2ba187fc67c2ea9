use lance_namespace::models;
use lance_namespace_ffi::call::{CallArguments, ServiceCall};
use lance_namespace_ffi::error::{ErrorCode, FfiError, FfiResult};
use lance_namespace_ffi::requests::{
    DeclareTableRequest, DeclareTableResponse, DescribeTableRequest, DescribeTableResponse,
    DropTableFailure, DropTableRequest,
};
use lance_namespace_ffi::tables::{
    create_empty_table_inner, declared_table, describe_table_info_inner,
    describe_table_with_schema_inner, drop_table_inner, dropped_table, open_dataset_in_namespace_inner,
    open_target, opened_dataset, table_info, table_schema, OpenTarget,
};
use std::collections::HashMap;

fn arguments<'a>() -> CallArguments<'a> {
    CallArguments {
        endpoint: Ok("http://ns"),
        id: Ok("db$t"),
        bearer_token: None,
        api_key: Some(Ok("key")),
        delimiter: Some(Ok("/")),
        headers_tsv: None,
    }
}

fn wrong_arguments<'a>() -> CallArguments<'a> {
    CallArguments {
        id: Err(FfiError::new(ErrorCode::InvalidArgument, "table_id is null".to_string())),
        ..arguments()
    }
}

fn text(s: &str) -> Option<String> {
    Some(s.to_string())
}

fn response(table_uri: Option<&str>, location: Option<&str>) -> DescribeTableResponse {
    DescribeTableResponse {
        location: location.map(|s| s.to_string()),
        table_uri: table_uri.map(|s| s.to_string()),
        schema: None,
        storage_options: None,
    }
}

fn options() -> HashMap<String, String> {
    let mut m = HashMap::new();
    m.insert("region".to_string(), "eu".to_string());
    m.insert("key".to_string(), "k".to_string());
    m
}

fn failure<T>(r: FfiResult<T>) -> (ErrorCode, String) {
    match r {
        Ok(_) => panic!("no error"),
        Err(e) => (e.code, e.message),
    }
}

fn assert_config(config: &lance_namespace_ffi::call::NamespaceConfig) {
    assert_eq!(config.endpoint, "http://ns");
    assert_eq!(config.headers, vec![("x-api-key".to_string(), "key".to_string())]);
    assert_eq!(config.delimiter, text("/"));
}

#[test]
fn uri_goes_before_location() {
    let r = table_info(Ok(Ok(response(Some("s3://uri"), Some("/loc")))));
    assert_eq!(r.unwrap(), ("s3://uri".to_string(), String::new()));
    let r = table_info(Ok(Ok(response(None, Some("/loc")))));
    assert_eq!(r.unwrap().0, "/loc");
    // An empty URI is a URI.
    let r = table_info(Ok(Ok(response(Some(""), Some("/loc")))));
    assert_eq!(r.unwrap().0, "");
}

#[test]
fn info_has_the_storage_options() {
    let mut resp = response(Some("u"), None);
    resp.storage_options = Some(options());
    assert_eq!(table_info(Ok(Ok(resp))).unwrap().1, "key\tk\nregion\teu");
    let mut resp = response(Some("u"), None);
    resp.storage_options = Some(HashMap::new());
    assert_eq!(table_info(Ok(Ok(resp))).unwrap().1, "");
}

#[test]
fn info_failures() {
    assert_eq!(
        failure(table_info(Ok(Ok(response(None, None))))),
        (
            ErrorCode::NamespaceDescribeTableInfo,
            "namespace describe_table: missing location and table_uri".to_string()
        )
    );
    assert_eq!(
        failure(table_info(Ok(Err("404".to_string())))),
        (ErrorCode::NamespaceDescribeTableInfo, "namespace describe_table: 404".to_string())
    );
    assert_eq!(
        failure(table_info(Err("down".to_string()))),
        (ErrorCode::Runtime, "runtime: down".to_string())
    );
}

#[test]
fn info_request() {
    let r = describe_table_info_inner(arguments(), |call: ServiceCall<DescribeTableRequest>| {
        assert_config(&call.config);
        assert_eq!(call.request.id, vec!["db$t".to_string()]);
        assert_eq!(call.request.with_table_uri, Some(true));
        assert_eq!(call.request.load_detailed_metadata, None);
        Ok(Ok(response(Some("u"), None)))
    });
    assert_eq!(r.unwrap().0, "u");
    let r = describe_table_info_inner(wrong_arguments(), |_: ServiceCall<DescribeTableRequest>| {
        panic!("sent")
    });
    assert_eq!(failure(r), (ErrorCode::InvalidArgument, "table_id is null".to_string()));
}

#[test]
fn declared_place() {
    let r = declared_table(Ok(Ok(DeclareTableResponse {
        location: text("/loc"),
        storage_options: Some(options()),
    })));
    assert_eq!(r.unwrap(), ("/loc".to_string(), "key\tk\nregion\teu".to_string()));
    let r = declared_table(Ok(Ok(DeclareTableResponse { location: text("/loc"), storage_options: None })));
    assert_eq!(r.unwrap().1, "");
}

#[test]
fn declare_failures() {
    assert_eq!(
        failure(declared_table(Ok(Ok(DeclareTableResponse {
            location: None,
            storage_options: Some(options()),
        })))),
        (
            ErrorCode::NamespaceCreateEmptyTable,
            "namespace declare_table: missing location".to_string()
        )
    );
    assert_eq!(
        failure(declared_table(Ok(Err("exists".to_string())))),
        (ErrorCode::NamespaceCreateEmptyTable, "namespace declare_table: exists".to_string())
    );
    assert_eq!(
        failure(declared_table(Err("down".to_string()))),
        (ErrorCode::Runtime, "runtime: down".to_string())
    );
}

#[test]
fn declare_request() {
    let r = create_empty_table_inner(arguments(), |call: ServiceCall<DeclareTableRequest>| {
        assert_config(&call.config);
        assert_eq!(call.request.id, vec!["db$t".to_string()]);
        Ok(Ok(DeclareTableResponse { location: text("/loc"), storage_options: None }))
    });
    assert_eq!(r.unwrap().0, "/loc");
}

#[test]
fn dropping_what_is_not_there_succeeds() {
    assert!(dropped_table("t", Ok(Ok(()))).is_ok());
    assert!(dropped_table("t", Ok(Err(DropTableFailure::NotFound("t".to_string())))).is_ok());
}

#[test]
fn drop_failures() {
    assert_eq!(
        failure(dropped_table("db$t", Ok(Err(DropTableFailure::Other("denied".to_string()))))),
        (ErrorCode::NamespaceDropTable, "namespace drop_table 'db$t': denied".to_string())
    );
    assert_eq!(
        failure(dropped_table("t", Err("down".to_string()))),
        (ErrorCode::Runtime, "runtime: down".to_string())
    );
}

#[test]
fn drop_request() {
    let r = drop_table_inner(arguments(), |call: ServiceCall<DropTableRequest>| {
        assert_config(&call.config);
        assert_eq!(call.request.id, vec!["db$t".to_string()]);
        Ok(Err(DropTableFailure::Other("denied".to_string())))
    });
    assert_eq!(failure(r).1, "namespace drop_table 'db$t': denied");
}

#[test]
fn described_schema_is_json() {
    let schema = models::JsonArrowSchema::new(vec![]);
    let mut resp = response(None, None);
    resp.schema = Some(schema.clone());
    let json = table_schema(Ok(Ok(resp))).unwrap();
    assert_eq!(json, "{\"fields\":[]}");
    assert_eq!(serde_json::from_str::<models::JsonArrowSchema>(&json).unwrap(), schema);
}

#[test]
fn described_schema_failures() {
    assert_eq!(
        failure(table_schema(Ok(Ok(response(Some("u"), None))))),
        (
            ErrorCode::NamespaceDescribeTable,
            "namespace describe_table: missing schema in response".to_string()
        )
    );
    assert_eq!(
        failure(table_schema(Ok(Err("404".to_string())))),
        (ErrorCode::NamespaceDescribeTable, "namespace describe_table: 404".to_string())
    );
    assert_eq!(
        failure(table_schema(Err("down".to_string()))),
        (ErrorCode::Runtime, "runtime: down".to_string())
    );
}

#[test]
fn described_schema_request() {
    let r = describe_table_with_schema_inner(arguments(), |call: ServiceCall<DescribeTableRequest>| {
        assert_config(&call.config);
        assert_eq!(call.request.id, vec!["db$t".to_string()]);
        assert_eq!(call.request.with_table_uri, Some(true));
        assert_eq!(call.request.load_detailed_metadata, Some(true));
        Err("down".to_string())
    });
    assert_eq!(failure(r).0, ErrorCode::Runtime);
}

#[test]
fn open_target_of_a_description() {
    let mut resp = response(Some("s3://uri"), Some("/loc"));
    resp.storage_options = Some(options());
    let target = open_target(Ok(Ok(resp))).unwrap();
    assert_eq!(target.table_uri, "s3://uri");
    assert_eq!(target.storage_options, options());
    let target = open_target(Ok(Ok(response(None, Some("/loc"))))).unwrap();
    assert_eq!(target.table_uri, "/loc");
    assert!(target.storage_options.is_empty());
    assert_eq!(
        failure(open_target(Ok(Ok(response(None, None))))),
        (
            ErrorCode::NamespaceDescribeTable,
            "namespace describe_table: missing location and table_uri".to_string()
        )
    );
    assert_eq!(
        failure(open_target(Ok(Err("404".to_string())))),
        (ErrorCode::NamespaceDescribeTable, "namespace describe_table: 404".to_string())
    );
    assert_eq!(
        failure(open_target(Err("down".to_string()))),
        (ErrorCode::Runtime, "runtime: down".to_string())
    );
}

#[test]
fn opened_dataset_outcomes() {
    let r = opened_dataset("u".to_string(), Ok(Ok(7)));
    assert_eq!(r.unwrap(), (7, "u".to_string()));
    assert_eq!(
        failure(opened_dataset::<i32>("s3://u".to_string(), Ok(Err("no such key".to_string())))),
        (ErrorCode::DatasetOpen, "dataset open 's3://u': no such key".to_string())
    );
    assert_eq!(
        failure(opened_dataset::<i32>("u".to_string(), Err("down".to_string()))),
        (ErrorCode::Runtime, "runtime: down".to_string())
    );
}

#[test]
fn open_request() {
    let r = open_dataset_in_namespace_inner(
        arguments(),
        |call: ServiceCall<DescribeTableRequest>| {
            assert_config(&call.config);
            assert_eq!(call.request.with_table_uri, Some(true));
            assert_eq!(call.request.load_detailed_metadata, None);
            let mut resp = response(Some("u"), Some("/loc"));
            resp.storage_options = Some(options());
            Ok(Ok(resp))
        },
        |target: OpenTarget| {
            assert_eq!(target.table_uri, "u");
            assert_eq!(target.storage_options, options());
            Ok(Ok("dataset"))
        },
    );
    assert_eq!(r.unwrap(), ("dataset", "u".to_string()));
}

#[test]
fn dataset_without_a_place_is_not_loaded() {
    let r = open_dataset_in_namespace_inner(
        arguments(),
        |_: ServiceCall<DescribeTableRequest>| Ok(Ok(response(None, None))),
        |_: OpenTarget| -> Result<Result<i32, String>, String> { panic!("loaded") },
    );
    assert_eq!(failure(r).0, ErrorCode::NamespaceDescribeTable);
}
