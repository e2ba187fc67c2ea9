use lance_namespace_ffi::call::{
    build_config, optional_cstr_to_string, read_arguments, CallArguments, NamespaceConfig,
};
use lance_namespace_ffi::error::{ErrorCode, FfiError, FfiResult};

fn pair(k: &str, v: &str) -> (String, String) {
    (k.to_string(), v.to_string())
}

fn bad(what: &str) -> FfiError {
    FfiError::new(ErrorCode::InvalidArgument, what.to_string())
}

fn plain<'a>() -> CallArguments<'a> {
    CallArguments {
        endpoint: Ok("http://ns"),
        id: Ok("db$t"),
        bearer_token: None,
        api_key: None,
        delimiter: None,
        headers_tsv: None,
    }
}

fn message(r: FfiResult<lance_namespace_ffi::call::NamespaceCall>) -> String {
    match r {
        Ok(_) => "ok".to_string(),
        Err(e) => e.message,
    }
}

#[test]
fn optional_argument_null_and_empty_are_absent() {
    assert_eq!(optional_cstr_to_string(None).unwrap(), None);
    assert_eq!(optional_cstr_to_string(Some(Ok(""))).unwrap(), None);
    assert_eq!(optional_cstr_to_string(Some(Ok("x"))).unwrap(), Some("x".to_string()));
}

#[test]
fn optional_argument_error_is_handed_on() {
    let e = optional_cstr_to_string(Some(Err(bad("api_key")))).unwrap_err();
    assert_eq!(e.code, ErrorCode::InvalidArgument);
    assert_eq!(e.message, "api_key");
}

#[test]
fn delimiter_defaults_to_dollar() {
    assert_eq!(read_arguments(plain()).unwrap().delimiter, "$");
    let empty = CallArguments { delimiter: Some(Ok("")), ..plain() };
    assert_eq!(read_arguments(empty).unwrap().delimiter, "$");
    let given = CallArguments { delimiter: Some(Ok(".")), ..plain() };
    assert_eq!(read_arguments(given).unwrap().delimiter, ".");
}

#[test]
fn empty_endpoint_and_id_are_kept() {
    let args = CallArguments { endpoint: Ok(""), id: Ok(""), ..plain() };
    let call = read_arguments(args).unwrap();
    assert_eq!(call.endpoint, "");
    assert_eq!(call.id, "");
}

#[test]
fn first_wrong_argument_is_reported() {
    let all = || CallArguments {
        endpoint: Err(bad("endpoint")),
        id: Err(bad("id")),
        bearer_token: Some(Err(bad("bearer_token"))),
        api_key: Some(Err(bad("api_key"))),
        delimiter: Some(Err(bad("delimiter"))),
        headers_tsv: Some(Err(bad("headers_tsv"))),
    };
    assert_eq!(message(read_arguments(all())), "endpoint");
    let a = CallArguments { endpoint: Ok("e"), ..all() };
    assert_eq!(message(read_arguments(a)), "id");
    let a = CallArguments { endpoint: Ok("e"), id: Ok("t"), ..all() };
    assert_eq!(message(read_arguments(a)), "delimiter");
    let a = CallArguments { endpoint: Ok("e"), id: Ok("t"), delimiter: None, ..all() };
    assert_eq!(message(read_arguments(a)), "bearer_token");
    let a = CallArguments { bearer_token: None, delimiter: None, endpoint: Ok("e"), id: Ok("t"), ..all() };
    assert_eq!(message(read_arguments(a)), "api_key");
    let a = CallArguments { headers_tsv: Some(Err(bad("headers_tsv"))), ..plain() };
    assert_eq!(message(read_arguments(a)), "headers_tsv");
}

#[test]
fn config_without_credentials() {
    let c = build_config("http://ns", None, None, None);
    assert_eq!(c.endpoint, "http://ns");
    assert!(c.headers.is_empty());
    assert_eq!(c.delimiter, None);
}

#[test]
fn config_headers_in_order() {
    let c = build_config("e", Some("tok"), Some("key"), Some("x-a\t1\nAuthorization\tother"));
    assert_eq!(
        c.headers,
        vec![
            pair("Authorization", "Bearer tok"),
            pair("x-api-key", "key"),
            pair("x-a", "1"),
            pair("Authorization", "other"),
        ]
    );
}

#[test]
fn config_of_a_call() {
    let args = CallArguments {
        bearer_token: Some(Ok("tok")),
        api_key: Some(Ok("")),
        headers_tsv: Some(Ok("a\tb")),
        delimiter: Some(Ok("/")),
        ..plain()
    };
    let c = read_arguments(args).unwrap().config();
    assert_eq!(c.endpoint, "http://ns");
    assert_eq!(c.headers, vec![pair("Authorization", "Bearer tok"), pair("a", "b")]);
    assert_eq!(c.delimiter, Some("/".to_string()));
}

#[test]
fn config_is_built_step_by_step() {
    let c = NamespaceConfig::new("e")
        .header("k".to_string(), "v".to_string())
        .with_delimiter(":".to_string());
    assert_eq!(c.endpoint, "e");
    assert_eq!(c.headers, vec![pair("k", "v")]);
    assert_eq!(c.delimiter, Some(":".to_string()));
}
