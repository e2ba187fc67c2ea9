use lance_namespace::models;
use lance_namespace_ffi::call::{read_arguments, CallArguments, NamespaceCall, NamespaceConfig};
use lance_namespace_ffi::error::{ErrorCode, FfiError};
use lance_namespace_ffi::list_tables::{
    list_tables_inner, listed_tables, prefetch_jobs, prefetched, JobReply, Listing, ListingStep,
    PrefetchJob, PAGE_LIMIT, PREFETCH_CONCURRENCY,
};
use lance_namespace_ffi::requests::{DescribeTableResponse, ListTablesResponse};

fn arguments<'a>(id: &'a str) -> CallArguments<'a> {
    CallArguments {
        endpoint: Ok("http://ns"),
        id: Ok(id),
        bearer_token: Some(Ok("tok")),
        api_key: None,
        delimiter: None,
        headers_tsv: None,
    }
}

fn checked(id: &str) -> NamespaceCall {
    read_arguments(arguments(id)).unwrap()
}

fn names(s: &[&str]) -> Vec<String> {
    s.iter().map(|n| n.to_string()).collect()
}

fn page(tables: &[&str], token: Option<&str>) -> Result<ListTablesResponse, String> {
    Ok(ListTablesResponse { tables: names(tables), page_token: token.map(|t| t.to_string()) })
}

fn next(step: ListingStep) -> Listing {
    match step {
        ListingStep::Next(listing) => listing,
        ListingStep::Complete(_) => panic!("complete"),
    }
}

fn complete(step: ListingStep) -> Vec<String> {
    match step {
        ListingStep::Next(_) => panic!("not complete"),
        ListingStep::Complete(names) => names,
    }
}

fn schema() -> models::JsonArrowSchema {
    models::JsonArrowSchema::new(vec![models::JsonArrowField::new(
        "id".to_string(),
        false,
        models::JsonArrowDataType::new("int64".to_string()),
    )])
}

fn described(schema: Option<models::JsonArrowSchema>) -> DescribeTableResponse {
    DescribeTableResponse { location: None, table_uri: None, schema, storage_options: None }
}

#[test]
fn limits() {
    assert_eq!(PREFETCH_CONCURRENCY, 10);
    assert_eq!(PAGE_LIMIT, 1000);
}

#[test]
fn request_for_a_namespace() {
    let r = Listing::start("db".to_string()).request();
    assert_eq!(r.id, names(&["db"]));
    assert_eq!(r.page_token, None);
    assert_eq!(r.limit, 1000);
}

#[test]
fn request_for_the_root() {
    let r = Listing::start(String::new()).request();
    assert!(r.id.is_empty());
}

#[test]
fn pages_are_collected_in_order() {
    let l = Listing::start("db".to_string());
    let l = next(l.advance(page(&["b", "a"], Some("p2"))).unwrap());
    assert_eq!(l.request().page_token, Some("p2".to_string()));
    assert_eq!(l.request().id, names(&["db"]));
    let l = next(l.advance(page(&[], Some("p3"))).unwrap());
    assert_eq!(l.request().page_token, Some("p3".to_string()));
    assert_eq!(complete(l.advance(page(&["a"], None)).unwrap()), names(&["b", "a", "a"]));
}

#[test]
fn empty_token_ends_the_listing() {
    let l = Listing::start("db".to_string());
    assert_eq!(complete(l.advance(page(&["t"], Some(""))).unwrap()), names(&["t"]));
}

#[test]
fn failed_page() {
    let e = Listing::start("db".to_string()).advance(Err("boom".to_string()));
    match e {
        Err(e) => {
            assert_eq!(e.code, ErrorCode::NamespaceListTables);
            assert_eq!(e.message, "namespace list_tables: boom");
        }
        Ok(_) => panic!("no error"),
    }
}

#[test]
fn one_job_for_each_table() {
    let jobs = prefetch_jobs(&checked("db"), &names(&["b", "a"]));
    assert_eq!(jobs.len(), 2);
    assert_eq!(jobs[0].table_name, "b");
    assert_eq!(jobs[1].table_name, "a");
    assert_eq!(jobs[1].request.id, names(&["a"]));
    assert_eq!(jobs[1].request.with_table_uri, None);
    assert_eq!(jobs[1].request.load_detailed_metadata, Some(true));
    assert_eq!(jobs[1].config.endpoint, "http://ns");
    assert_eq!(jobs[1].config.delimiter, Some("$".to_string()));
    assert_eq!(
        jobs[1].config.headers,
        vec![("Authorization".to_string(), "Bearer tok".to_string())]
    );
}

#[test]
fn reply_to_a_job() {
    let text = prefetched(&Ok(described(Some(schema())))).unwrap();
    assert_eq!(serde_json::from_str::<models::JsonArrowSchema>(&text).unwrap(), schema());
    assert_eq!(prefetched(&Ok(described(None))), None);
    assert_eq!(prefetched(&Err("gone".to_string())), None);
}

fn with_schema() -> JobReply {
    Some(Ok(described(Some(schema()))))
}

fn without_schema() -> JobReply {
    Some(Ok(described(None)))
}

const SCHEMA_JSON: &str =
    "{\"fields\":[{\"name\":\"id\",\"nullable\":false,\"type\":{\"type\":\"int64\"}}]}";

#[test]
fn entries_of_a_listing() {
    let replies = vec![with_schema(), None, without_schema(), Some(Err("gone".to_string()))];
    assert_eq!(
        listed_tables(&names(&["a", "x", "b", "c"]), Ok(replies)).unwrap(),
        vec![format!("a\t{SCHEMA_JSON}"), "b".to_string(), "c".to_string()]
    );
}

#[test]
fn listing_keeps_tables_in_order() {
    let replies = vec![without_schema(), without_schema(), without_schema()];
    assert_eq!(
        listed_tables(&names(&["z", "a", "z"]), Ok(replies)).unwrap(),
        names(&["z", "a", "z"])
    );
}

#[test]
fn job_without_a_reply_is_left_out() {
    let listed = listed_tables(&names(&["a", "b"]), Ok(vec![without_schema()]));
    assert_eq!(listed.unwrap(), names(&["a"]));
    let replies = vec![without_schema(), without_schema()];
    assert_eq!(listed_tables(&names(&["a"]), Ok(replies)).unwrap(), names(&["a"]));
}

#[test]
fn listing_failures() {
    let e = listed_tables(&names(&["a"]), Err("no threads".to_string())).unwrap_err();
    assert_eq!(e.code, ErrorCode::Runtime);
    assert_eq!(e.message, "runtime: no threads");
    let r = list_tables_inner(
        arguments("db"),
        |_: NamespaceConfig, listing: Listing| match listing.advance(Err("x".to_string())) {
            Err(e) => Ok(Err(e)),
            Ok(_) => panic!("no error"),
        },
        |_: Vec<PrefetchJob>| panic!("described"),
    );
    let e = r.unwrap_err();
    assert_eq!(e.code, ErrorCode::NamespaceListTables);
    assert_eq!(e.message, "namespace list_tables: x");
    let r = list_tables_inner(
        arguments("db"),
        |_: NamespaceConfig, _: Listing| Err("down".to_string()),
        |_: Vec<PrefetchJob>| panic!("described"),
    );
    let e = r.unwrap_err();
    assert_eq!(e.code, ErrorCode::Runtime);
    assert_eq!(e.message, "runtime: down");
}

#[test]
fn pages_to_entries() {
    let r = list_tables_inner(
        arguments("db"),
        |config: NamespaceConfig, listing: Listing| {
            assert_eq!(config.endpoint, "http://ns");
            assert_eq!(config.delimiter, Some("$".to_string()));
            assert_eq!(
                config.headers,
                vec![("Authorization".to_string(), "Bearer tok".to_string())]
            );
            assert_eq!(listing.namespace_id, "db");
            assert!(listing.table_names.is_empty());
            let listing = next(listing.advance(page(&["b", "x"], Some("2"))).unwrap());
            Ok(Ok(complete(listing.advance(page(&["a"], None)).unwrap())))
        },
        |jobs: Vec<PrefetchJob>| {
            let described: Vec<&str> = jobs.iter().map(|job| job.table_name.as_str()).collect();
            assert_eq!(described, vec!["b", "x", "a"]);
            assert_eq!(jobs[2].request.id, names(&["a"]));
            assert_eq!(jobs[2].config.endpoint, "http://ns");
            Ok(vec![with_schema(), None, without_schema()])
        },
    );
    assert_eq!(r.unwrap(), vec![format!("b\t{SCHEMA_JSON}"), "a".to_string()]);
}

#[test]
fn listing_with_a_wrong_argument_is_not_fetched() {
    let mut args = arguments("db");
    args.headers_tsv = Some(Err(FfiError::new(ErrorCode::Utf8, "headers_tsv".to_string())));
    let r = list_tables_inner(
        args,
        |_: NamespaceConfig, _: Listing| panic!("listed"),
        |_: Vec<PrefetchJob>| panic!("described"),
    );
    assert_eq!(r.unwrap_err().code, ErrorCode::Utf8);
}

#[test]
fn listing_is_read_back() {
    let replies = vec![with_schema(), without_schema()];
    let text = listed_tables(&names(&["a", "b"]), Ok(replies)).unwrap().join("\n");
    let back: Vec<(&str, Option<&str>)> = text
        .split('\n')
        .map(|line| match line.split_once('\t') {
            Some((name, schema)) => (name, Some(schema)),
            None => (line, None),
        })
        .collect();
    assert_eq!(back, vec![("a", Some(SCHEMA_JSON)), ("b", None)]);
}

#[test]
fn absent_arguments_are_alike() {
    let run = |args: CallArguments| {
        let mut sent: Vec<(String, Vec<(String, String)>, Option<String>)> = vec![];
        let mut jobs_run: Vec<(String, Option<String>)> = vec![];
        let r = list_tables_inner(
            args,
            |config: NamespaceConfig, _: Listing| {
                sent.push((config.endpoint, config.headers, config.delimiter));
                Ok(Ok(names(&["a", "b"])))
            },
            |jobs: Vec<PrefetchJob>| {
                jobs_run = jobs.into_iter().map(|job| (job.table_name, job.config.delimiter)).collect();
                Ok(vec![with_schema(), None])
            },
        );
        (r.unwrap(), sent, jobs_run)
    };
    let plain = || CallArguments { bearer_token: None, ..arguments("db") };
    let expected = run(plain());
    let empty = CallArguments {
        bearer_token: Some(Ok("")),
        api_key: Some(Ok("")),
        delimiter: Some(Ok("")),
        headers_tsv: Some(Ok("")),
        ..plain()
    };
    assert_eq!(run(empty), expected);
    assert_eq!(run(CallArguments { delimiter: Some(Ok("$")), ..plain() }), expected);
    assert_ne!(run(CallArguments { delimiter: Some(Ok("/")), ..plain() }), expected);
}
