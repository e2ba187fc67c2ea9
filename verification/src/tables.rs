//! Describing, declaring, dropping and opening a single table.
//!
//! A call reaches the service, or loads a dataset, through closures. It needs of them only that
//! they accept what it hands them when all went well so far; so where an argument or an earlier
//! step fails, they are not called.

use crate::call::{
    first_error, is_config_for, law_absent_arguments_are_alike, read_arguments, same_arguments,
    CallArguments, ServiceCall,
};
use crate::error::{
    error_of, failure, runtime_error, runtime_failure, ErrorCode, Failure, FfiError, FfiResult,
};
use crate::json::{is_text_of, schema_text};
use crate::requests::{
    DeclareTableRequest, DeclareTableResponse, DescribeTableRequest, DescribeTableResponse,
    DropTableFailure, DropTableRequest,
};
use crate::text::{concat, optional_text, texts};
use crate::tsv::{sorted_entries, storage_options_to_tsv, text_map, tsv_text};
use lance_namespace::models;
use std::collections::HashMap;
use vstd::prelude::*;

verus! {

/// How a request went. `Err`: the runtime failed to run it, with this text. Else the reply of the
/// service, or its error.
pub type Reply<T, E> = Result<Result<T, E>, String>;

/// A dataset to open: where it is, and the options of its storage.
pub struct OpenTarget {
    pub table_uri: String,
    pub storage_options: HashMap<String, String>,
}

/// Where a described table is: its URI, or else its location.
pub open spec fn described_place(response: DescribeTableResponse) -> Option<Seq<char>> {
    if response.table_uri is Some {
        optional_text(response.table_uri)
    } else {
        optional_text(response.location)
    }
}

/// Storage options as text; without options it is empty.
pub open spec fn options_text(options: Option<HashMap<String, String>>) -> Seq<char> {
    match options {
        Some(m) => tsv_text(sorted_entries(text_map(m@))),
        None => Seq::empty(),
    }
}

/// The failure to describe a table, as an error of kind `code`.
pub open spec fn describe_failure(code: ErrorCode, text: Seq<char>) -> Failure {
    failure(code, "namespace describe_table: "@, text)
}

/// The place of a table and its storage options that the reply to a description comes to.
pub open spec fn described_info(reply: Reply<DescribeTableResponse, String>) -> Result<
    (Seq<char>, Seq<char>),
    Failure,
> {
    match reply {
        Err(text) => Err(runtime_failure(text@)),
        Ok(Err(text)) => Err(describe_failure(ErrorCode::NamespaceDescribeTableInfo, text@)),
        Ok(Ok(response)) => match described_place(response) {
            Some(place) => Ok((place, options_text(response.storage_options))),
            None => Err(
                describe_failure(
                    ErrorCode::NamespaceDescribeTableInfo,
                    "missing location and table_uri"@,
                ),
            ),
        },
    }
}

/// The place of a table and its storage options that the reply to a declaration comes to.
pub open spec fn declared_info(reply: Reply<DeclareTableResponse, String>) -> Result<
    (Seq<char>, Seq<char>),
    Failure,
> {
    match reply {
        Err(text) => Err(runtime_failure(text@)),
        Ok(Err(text)) => Err(
            failure(ErrorCode::NamespaceCreateEmptyTable, "namespace declare_table: "@, text@),
        ),
        Ok(Ok(response)) => match response.location {
            Some(location) => Ok((location@, options_text(response.storage_options))),
            None => Err(
                failure(
                    ErrorCode::NamespaceCreateEmptyTable,
                    "namespace declare_table: "@,
                    "missing location"@,
                ),
            ),
        },
    }
}

/// What the reply to a drop comes to: a table that was not there counts as dropped.
pub open spec fn dropped(table_id: Seq<char>, reply: Reply<(), DropTableFailure>) -> Result<
    (),
    Failure,
> {
    match reply {
        Err(text) => Err(runtime_failure(text@)),
        Ok(Err(DropTableFailure::Other(text))) => Err(
            failure(
                ErrorCode::NamespaceDropTable,
                "namespace drop_table '"@ + table_id + "': "@,
                text@,
            ),
        ),
        Ok(Err(DropTableFailure::NotFound(_))) => Ok(()),
        Ok(Ok(_)) => Ok(()),
    }
}

/// The schema that the reply to a description comes to.
pub open spec fn described_schema(reply: Reply<DescribeTableResponse, String>) -> Result<
    models::JsonArrowSchema,
    Failure,
> {
    match reply {
        Err(text) => Err(runtime_failure(text@)),
        Ok(Err(text)) => Err(describe_failure(ErrorCode::NamespaceDescribeTable, text@)),
        Ok(Ok(response)) => match response.schema {
            Some(schema) => Ok(schema),
            None => Err(
                describe_failure(
                    ErrorCode::NamespaceDescribeTable,
                    "missing schema in response"@,
                ),
            ),
        },
    }
}

/// Where the dataset of a described table is, and the options of its storage if the reply has any.
pub open spec fn described_target(reply: Reply<DescribeTableResponse, String>) -> Result<
    (Seq<char>, Option<HashMap<String, String>>),
    Failure,
> {
    match reply {
        Err(text) => Err(runtime_failure(text@)),
        Ok(Err(text)) => Err(describe_failure(ErrorCode::NamespaceDescribeTable, text@)),
        Ok(Ok(response)) => match described_place(response) {
            Some(place) => Ok((place, response.storage_options)),
            None => Err(
                describe_failure(
                    ErrorCode::NamespaceDescribeTable,
                    "missing location and table_uri"@,
                ),
            ),
        },
    }
}

/// Whether `target` is at `place`, with these options; without options it has none.
pub open spec fn is_target(
    target: OpenTarget,
    place: Seq<char>,
    options: Option<HashMap<String, String>>,
) -> bool {
    &&& target.table_uri@ == place
    &&& match options {
        Some(m) => target.storage_options == m,
        None => target.storage_options@ == Map::<String, String>::empty(),
    }
}

/// The dataset and its URI that loading it from `table_uri` comes to.
pub open spec fn opened<D>(table_uri: Seq<char>, reply: Reply<D, String>) -> Result<
    (D, Seq<char>),
    Failure,
> {
    match reply {
        Err(text) => Err(runtime_failure(text@)),
        Ok(Err(text)) => Err(
            failure(ErrorCode::DatasetOpen, "dataset open '"@ + table_uri + "': "@, text@),
        ),
        Ok(Ok(dataset)) => Ok((dataset, table_uri)),
    }
}

/// The identifier of the table `table_id`.
fn single_id(table_id: String) -> (r: Vec<String>)
    ensures
        texts(r@) == seq![table_id@],
{
    let mut id: Vec<String> = Vec::new();
    id.push(table_id);
    assert(texts(id@) =~= seq![table_id@]);
    id
}

/// Whether `id` is the identifier of the table that the arguments of a call name.
pub open spec fn is_id_for(id: Seq<String>, args: CallArguments<'_>) -> bool {
    args.id matches Ok(s) && texts(id) == seq![s@]
}

/// Whether `call` asks for the place of the table that the arguments name.
pub open spec fn is_info_call(
    call: ServiceCall<DescribeTableRequest>,
    args: CallArguments<'_>,
) -> bool {
    &&& is_config_for(call.config, args)
    &&& is_id_for(call.request.id@, args)
    &&& call.request.with_table_uri == Some(true)
    &&& call.request.load_detailed_metadata is None
}

/// Whether `call` asks for the schema of the table that the arguments name.
pub open spec fn is_schema_call(
    call: ServiceCall<DescribeTableRequest>,
    args: CallArguments<'_>,
) -> bool {
    &&& is_config_for(call.config, args)
    &&& is_id_for(call.request.id@, args)
    &&& call.request.with_table_uri == Some(true)
    &&& call.request.load_detailed_metadata == Some(true)
}

/// Whether `call` declares the table that the arguments name.
pub open spec fn is_declare_call(
    call: ServiceCall<DeclareTableRequest>,
    args: CallArguments<'_>,
) -> bool {
    is_config_for(call.config, args) && is_id_for(call.request.id@, args)
}

/// Whether `call` drops the table that the arguments name.
pub open spec fn is_drop_call(
    call: ServiceCall<DropTableRequest>,
    args: CallArguments<'_>,
) -> bool {
    is_config_for(call.config, args) && is_id_for(call.request.id@, args)
}

/// A call that asks for the place of a table, or the first error among the arguments.
fn info_call(args: CallArguments<'_>) -> (r: FfiResult<ServiceCall<DescribeTableRequest>>)
    ensures
        match first_error(args) {
            Some(e) => r == Err::<ServiceCall<DescribeTableRequest>, FfiError>(e),
            None => r matches Ok(call) && is_info_call(call, args),
        },
{
    match read_arguments(args) {
        Ok(call) => Ok(
            ServiceCall {
                config: call.config(),
                request: DescribeTableRequest {
                    id: single_id(call.id),
                    with_table_uri: Some(true),
                    load_detailed_metadata: None,
                },
            },
        ),
        Err(e) => Err(e),
    }
}

/// Storage options as text.
fn optional_options_to_tsv(options: Option<HashMap<String, String>>) -> (r: String)
    ensures
        r@ == options_text(options),
{
    match options {
        Some(m) => storage_options_to_tsv(m),
        None => String::new(),
    }
}

/// The URI of a described table, or else its location; without either, an error of kind `code`.
fn place_of(
    table_uri: Option<String>,
    location: Option<String>,
    code: ErrorCode,
) -> (r: FfiResult<String>)
    ensures
        match (table_uri, location) {
            (Some(u), _) => r == Ok::<String, FfiError>(u),
            (None, Some(l)) => r == Ok::<String, FfiError>(l),
            (None, None) => r matches Err(e) && e@ == describe_failure(
                code,
                "missing location and table_uri"@,
            ),
        },
{
    match table_uri {
        Some(u) => Ok(u),
        None => match location {
            Some(l) => Ok(l),
            None => Err(
                error_of(code, "namespace describe_table: ", "missing location and table_uri"),
            ),
        },
    }
}

/// Whether a result is a place and storage options as `expected` says.
pub open spec fn is_info(
    r: FfiResult<(String, String)>,
    expected: Result<(Seq<char>, Seq<char>), Failure>,
) -> bool {
    match (r, expected) {
        (Ok(x), Ok(v)) => x.0@ == v.0 && x.1@ == v.1,
        (Err(e), Err(f)) => e@ == f,
        _ => false,
    }
}

/// The place of a described table and its storage options as text.
pub fn table_info(reply: Reply<DescribeTableResponse, String>) -> (r: FfiResult<(String, String)>)
    ensures
        is_info(r, described_info(reply)),
{
    match reply {
        Err(text) => Err(runtime_error(text.as_str())),
        Ok(Err(text)) => Err(
            error_of(
                ErrorCode::NamespaceDescribeTableInfo,
                "namespace describe_table: ",
                text.as_str(),
            ),
        ),
        Ok(Ok(response)) => {
            match place_of(
                response.table_uri,
                response.location,
                ErrorCode::NamespaceDescribeTableInfo,
            ) {
                Ok(location) => Ok((location, optional_options_to_tsv(response.storage_options))),
                Err(e) => Err(e),
            }
        },
    }
}

/// Describes a table, sending the request through `send`: where it is, and its storage options.
pub fn describe_table_info_inner<F>(args: CallArguments<'_>, send: F) -> (r: FfiResult<
    (String, String),
>) where F: FnOnce(ServiceCall<DescribeTableRequest>) -> Reply<DescribeTableResponse, String>
    requires
        first_error(args) is None ==> forall|call: ServiceCall<DescribeTableRequest>|
            is_info_call(call, args) ==> #[trigger] send.requires((call,)),
    ensures
        match first_error(args) {
            Some(e) => r == Err::<(String, String), FfiError>(e),
            None => exists|
                call: ServiceCall<DescribeTableRequest>,
                reply: Reply<DescribeTableResponse, String>,
            | #[trigger]
                send.ensures((call,), reply) && is_info_call(call, args) && is_info(
                    r,
                    described_info(reply),
                ),
        },
{
    match info_call(args) {
        Ok(call) => {
            let reply = send(call);
            assert(send.ensures((call,), reply));
            table_info(reply)
        },
        Err(e) => Err(e),
    }
}

/// The place of a newly declared table and its storage options as text.
pub fn declared_table(reply: Reply<DeclareTableResponse, String>) -> (r: FfiResult<
    (String, String),
>)
    ensures
        is_info(r, declared_info(reply)),
{
    match reply {
        Err(text) => Err(runtime_error(text.as_str())),
        Ok(Err(text)) => Err(
            error_of(
                ErrorCode::NamespaceCreateEmptyTable,
                "namespace declare_table: ",
                text.as_str(),
            ),
        ),
        Ok(Ok(response)) => match response.location {
            Some(location) => Ok((location, optional_options_to_tsv(response.storage_options))),
            None => Err(
                error_of(
                    ErrorCode::NamespaceCreateEmptyTable,
                    "namespace declare_table: ",
                    "missing location",
                ),
            ),
        },
    }
}

/// Declares a table, sending the request through `send`: where it is to be, and its storage
/// options.
pub fn create_empty_table_inner<F>(args: CallArguments<'_>, send: F) -> (r: FfiResult<
    (String, String),
>) where F: FnOnce(ServiceCall<DeclareTableRequest>) -> Reply<DeclareTableResponse, String>
    requires
        first_error(args) is None ==> forall|call: ServiceCall<DeclareTableRequest>|
            is_declare_call(call, args) ==> #[trigger] send.requires((call,)),
    ensures
        match first_error(args) {
            Some(e) => r == Err::<(String, String), FfiError>(e),
            None => exists|
                call: ServiceCall<DeclareTableRequest>,
                reply: Reply<DeclareTableResponse, String>,
            | #[trigger]
                send.ensures((call,), reply) && is_declare_call(call, args) && is_info(
                    r,
                    declared_info(reply),
                ),
        },
{
    match read_arguments(args) {
        Ok(checked) => {
            let call = ServiceCall {
                config: checked.config(),
                request: DeclareTableRequest { id: single_id(checked.id) },
            };
            let reply = send(call);
            assert(send.ensures((call,), reply));
            declared_table(reply)
        },
        Err(e) => Err(e),
    }
}

/// Whether a result without a value is as `expected` says.
pub open spec fn is_done(r: FfiResult<()>, expected: Result<(), Failure>) -> bool {
    match (r, expected) {
        (Ok(_), Ok(_)) => true,
        (Err(e), Err(f)) => e@ == f,
        _ => false,
    }
}

/// Whether the table `table_id` is gone.
pub fn dropped_table(table_id: &str, reply: Reply<(), DropTableFailure>) -> (r: FfiResult<()>)
    ensures
        is_done(r, dropped(table_id@, reply)),
{
    match reply {
        Err(text) => Err(runtime_error(text.as_str())),
        Ok(Err(DropTableFailure::Other(text))) => {
            let heading = concat("namespace drop_table '", table_id).concat("': ");
            Err(error_of(ErrorCode::NamespaceDropTable, heading.as_str(), text.as_str()))
        },
        Ok(Err(DropTableFailure::NotFound(_))) => Ok(()),
        Ok(Ok(_)) => Ok(()),
    }
}

/// Drops a table, sending the request through `send`.
pub fn drop_table_inner<F>(args: CallArguments<'_>, send: F) -> (r: FfiResult<()>) where
    F: FnOnce(ServiceCall<DropTableRequest>) -> Reply<(), DropTableFailure>

    requires
        first_error(args) is None ==> forall|call: ServiceCall<DropTableRequest>|
            is_drop_call(call, args) ==> #[trigger] send.requires((call,)),
    ensures
        match first_error(args) {
            Some(e) => r == Err::<(), FfiError>(e),
            None => exists|
                call: ServiceCall<DropTableRequest>,
                reply: Reply<(), DropTableFailure>,
            | #[trigger]
                send.ensures((call,), reply) && is_drop_call(call, args) && is_done(
                    r,
                    dropped(args.id->Ok_0@, reply),
                ),
        },
{
    match read_arguments(args) {
        Ok(checked) => {
            let call = ServiceCall {
                config: checked.config(),
                request: DropTableRequest { id: single_id(checked.id.clone()) },
            };
            let reply = send(call);
            assert(send.ensures((call,), reply));
            dropped_table(checked.id.as_str(), reply)
        },
        Err(e) => Err(e),
    }
}

/// Whether a result is a JSON form of the schema that `expected` holds, or its failure.
pub open spec fn is_schema_json(
    r: FfiResult<String>,
    expected: Result<models::JsonArrowSchema, Failure>,
) -> bool {
    match (r, expected) {
        (Ok(t), Ok(schema)) => is_text_of(t@, schema),
        (Err(e), Err(f)) => e@ == f,
        _ => false,
    }
}

/// The schema of a described table as JSON.
pub fn table_schema(reply: Reply<DescribeTableResponse, String>) -> (r: FfiResult<String>)
    ensures
        is_schema_json(r, described_schema(reply)),
{
    match reply {
        Err(text) => Err(runtime_error(text.as_str())),
        Ok(Err(text)) => Err(
            error_of(
                ErrorCode::NamespaceDescribeTable,
                "namespace describe_table: ",
                text.as_str(),
            ),
        ),
        Ok(Ok(response)) => match response.schema {
            Some(schema) => match schema_text(&schema) {
                Ok(text) => Ok(text),
                Err(text) => Err(
                    error_of(
                        ErrorCode::SchemaExport,
                        "failed to serialize schema: ",
                        text.as_str(),
                    ),
                ),
            },
            None => Err(
                error_of(
                    ErrorCode::NamespaceDescribeTable,
                    "namespace describe_table: ",
                    "missing schema in response",
                ),
            ),
        },
    }
}

/// Describes a table with its schema, sending the request through `send`; the schema is JSON. The
/// dataset itself is not opened.
pub fn describe_table_with_schema_inner<F>(args: CallArguments<'_>, send: F) -> (r: FfiResult<
    String,
>) where F: FnOnce(ServiceCall<DescribeTableRequest>) -> Reply<DescribeTableResponse, String>
    requires
        first_error(args) is None ==> forall|call: ServiceCall<DescribeTableRequest>|
            is_schema_call(call, args) ==> #[trigger] send.requires((call,)),
    ensures
        match first_error(args) {
            Some(e) => r == Err::<String, FfiError>(e),
            None => exists|
                call: ServiceCall<DescribeTableRequest>,
                reply: Reply<DescribeTableResponse, String>,
            | #[trigger]
                send.ensures((call,), reply) && is_schema_call(call, args) && is_schema_json(
                    r,
                    described_schema(reply),
                ),
        },
{
    match read_arguments(args) {
        Ok(checked) => {
            let call = ServiceCall {
                config: checked.config(),
                request: DescribeTableRequest {
                    id: single_id(checked.id),
                    with_table_uri: Some(true),
                    load_detailed_metadata: Some(true),
                },
            };
            let reply = send(call);
            assert(send.ensures((call,), reply));
            table_schema(reply)
        },
        Err(e) => Err(e),
    }
}

/// Where the dataset of a described table is and how to open it.
pub fn open_target(reply: Reply<DescribeTableResponse, String>) -> (r: FfiResult<OpenTarget>)
    ensures
        match (r, described_target(reply)) {
            (Ok(target), Ok(v)) => is_target(target, v.0, v.1),
            (Err(e), Err(f)) => e@ == f,
            _ => false,
        },
{
    match reply {
        Err(text) => Err(runtime_error(text.as_str())),
        Ok(Err(text)) => Err(
            error_of(
                ErrorCode::NamespaceDescribeTable,
                "namespace describe_table: ",
                text.as_str(),
            ),
        ),
        Ok(Ok(response)) => {
            match place_of(
                response.table_uri,
                response.location,
                ErrorCode::NamespaceDescribeTable,
            ) {
                Ok(table_uri) => {
                    let storage_options = match response.storage_options {
                        Some(m) => m,
                        None => HashMap::new(),
                    };
                    Ok(OpenTarget { table_uri, storage_options })
                },
                Err(e) => Err(e),
            }
        },
    }
}

/// Whether a result is a dataset and its URI as `expected` says.
pub open spec fn is_opened<D>(
    r: FfiResult<(D, String)>,
    expected: Result<(D, Seq<char>), Failure>,
) -> bool {
    match (r, expected) {
        (Ok(x), Ok(v)) => x.0 == v.0 && x.1@ == v.1,
        (Err(e), Err(f)) => e@ == f,
        _ => false,
    }
}

/// The dataset that was loaded from `table_uri`, and that URI.
pub fn opened_dataset<D>(table_uri: String, reply: Reply<D, String>) -> (r: FfiResult<(D, String)>)
    ensures
        is_opened(r, opened(table_uri@, reply)),
{
    match reply {
        Err(text) => Err(runtime_error(text.as_str())),
        Ok(Err(text)) => {
            let heading = concat("dataset open '", table_uri.as_str()).concat("': ");
            Err(error_of(ErrorCode::DatasetOpen, heading.as_str(), text.as_str()))
        },
        Ok(Ok(dataset)) => Ok((dataset, table_uri)),
    }
}

/// Opens the dataset of a table: describes the table through `send`, then has `load` load the
/// dataset from where the reply says it is.
pub fn open_dataset_in_namespace_inner<D, F, G>(
    args: CallArguments<'_>,
    send: F,
    load: G,
) -> (r: FfiResult<(D, String)>) where
    F: FnOnce(ServiceCall<DescribeTableRequest>) -> Reply<DescribeTableResponse, String>,
    G: FnOnce(OpenTarget) -> Reply<D, String>,

    requires
        first_error(args) is None ==> forall|call: ServiceCall<DescribeTableRequest>|
            is_info_call(call, args) ==> #[trigger] send.requires((call,)),
        first_error(args) is None ==> forall|
            call: ServiceCall<DescribeTableRequest>,
            reply: Reply<DescribeTableResponse, String>,
            target: OpenTarget,
        |
            #[trigger] send.ensures((call,), reply) && is_info_call(call, args) && (
            described_target(reply) matches Ok(v) && is_target(target, v.0, v.1))
                ==> #[trigger] load.requires((target,)),
    ensures
        match first_error(args) {
            Some(e) => r == Err::<(D, String), FfiError>(e),
            None => exists|
                call: ServiceCall<DescribeTableRequest>,
                reply: Reply<DescribeTableResponse, String>,
            | #[trigger]
                send.ensures((call,), reply) && is_info_call(call, args) && match described_target(
                    reply,
                ) {
                    Err(f) => is_opened(r, Err(f)),
                    Ok(v) => exists|target: OpenTarget, loaded: Reply<D, String>| #[trigger]
                        load.ensures((target,), loaded) && is_target(target, v.0, v.1)
                            && is_opened(r, opened(v.0, loaded)),
                },
        },
{
    match info_call(args) {
        Ok(call) => {
            let reply = send(call);
            assert(send.ensures((call,), reply));
            match open_target(reply) {
                Ok(target) => {
                    let table_uri = target.table_uri.clone();
                    let loaded = load(target);
                    assert(load.ensures((target,), loaded));
                    opened_dataset(table_uri, loaded)
                },
                Err(e) => Err(e),
            }
        },
        Err(e) => Err(e),
    }
}

/// For the calls on a table, null and empty optional arguments mean the same, and a missing
/// delimiter means `$`: the arguments fail with the same error, or the same requests are sent.
pub proof fn law_table_calls_ignore_absent_arguments(a: CallArguments<'_>, b: CallArguments<'_>)
    requires
        same_arguments(a, b),
    ensures
        first_error(a) == first_error(b),
        forall|call: ServiceCall<DescribeTableRequest>|
            is_info_call(call, a) <==> is_info_call(call, b),
        forall|call: ServiceCall<DescribeTableRequest>|
            is_schema_call(call, a) <==> is_schema_call(call, b),
        forall|call: ServiceCall<DeclareTableRequest>|
            is_declare_call(call, a) <==> is_declare_call(call, b),
        forall|call: ServiceCall<DropTableRequest>|
            is_drop_call(call, a) <==> is_drop_call(call, b),
        first_error(a) is None ==> a.id->Ok_0@ == b.id->Ok_0@,
{
    law_absent_arguments_are_alike(a, b);
}

/// The place of a described table is its URI whenever there is one, and else its location; its
/// storage options are those of the reply, whichever of the two gives the place. Only a reply with
/// neither is a failure.
pub proof fn law_described_table_is_placed(
    r: FfiResult<(String, String)>,
    response: DescribeTableResponse,
)
    requires
        is_info(r, described_info(Ok(Ok(response)))),
    ensures
        r is Ok <==> response.table_uri is Some || response.location is Some,
        response.table_uri matches Some(uri) ==> r->Ok_0.0@ == uri@,
        response.table_uri is None ==> (response.location matches Some(location) ==> r->Ok_0.0@
            == location@),
        r is Ok ==> (response.storage_options matches Some(m) ==> r->Ok_0.1@ == tsv_text(
            sorted_entries(text_map(m@)),
        )),
        r is Ok && response.storage_options is None ==> r->Ok_0.1@.len() == 0,
        r matches Err(e) ==> e.code == ErrorCode::NamespaceDescribeTableInfo && e.message@
            == "namespace describe_table: missing location and table_uri"@,
{
    lemma_missing_place_text();
}

proof fn lemma_missing_place_text()
    ensures
        "namespace describe_table: missing location and table_uri"@ == "namespace describe_table: "@
            + "missing location and table_uri"@,
{
    reveal_strlit("namespace describe_table: missing location and table_uri");
    reveal_strlit("namespace describe_table: ");
    reveal_strlit("missing location and table_uri");
    assert("namespace describe_table: missing location and table_uri"@
        =~= "namespace describe_table: "@ + "missing location and table_uri"@);
}

/// The place of a declared table is the location of the reply, its storage options are those of the
/// reply. Only a reply without a location is a failure.
pub proof fn law_declared_table_is_placed(
    r: FfiResult<(String, String)>,
    response: DeclareTableResponse,
)
    requires
        is_info(r, declared_info(Ok(Ok(response)))),
    ensures
        r is Ok <==> response.location is Some,
        response.location matches Some(location) ==> r->Ok_0.0@ == location@,
        r is Ok ==> (response.storage_options matches Some(m) ==> r->Ok_0.1@ == tsv_text(
            sorted_entries(text_map(m@)),
        )),
        r is Ok && response.storage_options is None ==> r->Ok_0.1@.len() == 0,
        r matches Err(e) ==> e.code == ErrorCode::NamespaceCreateEmptyTable && e.message@
            == "namespace declare_table: missing location"@,
{
    reveal_strlit("namespace declare_table: missing location");
    reveal_strlit("namespace declare_table: ");
    reveal_strlit("missing location");
    assert("namespace declare_table: missing location"@ =~= "namespace declare_table: "@
        + "missing location"@);
}

/// An error of the service, whatever it says, and a failure of the runtime are reported as such:
/// the message is a heading and the whole text.
pub proof fn law_errors_keep_their_text(r: FfiResult<(String, String)>, text: String)
    ensures
        is_info(r, described_info(Ok(Err(text)))) ==> r is Err && r->Err_0.code
            == ErrorCode::NamespaceDescribeTableInfo && r->Err_0.message@
            == "namespace describe_table: "@ + text@,
        is_info(r, declared_info(Ok(Err(text)))) ==> r is Err && r->Err_0.code
            == ErrorCode::NamespaceCreateEmptyTable && r->Err_0.message@
            == "namespace declare_table: "@ + text@,
        is_info(r, described_info(Err(text))) || is_info(r, declared_info(Err(text))) ==> r is Err
            && r->Err_0.code == ErrorCode::Runtime && r->Err_0.message@ == "runtime: "@ + text@,
{
}

/// Dropping a table succeeds exactly when the service dropped it or says that it is not there,
/// whatever it says besides; any other error is reported with the table and its text.
pub proof fn law_missing_table_counts_as_dropped(
    r: FfiResult<()>,
    table_id: Seq<char>,
    reply: Reply<(), DropTableFailure>,
)
    requires
        is_done(r, dropped(table_id, reply)),
    ensures
        reply matches Ok(Ok(_)) ==> r is Ok,
        reply matches Ok(Err(DropTableFailure::NotFound(_))) ==> r is Ok,
        reply matches Ok(Err(DropTableFailure::Other(text))) ==> r is Err && r->Err_0.code
            == ErrorCode::NamespaceDropTable && r->Err_0.message@ == "namespace drop_table '"@
            + table_id + "': "@ + text@,
        reply matches Err(text) ==> r is Err && r->Err_0.code == ErrorCode::Runtime
            && r->Err_0.message@ == "runtime: "@ + text@,
{
}

/// Two drops of a table come out alike where the service says that it is not there, whatever the
/// texts, and as a drop that the service carried out.
pub proof fn law_missing_tables_are_alike(
    table_id: Seq<char>,
    other_id: Seq<char>,
    text: String,
    other_text: String,
)
    ensures
        dropped(table_id, Ok(Err(DropTableFailure::NotFound(text)))) == dropped(
            other_id,
            Ok(Err(DropTableFailure::NotFound(other_text))),
        ),
        dropped(table_id, Ok(Err(DropTableFailure::NotFound(text)))) == dropped(
            table_id,
            Ok(Ok(())),
        ),
        dropped(table_id, Ok(Ok(()))) is Ok,
{
}

/// The schema of a described table is handed on whenever the reply has one, whatever else is in it;
/// each failure is reported with its text.
pub proof fn law_described_schema_is_handed_on(
    r: FfiResult<String>,
    reply: Reply<DescribeTableResponse, String>,
)
    requires
        is_schema_json(r, described_schema(reply)),
    ensures
        r is Ok <==> reply is Ok && reply->Ok_0 is Ok && reply->Ok_0->Ok_0.schema is Some,
        r matches Ok(t) ==> is_text_of(t@, reply->Ok_0->Ok_0.schema->0),
        reply matches Err(text) ==> r is Err && r->Err_0.code == ErrorCode::Runtime
            && r->Err_0.message@ == "runtime: "@ + text@,
        reply matches Ok(Err(text)) ==> r is Err && r->Err_0.code
            == ErrorCode::NamespaceDescribeTable && r->Err_0.message@
            == "namespace describe_table: "@ + text@,
        reply matches Ok(Ok(response)) ==> response.schema is None ==> r is Err && r->Err_0.code
            == ErrorCode::NamespaceDescribeTable && r->Err_0.message@
            == "namespace describe_table: missing schema in response"@,
{
    reveal_strlit("namespace describe_table: missing schema in response");
    reveal_strlit("namespace describe_table: ");
    reveal_strlit("missing schema in response");
    assert("namespace describe_table: missing schema in response"@
        =~= "namespace describe_table: "@ + "missing schema in response"@);
}

/// A dataset is loaded with the storage options of the reply, none where it has none, from the
/// table's URI or, where there is none, from its location: the place has no say in the options.
pub proof fn law_dataset_is_loaded_with_its_options(
    target: OpenTarget,
    response: DescribeTableResponse,
)
    requires
        described_target(Ok(Ok(response))) matches Ok(v) && is_target(target, v.0, v.1),
    ensures
        response.storage_options matches Some(m) ==> target.storage_options == m,
        response.storage_options is None ==> target.storage_options@ == Map::<
            String,
            String,
        >::empty(),
        response.table_uri is Some || response.location is Some,
        response.table_uri matches Some(uri) ==> target.table_uri@ == uri@,
        response.table_uri is None ==> target.table_uri@ == response.location->0@,
{
}

/// A dataset is loaded exactly when the table could be described and has a place; each failure
/// before that is reported with its text.
pub proof fn law_dataset_is_loaded_where_it_has_a_place(
    reply: Reply<DescribeTableResponse, String>,
)
    ensures
        described_target(reply) is Ok <==> reply is Ok && reply->Ok_0 is Ok && (
        reply->Ok_0->Ok_0.table_uri is Some || reply->Ok_0->Ok_0.location is Some),
        reply matches Err(text) ==> described_target(reply)->Err_0.code == ErrorCode::Runtime
            && described_target(reply)->Err_0.message == "runtime: "@ + text@,
        reply matches Ok(Err(text)) ==> described_target(reply)->Err_0.code
            == ErrorCode::NamespaceDescribeTable && described_target(reply)->Err_0.message
            == "namespace describe_table: "@ + text@,
        reply matches Ok(Ok(response)) ==> response.table_uri is None && response.location is None
            ==> described_target(reply)->Err_0.code == ErrorCode::NamespaceDescribeTable
            && described_target(reply)->Err_0.message
            == "namespace describe_table: missing location and table_uri"@,
{
    lemma_missing_place_text();
}

/// A dataset that was loaded is handed on, with the URI that it was loaded from; one that was not
/// is reported with that URI and the text of the error.
pub proof fn law_loaded_dataset_is_handed_on<D>(
    r: FfiResult<(D, String)>,
    table_uri: Seq<char>,
    reply: Reply<D, String>,
)
    requires
        is_opened(r, opened(table_uri, reply)),
    ensures
        reply matches Ok(Ok(dataset)) ==> r is Ok && r->Ok_0.0 == dataset && r->Ok_0.1@
            == table_uri,
        reply matches Ok(Err(text)) ==> r is Err && r->Err_0.code == ErrorCode::DatasetOpen
            && r->Err_0.message@ == "dataset open '"@ + table_uri + "': "@ + text@,
        reply matches Err(text) ==> r is Err && r->Err_0.code == ErrorCode::Runtime
            && r->Err_0.message@ == "runtime: "@ + text@,
{
}

/// The requests of the calls on a table name that table and no other, whatever its name, over the
/// connection that the arguments describe, and ask for what the call is to hand back.
pub proof fn law_requests_name_the_table(
    args: CallArguments<'_>,
    info: ServiceCall<DescribeTableRequest>,
    schema: ServiceCall<DescribeTableRequest>,
    declare: ServiceCall<DeclareTableRequest>,
    drop: ServiceCall<DropTableRequest>,
)
    requires
        is_info_call(info, args),
        is_schema_call(schema, args),
        is_declare_call(declare, args),
        is_drop_call(drop, args),
    ensures
        args.id is Ok,
        info.request.id@.len() == 1 && info.request.id@[0]@ == args.id->Ok_0@,
        schema.request.id@.len() == 1 && schema.request.id@[0]@ == args.id->Ok_0@,
        declare.request.id@.len() == 1 && declare.request.id@[0]@ == args.id->Ok_0@,
        drop.request.id@.len() == 1 && drop.request.id@[0]@ == args.id->Ok_0@,
        info.request.with_table_uri == Some(true) && info.request.load_detailed_metadata is None,
        schema.request.with_table_uri == Some(true) && schema.request.load_detailed_metadata
            == Some(true),
        is_config_for(info.config, args),
        is_config_for(schema.config, args),
        is_config_for(declare.config, args),
        is_config_for(drop.config, args),
{
    lemma_single_id(info.request.id@, args.id->Ok_0@);
    lemma_single_id(schema.request.id@, args.id->Ok_0@);
    lemma_single_id(declare.request.id@, args.id->Ok_0@);
    lemma_single_id(drop.request.id@, args.id->Ok_0@);
}

proof fn lemma_single_id(id: Seq<String>, text: Seq<char>)
    requires
        texts(id) == seq![text],
    ensures
        id.len() == 1,
        id[0]@ == text,
{
    assert(texts(id).len() == id.len());
    assert(texts(id)[0] == id[0]@);
}

} // verus!
