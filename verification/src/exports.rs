//! How a call's outcome goes back to C: a status or a value, the out-parameters and the slot that
//! holds the last error.

use crate::arrow_schema::{arrow_schema, ArrowSchema};
use crate::call::{first_error, is_config_for, CallArguments, NamespaceConfig, ServiceCall};
use crate::error::{runtime_failure, ErrorCode, Failure, FfiError, FfiResult};
use crate::json::{is_text_of, law_schema_text_has_no_separator, parsed_schema};
use crate::list_tables::{
    are_jobs_for, are_listed, entry_text, entry_texts, is_entry_of, is_start, job_replies,
    lemma_listed_by_reply, list_tables_inner, listed_names, replied, JobsReply, Listing, NamesReply,
    PrefetchJob, Table,
};
use crate::requests::{
    DeclareTableRequest, DeclareTableResponse, DescribeTableRequest, DescribeTableResponse,
    DropTableFailure, DropTableRequest,
};
use crate::schema::{converted_schema, is_conversion_failure, json_arrow_schema, parse_failure};
use crate::tables::{
    create_empty_table_inner, declared_info, describe_table_info_inner,
    describe_table_with_schema_inner, described_info, described_schema, described_target,
    drop_table_inner, dropped, is_declare_call, is_drop_call, is_info_call, is_schema_call,
    is_target, open_dataset_in_namespace_inner, opened, options_text, OpenTarget, Reply,
};
use crate::text::{has_char, holds_char, join, join_strings, law_has_char_anywhere};
use crate::tsv::{law_options_text_adds_separators_alone, sorted_entries, text_map, tsv_text};
use arrow::datatypes::Schema;
use lance_namespace::models;
use std::collections::HashMap;
use vstd::prelude::*;

verus! {

/// The error of the last call, if it failed.
pub struct LastError {
    pub error: Option<FfiError>,
}

/// A text out-parameter: not wanted by the caller, null, or a text.
pub enum OutText {
    Absent,
    Null,
    Text(String),
}

/// The text that a C string can carry: one with a NUL in it is replaced by `fallback`.
pub open spec fn c_text(s: Seq<char>, fallback: Seq<char>) -> Seq<char> {
    if has_char(s, '\0') {
        fallback
    } else {
        s
    }
}

/// Whether `out` carries `text`, where the caller wants it.
pub open spec fn carries(before: OutText, out: OutText, text: Seq<char>) -> bool {
    match out {
        OutText::Absent => before is Absent,
        OutText::Null => false,
        OutText::Text(t) => !(before is Absent) && t@ == text,
    }
}

/// Whether `out` carries nothing.
pub open spec fn is_blank(before: OutText, out: OutText) -> bool {
    match out {
        OutText::Absent => before is Absent,
        OutText::Null => !(before is Absent),
        OutText::Text(_) => false,
    }
}

impl View for LastError {
    type V = Option<Failure>;

    open spec fn view(&self) -> Option<Failure> {
        match self.error {
            Some(e) => Some(e@),
            None => None,
        }
    }
}

/// Whether a status and the last error say that a call succeeded, or failed with `failure`.
pub open spec fn reports(status: i32, last_error: LastError, failure: Option<Failure>) -> bool {
    &&& last_error@ == failure
    &&& status == (if failure is None {
        0int
    } else {
        -1int
    })
}

/// The failure of a result, if it is one.
pub open spec fn failure_of(result: FfiResult<()>) -> Option<Failure> {
    match result {
        Ok(_) => None,
        Err(e) => Some(e@),
    }
}

impl LastError {
    pub fn clear(&mut self)
        ensures
            final(self)@ is None,
    {
        self.error = None;
    }

    pub fn set(&mut self, error: FfiError)
        ensures
            final(self)@ == Some(error@),
    {
        self.error = Some(error);
    }
}

/// Takes back what an out-parameter held.
fn blank(out: &mut OutText)
    ensures
        is_blank(*old(out), *final(out)),
{
    match out {
        OutText::Absent => {},
        _ => {
            *out = OutText::Null;
        },
    }
}

/// Puts a text into an out-parameter, where the caller wants it.
fn put(out: &mut OutText, text: String, fallback: &str)
    ensures
        carries(*old(out), *final(out), c_text(text@, fallback@)),
{
    match out {
        OutText::Absent => {},
        _ => {
            if holds_char(text.as_str(), '\0') {
                *out = OutText::Text(fallback.to_owned());
            } else {
                *out = OutText::Text(text);
            }
        },
    }
}

/// The status of a call: zero on success, with the last error cleared; minus one on failure, with
/// the last error set.
fn status(result: FfiResult<()>, last_error: &mut LastError) -> (r: i32)
    ensures
        reports(r, *final(last_error), failure_of(result)),
{
    match result {
        Ok(_) => {
            last_error.clear();
            0
        },
        Err(e) => {
            last_error.set(e);
            -1
        },
    }
}

/// Whether a listing is handed back as running the jobs for `names` came out: as lines of text, one
/// for each table, or as null with the last error set.
pub open spec fn hands_back_listing(
    r: Option<String>,
    last_error: LastError,
    names: Seq<Seq<char>>,
    reply: JobsReply,
) -> bool {
    match reply {
        Err(text) => r is None && last_error@ == Some(runtime_failure(text@)),
        Ok(replies) => {
            &&& last_error@ is None
            &&& r matches Some(t)
            &&& exists|tables: Seq<Table>| #[trigger]
                are_listed(tables, names, job_replies(replies@, names.len())) && t@ == join(
                    entry_texts(tables),
                    '\n',
                )
        },
    }
}

/// Lists the tables of a namespace, one line for each; `None` (a null pointer) on failure.
pub fn lance_namespace_list_tables<F, G>(
    args: CallArguments<'_>,
    list: F,
    describe: G,
    last_error: &mut LastError,
) -> (r: Option<String>) where
    F: FnOnce(NamespaceConfig, Listing) -> NamesReply,
    G: FnOnce(Vec<PrefetchJob>) -> JobsReply,

    requires
        first_error(args) is None ==> forall|config: NamespaceConfig, listing: Listing|
            is_config_for(config, args) && is_start(listing, args) ==> #[trigger] list.requires(
                (config, listing),
            ),
        first_error(args) is None ==> forall|
            config: NamespaceConfig,
            listing: Listing,
            named: NamesReply,
            jobs: Vec<PrefetchJob>,
        |
            #[trigger] list.ensures((config, listing), named) && is_config_for(config, args)
                && is_start(listing, args) && (listed_names(named) matches Ok(names)
                && are_jobs_for(jobs@, names, args)) ==> #[trigger] describe.requires((jobs,)),
    ensures
        match first_error(args) {
            Some(e) => r is None && final(last_error)@ == Some(e@),
            None => exists|config: NamespaceConfig, listing: Listing, named: NamesReply| #[trigger]
                list.ensures((config, listing), named) && is_config_for(config, args) && is_start(
                    listing,
                    args,
                ) && match listed_names(named) {
                    Err(f) => r is None && final(last_error)@ == Some(f),
                    Ok(names) => exists|jobs: Vec<PrefetchJob>, reply: JobsReply| #[trigger]
                        describe.ensures((jobs,), reply) && are_jobs_for(jobs@, names, args)
                            && hands_back_listing(r, *final(last_error), names, reply),
                },
        },
{
    match list_tables_inner(args, list, describe) {
        Ok(tables) => {
            last_error.clear();
            Some(join_strings(&tables, '\n'))
        },
        Err(e) => {
            last_error.set(e);
            None
        },
    }
}

/// Whether the place of a table and its storage options are handed back as `expected` says: in the
/// out-parameters, or with these blank and the last error set.
pub open spec fn hands_back_place(
    status: i32,
    location: (OutText, OutText),
    options: (OutText, OutText),
    last_error: LastError,
    expected: Result<(Seq<char>, Seq<char>), Failure>,
) -> bool {
    match expected {
        Ok(v) => {
            &&& reports(status, last_error, None)
            &&& carries(location.0, location.1, c_text(v.0, "invalid location"@))
            &&& carries(options.0, options.1, c_text(v.1, "invalid storage options"@))
        },
        Err(f) => {
            &&& reports(status, last_error, Some(f))
            &&& is_blank(location.0, location.1)
            &&& is_blank(options.0, options.1)
        },
    }
}

/// Hands back the place of a table and its storage options.
fn deliver_place(
    result: FfiResult<(String, String)>,
    out_location: &mut OutText,
    out_storage_options_tsv: &mut OutText,
    last_error: &mut LastError,
) -> (r: i32)
    ensures
        hands_back_place(
            r,
            (*old(out_location), *final(out_location)),
            (*old(out_storage_options_tsv), *final(out_storage_options_tsv)),
            *final(last_error),
            match result {
                Ok(v) => Ok((v.0@, v.1@)),
                Err(e) => Err(e@),
            },
        ),
{
    blank(out_location);
    blank(out_storage_options_tsv);
    match result {
        Ok((location, options)) => {
            put(out_location, location, "invalid location");
            put(out_storage_options_tsv, options, "invalid storage options");
            status(Ok(()), last_error)
        },
        Err(e) => status(Err(e), last_error),
    }
}

/// Describes a table: hands back where it is and its storage options.
pub fn lance_namespace_describe_table<F>(
    args: CallArguments<'_>,
    send: F,
    out_location: &mut OutText,
    out_storage_options_tsv: &mut OutText,
    last_error: &mut LastError,
) -> (r: i32) where
    F: FnOnce(ServiceCall<DescribeTableRequest>) -> Reply<DescribeTableResponse, String>

    requires
        first_error(args) is None ==> forall|call: ServiceCall<DescribeTableRequest>|
            is_info_call(call, args) ==> #[trigger] send.requires((call,)),
    ensures
        match first_error(args) {
            Some(e) => hands_back_place(
                r,
                (*old(out_location), *final(out_location)),
                (*old(out_storage_options_tsv), *final(out_storage_options_tsv)),
                *final(last_error),
                Err(e@),
            ),
            None => exists|
                call: ServiceCall<DescribeTableRequest>,
                reply: Reply<DescribeTableResponse, String>,
            | #[trigger]
                send.ensures((call,), reply) && is_info_call(call, args) && hands_back_place(
                    r,
                    (*old(out_location), *final(out_location)),
                    (*old(out_storage_options_tsv), *final(out_storage_options_tsv)),
                    *final(last_error),
                    described_info(reply),
                ),
        },
{
    let result = describe_table_info_inner(args, send);
    deliver_place(result, out_location, out_storage_options_tsv, last_error)
}

/// Declares a table: hands back where it is to be and its storage options.
pub fn lance_namespace_create_empty_table<F>(
    args: CallArguments<'_>,
    send: F,
    out_location: &mut OutText,
    out_storage_options_tsv: &mut OutText,
    last_error: &mut LastError,
) -> (r: i32) where
    F: FnOnce(ServiceCall<DeclareTableRequest>) -> Reply<DeclareTableResponse, String>

    requires
        first_error(args) is None ==> forall|call: ServiceCall<DeclareTableRequest>|
            is_declare_call(call, args) ==> #[trigger] send.requires((call,)),
    ensures
        match first_error(args) {
            Some(e) => hands_back_place(
                r,
                (*old(out_location), *final(out_location)),
                (*old(out_storage_options_tsv), *final(out_storage_options_tsv)),
                *final(last_error),
                Err(e@),
            ),
            None => exists|
                call: ServiceCall<DeclareTableRequest>,
                reply: Reply<DeclareTableResponse, String>,
            | #[trigger]
                send.ensures((call,), reply) && is_declare_call(call, args) && hands_back_place(
                    r,
                    (*old(out_location), *final(out_location)),
                    (*old(out_storage_options_tsv), *final(out_storage_options_tsv)),
                    *final(last_error),
                    declared_info(reply),
                ),
        },
{
    let result = create_empty_table_inner(args, send);
    deliver_place(result, out_location, out_storage_options_tsv, last_error)
}

/// Drops a table.
pub fn lance_namespace_drop_table<F>(
    args: CallArguments<'_>,
    send: F,
    last_error: &mut LastError,
) -> (r: i32) where F: FnOnce(ServiceCall<DropTableRequest>) -> Reply<(), DropTableFailure>
    requires
        first_error(args) is None ==> forall|call: ServiceCall<DropTableRequest>|
            is_drop_call(call, args) ==> #[trigger] send.requires((call,)),
    ensures
        match first_error(args) {
            Some(e) => reports(r, *final(last_error), Some(e@)),
            None => exists|
                call: ServiceCall<DropTableRequest>,
                reply: Reply<(), DropTableFailure>,
            | #[trigger]
                send.ensures((call,), reply) && is_drop_call(call, args) && reports(
                    r,
                    *final(last_error),
                    match dropped(args.id->Ok_0@, reply) {
                        Ok(_) => None,
                        Err(f) => Some(f),
                    },
                ),
        },
{
    status(drop_table_inner(args, send), last_error)
}

/// Whether a schema is handed back as `expected` says: as a JSON text in the out-parameter, or with
/// this blank and the last error set.
pub open spec fn hands_back_schema(
    status: i32,
    before: OutText,
    out: OutText,
    last_error: LastError,
    expected: Result<models::JsonArrowSchema, Failure>,
) -> bool {
    match expected {
        Ok(schema) => {
            &&& reports(status, last_error, None)
            &&& match out {
                OutText::Absent => before is Absent,
                OutText::Null => false,
                OutText::Text(t) => !(before is Absent) && is_text_of(t@, schema),
            }
        },
        Err(f) => reports(status, last_error, Some(f)) && is_blank(before, out),
    }
}

/// Describes a table with its schema: hands back the schema as JSON. Such a text always fits a C
/// string.
pub fn lance_namespace_describe_table_with_schema<F>(
    args: CallArguments<'_>,
    send: F,
    out_schema_json: &mut OutText,
    last_error: &mut LastError,
) -> (r: i32) where
    F: FnOnce(ServiceCall<DescribeTableRequest>) -> Reply<DescribeTableResponse, String>

    requires
        first_error(args) is None ==> forall|call: ServiceCall<DescribeTableRequest>|
            is_schema_call(call, args) ==> #[trigger] send.requires((call,)),
    ensures
        match first_error(args) {
            Some(e) => hands_back_schema(
                r,
                *old(out_schema_json),
                *final(out_schema_json),
                *final(last_error),
                Err(e@),
            ),
            None => exists|
                call: ServiceCall<DescribeTableRequest>,
                reply: Reply<DescribeTableResponse, String>,
            | #[trigger]
                send.ensures((call,), reply) && is_schema_call(call, args) && hands_back_schema(
                    r,
                    *old(out_schema_json),
                    *final(out_schema_json),
                    *final(last_error),
                    described_schema(reply),
                ),
        },
{
    blank(out_schema_json);
    match describe_table_with_schema_inner(args, send) {
        Ok(schema_json) => {
            proof {
                let (call, reply) = choose|
                    call: ServiceCall<DescribeTableRequest>,
                    reply: Reply<DescribeTableResponse, String>,
                | #[trigger]
                    send.ensures((call,), reply) && is_schema_call(call, args)
                        && crate::tables::is_schema_json(
                        Ok(schema_json),
                        described_schema(reply),
                    );
                law_schema_text_has_no_separator(schema_json@, described_schema(reply)->Ok_0);
            }
            put(out_schema_json, schema_json, "invalid schema json");
            status(Ok(()), last_error)
        },
        Err(e) => status(Err(e), last_error),
    }
}

/// Whether a dataset and its URI are handed back as `expected` says: the URI in the out-parameter,
/// or null with this blank and the last error set.
pub open spec fn hands_back_dataset<D>(
    r: Option<D>,
    before: OutText,
    out: OutText,
    last_error: LastError,
    expected: Result<(D, Seq<char>), Failure>,
) -> bool {
    match expected {
        Ok(v) => {
            &&& r == Some(v.0)
            &&& last_error@ is None
            &&& carries(before, out, c_text(v.1, "invalid uri"@))
        },
        Err(f) => r is None && last_error@ == Some(f) && is_blank(before, out),
    }
}

/// Opens the dataset of a table: hands back the dataset, `None` (a null pointer) on failure, and
/// its URI.
pub fn lance_open_dataset_in_namespace<D, F, G>(
    args: CallArguments<'_>,
    send: F,
    load: G,
    out_table_uri: &mut OutText,
    last_error: &mut LastError,
) -> (r: Option<D>) where
    F: FnOnce(ServiceCall<DescribeTableRequest>) -> Reply<DescribeTableResponse, String>,
    G: FnOnce(OpenTarget) -> Reply<D, String>,

    requires
        first_error(args) is None ==> forall|call: ServiceCall<DescribeTableRequest>|
            is_info_call(call, args) ==> #[trigger] send.requires((call,)),
        first_error(args) is None ==> forall|
            call: ServiceCall<DescribeTableRequest>,
            reply: Reply<DescribeTableResponse, String>,
            target: OpenTarget,
        |
            #[trigger] send.ensures((call,), reply) && is_info_call(call, args) && (
            described_target(reply) matches Ok(v) && is_target(target, v.0, v.1))
                ==> #[trigger] load.requires((target,)),
    ensures
        match first_error(args) {
            Some(e) => hands_back_dataset(
                r,
                *old(out_table_uri),
                *final(out_table_uri),
                *final(last_error),
                Err(e@),
            ),
            None => exists|
                call: ServiceCall<DescribeTableRequest>,
                reply: Reply<DescribeTableResponse, String>,
            | #[trigger]
                send.ensures((call,), reply) && is_info_call(call, args) && match described_target(
                    reply,
                ) {
                    Err(f) => hands_back_dataset(
                        r,
                        *old(out_table_uri),
                        *final(out_table_uri),
                        *final(last_error),
                        Err(f),
                    ),
                    Ok(v) => exists|target: OpenTarget, loaded: Reply<D, String>| #[trigger]
                        load.ensures((target,), loaded) && is_target(target, v.0, v.1)
                            && hands_back_dataset(
                            r,
                            *old(out_table_uri),
                            *final(out_table_uri),
                            *final(last_error),
                            opened(v.0, loaded),
                        ),
                },
        },
{
    blank(out_table_uri);
    match open_dataset_in_namespace_inner(args, send, load) {
        Ok((dataset, table_uri)) => {
            put(out_table_uri, table_uri, "invalid uri");
            last_error.clear();
            Some(dataset)
        },
        Err(e) => {
            last_error.set(e);
            None
        },
    }
}

/// Hands back in `out_schema` what `export` makes of a schema. Where there is no schema nothing is
/// exported; where there is none or the export fails, `out_schema` stays as it was.
pub fn hand_out_schema<T, F: FnOnce(Schema) -> FfiResult<T>>(
    schema: FfiResult<Schema>,
    export: F,
    out_schema: &mut T,
    last_error: &mut LastError,
) -> (r: i32)
    requires
        schema matches Ok(s) ==> export.requires((s,)),
    ensures
        match schema {
            Err(e) => reports(r, *final(last_error), Some(e@)) && *final(out_schema) == *old(
                out_schema,
            ),
            Ok(s) => exists|result: FfiResult<T>| #[trigger]
                export.ensures((s,), result) && match result {
                    Ok(exported) => reports(r, *final(last_error), None) && *final(out_schema)
                        == exported,
                    Err(e) => reports(r, *final(last_error), Some(e@)) && *final(out_schema)
                        == *old(out_schema),
                },
        },
{
    match schema {
        Ok(s) => {
            let result = export(s);
            assert(export.ensures((s,), result));
            match result {
                Ok(exported) => {
                    *out_schema = exported;
                    status(Ok(()), last_error)
                },
                Err(e) => status(Err(e), last_error),
            }
        },
        Err(e) => status(Err(e), last_error),
    }
}

/// Whether `schema` is the Arrow schema that a JSON text describes.
pub open spec fn is_schema_from(schema: Schema, json_schema: FfiResult<&str>) -> bool {
    match json_schema {
        Ok(text) => match parsed_schema(text@) {
            Ok(s) => converted_schema(s) == Ok::<ArrowSchema, Seq<char>>(arrow_schema(schema)),
            Err(_) => false,
        },
        Err(_) => false,
    }
}

/// Converts the Arrow schema that a JSON text describes, and hands back in `out_schema` what
/// `export` makes of it. Where the text, its conversion or the export fails, the call fails with
/// that error and `out_schema` stays as it was; nothing is exported unless the text converts.
pub fn lance_json_arrow_schema_to_c<T, F: FnOnce(Schema) -> FfiResult<T>>(
    json_schema: FfiResult<&str>,
    export: F,
    out_schema: &mut T,
    last_error: &mut LastError,
) -> (r: i32)
    requires
        forall|schema: Schema|
            is_schema_from(schema, json_schema) ==> #[trigger] export.requires((schema,)),
    ensures
        r != 0 ==> *final(out_schema) == *old(out_schema),
        match json_schema {
            Err(e) => reports(r, *final(last_error), Some(e@)),
            Ok(text) => match parsed_schema(text@) {
                Err(m) => reports(r, *final(last_error), Some(parse_failure(m))),
                Ok(s) => match converted_schema(s) {
                    Err(m) => exists|f: Failure| #[trigger]
                        is_conversion_failure(f, m) && reports(r, *final(last_error), Some(f)),
                    Ok(v) => exists|schema: Schema, result: FfiResult<T>| #[trigger]
                        export.ensures((schema,), result) && arrow_schema(schema) == v
                            && match result {
                            Ok(exported) => reports(r, *final(last_error), None)
                                && *final(out_schema) == exported,
                            Err(e) => reports(r, *final(last_error), Some(e@)),
                        },
                },
            },
        },
{
    let schema = json_arrow_schema(json_schema);
    hand_out_schema(schema, export, out_schema, last_error)
}

/// A call that succeeded has the status zero and leaves no error; one that failed has the status
/// minus one and leaves its error, code and message unchanged.
pub proof fn law_status_and_last_error_agree(
    status: i32,
    last_error: LastError,
    failure: Option<Failure>,
)
    requires
        reports(status, last_error, failure),
    ensures
        failure is None ==> status == 0 && last_error.error is None,
        failure matches Some(f) ==> status == -1 && last_error.error is Some
            && last_error.error->0.code == f.code && last_error.error->0.message@ == f.message,
{
}

/// A text without a NUL goes out unchanged wherever it is wanted, whatever else is in it; one with
/// a NUL, wherever it stands, is replaced. An out-parameter that is not wanted stays so.
pub proof fn law_text_goes_out_unchanged(
    before: OutText,
    out: OutText,
    text: Seq<char>,
    fallback: Seq<char>,
)
    requires
        carries(before, out, c_text(text, fallback)),
    ensures
        before is Absent ==> out is Absent,
        !(before is Absent) ==> out is Text,
        !(before is Absent) && !text.contains('\0') ==> out->Text_0@ == text,
        !(before is Absent) && text.contains('\0') ==> out->Text_0@ == fallback,
{
}

/// An out-parameter that carries nothing is null, or stays as unwanted as it was.
pub proof fn law_blank_is_null(before: OutText, out: OutText)
    requires
        is_blank(before, out),
    ensures
        before is Absent ==> out is Absent,
        !(before is Absent) ==> out is Null,
{
}

/// The failure of a result is its error.
pub proof fn law_failure_of_a_result(result: FfiResult<()>)
    ensures
        result is Ok <==> failure_of(result) is None,
        result matches Err(e) ==> failure_of(result)->0.code == e.code && failure_of(
            result,
        )->0.message == e.message@,
{
}

/// Where a described table has a place, the call succeeds: the place goes out, the URI before the
/// location, and so do the lines of all the storage options, each unchanged where it holds no NUL.
pub proof fn law_described_place_goes_out(
    status: i32,
    location: (OutText, OutText),
    options: (OutText, OutText),
    last_error: LastError,
    response: DescribeTableResponse,
    place: String,
)
    requires
        hands_back_place(
            status,
            location,
            options,
            last_error,
            described_info(Ok(Ok(response))),
        ),
        response.table_uri == Some(place) || (response.table_uri is None && response.location
            == Some(place)),
    ensures
        status == 0,
        last_error.error is None,
        !(location.0 is Absent) && !place@.contains('\0') ==> location.1 is Text
            && location.1->Text_0@ == place@,
        !(location.0 is Absent) && place@.contains('\0') ==> location.1 is Text
            && location.1->Text_0@ == "invalid location"@,
        location.0 is Absent ==> location.1 is Absent,
        options_go_out(options, response.storage_options),
{
    lemma_options_go_out(options, response.storage_options);
}

/// Where a declared table has a location, the call succeeds: the location goes out, and so do the
/// lines of all the storage options, each unchanged where it holds no NUL.
pub proof fn law_declared_place_goes_out(
    status: i32,
    location: (OutText, OutText),
    options: (OutText, OutText),
    last_error: LastError,
    response: DeclareTableResponse,
    place: String,
)
    requires
        hands_back_place(
            status,
            location,
            options,
            last_error,
            declared_info(Ok(Ok(response))),
        ),
        response.location == Some(place),
    ensures
        status == 0,
        last_error.error is None,
        !(location.0 is Absent) && !place@.contains('\0') ==> location.1 is Text
            && location.1->Text_0@ == place@,
        !(location.0 is Absent) && place@.contains('\0') ==> location.1 is Text
            && location.1->Text_0@ == "invalid location"@,
        location.0 is Absent ==> location.1 is Absent,
        options_go_out(options, response.storage_options),
{
    lemma_options_go_out(options, response.storage_options);
}

/// Whether storage options went out where they are wanted: as the lines of them all, in the order
/// of their keys, where no key and no value holds a NUL, and else replaced; as an empty text where
/// there are none.
pub open spec fn options_go_out(
    options: (OutText, OutText),
    storage_options: Option<HashMap<String, String>>,
) -> bool {
    &&& options.0 is Absent ==> options.1 is Absent
    &&& !(options.0 is Absent) ==> options.1 is Text
    &&& !(options.0 is Absent) && storage_options is None ==> options.1->Text_0@.len() == 0
    &&& !(options.0 is Absent) && (storage_options matches Some(m) && forall|key: String| #[trigger]
        m@.contains_key(key) ==> !key@.contains('\0') && !m@[key]@.contains('\0'))
        ==> options.1->Text_0@ == tsv_text(sorted_entries(text_map(storage_options->0@)))
    &&& !(options.0 is Absent) && (storage_options matches Some(m) && tsv_text(
        sorted_entries(text_map(m@)),
    ).contains('\0')) ==> options.1->Text_0@ == "invalid storage options"@
}

proof fn lemma_options_go_out(
    options: (OutText, OutText),
    storage_options: Option<HashMap<String, String>>,
)
    requires
        carries(
            options.0,
            options.1,
            c_text(options_text(storage_options), "invalid storage options"@),
        ),
    ensures
        options_go_out(options, storage_options),
{
    if let Some(m) = storage_options {
        if forall|key: String| #[trigger]
            m@.contains_key(key) ==> !key@.contains('\0') && !m@[key]@.contains('\0') {
            assert forall|key: String| #[trigger] m@.contains_key(key) implies !has_char(key@, '\0')
                && !has_char(m@[key]@, '\0') by {
                law_has_char_anywhere(key@, '\0');
                law_has_char_anywhere(m@[key]@, '\0');
            }
            law_options_text_adds_separators_alone(m, '\0');
        }
    }
}

/// Where the place of a table could not be had, the call fails with that error and nothing goes
/// out.
pub proof fn law_failed_place_goes_nowhere(
    status: i32,
    location: (OutText, OutText),
    options: (OutText, OutText),
    last_error: LastError,
    failure: Failure,
)
    requires
        hands_back_place(status, location, options, last_error, Err(failure)),
    ensures
        status == -1,
        last_error.error is Some,
        last_error.error->0.code == failure.code,
        last_error.error->0.message@ == failure.message,
        location.1 is Absent <==> location.0 is Absent,
        options.1 is Absent <==> options.0 is Absent,
        !(location.1 is Text),
        !(options.1 is Text),
{
}

/// The schema of a described table goes out as a JSON text of it wherever it is wanted; a failure
/// leaves the out-parameter null and its error behind.
pub proof fn law_schema_goes_out(
    status: i32,
    before: OutText,
    out: OutText,
    last_error: LastError,
    reply: Reply<DescribeTableResponse, String>,
)
    requires
        hands_back_schema(status, before, out, last_error, described_schema(reply)),
    ensures
        status == 0 <==> reply is Ok && reply->Ok_0 is Ok && reply->Ok_0->Ok_0.schema is Some,
        status == 0 <==> last_error.error is None,
        status == 0 || status == -1,
        out is Absent <==> before is Absent,
        status == 0 && !(before is Absent) ==> out is Text && is_text_of(
            out->Text_0@,
            reply->Ok_0->Ok_0.schema->0,
        ),
        status != 0 ==> !(out is Text) && last_error.error->0.code
            == described_schema(reply)->Err_0.code && last_error.error->0.message@
            == described_schema(reply)->Err_0.message,
{
}

/// A loaded dataset goes out, with the URI that it was loaded from, unchanged where it holds no
/// NUL; a failure leaves null and its error behind.
pub proof fn law_dataset_goes_out<D>(
    r: Option<D>,
    before: OutText,
    out: OutText,
    last_error: LastError,
    table_uri: Seq<char>,
    reply: Reply<D, String>,
)
    requires
        hands_back_dataset(r, before, out, last_error, opened(table_uri, reply)),
    ensures
        reply matches Ok(Ok(dataset)) ==> {
            &&& r == Some(dataset)
            &&& last_error.error is None
            &&& before is Absent ==> out is Absent
            &&& !(before is Absent) && !table_uri.contains('\0') ==> out is Text && out->Text_0@
                == table_uri
            &&& !(before is Absent) && table_uri.contains('\0') ==> out is Text && out->Text_0@
                == "invalid uri"@
        },
        !(reply matches Ok(Ok(_))) ==> r is None && last_error.error is Some && !(out is Text) && (
        out is Absent <==> before is Absent),
        reply matches Ok(Err(text)) ==> last_error.error->0.code == ErrorCode::DatasetOpen
            && last_error.error->0.message@ == "dataset open '"@ + table_uri + "': "@ + text@,
{
}

/// A dataset that is not even loaded leaves null, a null URI and the error behind.
pub proof fn law_missing_dataset_goes_nowhere<D>(
    r: Option<D>,
    before: OutText,
    out: OutText,
    last_error: LastError,
    failure: Failure,
)
    requires
        hands_back_dataset(r, before, out, last_error, Err(failure)),
    ensures
        r is None,
        last_error.error is Some,
        last_error.error->0.code == failure.code,
        last_error.error->0.message@ == failure.message,
        !(out is Text),
        out is Absent <==> before is Absent,
{
}

/// A listing goes out as one line for each reply that came, in the order of the names, each as its
/// own reply says; a failure of the runtime leaves null and its error behind.
pub proof fn law_listing_goes_out(
    r: Option<String>,
    last_error: LastError,
    names: Seq<Seq<char>>,
    reply: JobsReply,
)
    requires
        hands_back_listing(r, last_error, names, reply),
    ensures
        reply matches Err(text) ==> r is None && last_error.error is Some
            && last_error.error->0.code == ErrorCode::Runtime && last_error.error->0.message@
            == "runtime: "@ + text@,
        reply matches Ok(replies) ==> last_error.error is None && r is Some && exists|
            entries: Seq<Seq<char>>,
        |
            {
                &&& r->0@ == #[trigger] join(entries, '\n')
                &&& entries.len() == replied(replies@, names.len())
                &&& forall|i: int|
                    #![trigger replies@[i]]
                    0 <= i < names.len() && i < replies@.len() && replies@[i] is Some ==> {
                        let place = replied(replies@, i as nat) as int;
                        &&& 0 <= place < entries.len()
                        &&& is_entry_of(entries[place], names[i], replies@[i]->0)
                    }
            },
{
    if let Ok(replies) = reply {
        let answers = job_replies(replies@, names.len());
        let tables = choose|tables: Seq<Table>| #[trigger]
            are_listed(tables, names, answers) && r->0@ == join(entry_texts(tables), '\n');
        lemma_listed_by_reply(tables, names, replies@, names.len());
        let entries = entry_texts(tables);
        assert(entries.len() == tables.len());
        assert forall|i: int|
            #![trigger replies@[i]]
            0 <= i < names.len() && i < replies@.len() && replies@[i] is Some implies {
            let place = replied(replies@, i as nat) as int;
            &&& 0 <= place < entries.len()
            &&& is_entry_of(entries[place], names[i], replies@[i]->0)
        } by {
            let place = replied(replies@, i as nat) as int;
            assert(entries[place] == entry_text(tables[place]));
        }
        assert(r->0@ == join(entries, '\n'));
    }
}

/// A schema is handed to the export only where the text could be had, parses and converts, and then
/// it is the conversion of what was parsed.
pub proof fn law_exported_schema_is_the_converted_one(
    schema: Schema,
    json_schema: FfiResult<&str>,
)
    requires
        is_schema_from(schema, json_schema),
    ensures
        json_schema is Ok,
        parsed_schema(json_schema->Ok_0@) is Ok,
        converted_schema(parsed_schema(json_schema->Ok_0@)->Ok_0) is Ok,
        converted_schema(parsed_schema(json_schema->Ok_0@)->Ok_0)->Ok_0 == arrow_schema(schema),
{
}

} // verus!
