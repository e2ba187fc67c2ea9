//! Listing the tables of a namespace, with their schemas fetched ahead.
//!
//! The names come page by page; then each table is described on its own, so that the listing can
//! carry its schema. A table whose description fails is listed without one.

use crate::call::{
    first_error, is_call_of, is_config_for, is_config_of, law_absent_arguments_are_alike,
    read_arguments, same_arguments, CallArguments, NamespaceCall, NamespaceConfig,
};
use crate::error::{
    error_of, failure, runtime_error, runtime_failure, ErrorCode, Failure, FfiError, FfiResult,
};
use crate::json::{is_text_of, law_schema_text_has_no_separator, schema_text};
use crate::requests::{
    DescribeTableRequest, DescribeTableResponse, ListTablesRequest, ListTablesResponse,
};
use crate::text::{first_index, has_char, join, optional_text, texts};
use vstd::prelude::*;

verus! {

/// How many tables may be described at the same time.
pub const PREFETCH_CONCURRENCY: usize = 10;

/// How many tables a page may hold.
pub const PAGE_LIMIT: i32 = 1000;

/// A listing in progress: the names so far, and the token of the page to ask for.
pub struct Listing {
    pub namespace_id: String,
    pub table_names: Vec<String>,
    pub page_token: Option<String>,
}

/// What a page leads to: one more page, or the complete list of names.
pub enum ListingStep {
    Next(Listing),
    Complete(Vec<String>),
}

/// Whether there is a page behind the one that came with this token.
pub open spec fn has_next(token: Option<Seq<char>>) -> bool {
    match token {
        Some(t) => t.len() > 0,
        None => false,
    }
}

/// Whether `step` is what follows when a page with the given names and token arrives.
pub open spec fn is_step(
    step: ListingStep,
    before: Listing,
    tables: Seq<Seq<char>>,
    token: Option<Seq<char>>,
) -> bool {
    let names = texts(before.table_names@) + tables;
    match step {
        ListingStep::Next(listing) => {
            &&& has_next(token)
            &&& listing.namespace_id == before.namespace_id
            &&& texts(listing.table_names@) == names
            &&& optional_text(listing.page_token) == token
        },
        ListingStep::Complete(table_names) => !has_next(token) && texts(table_names@) == names,
    }
}

impl Listing {
    /// A listing of which no page has been asked for yet.
    pub fn start(namespace_id: String) -> (r: Listing)
        ensures
            r.namespace_id == namespace_id,
            r.table_names@ == Seq::<String>::empty(),
            r.page_token is None,
    {
        Listing { namespace_id, table_names: Vec::new(), page_token: None }
    }

    /// The request for the next page.
    pub fn request(&self) -> (r: ListTablesRequest)
        ensures
            texts(r.id@) == (if self.namespace_id@.len() == 0 {
                Seq::empty()
            } else {
                seq![self.namespace_id@]
            }),
            optional_text(r.page_token) == optional_text(self.page_token),
            r.limit == PAGE_LIMIT,
    {
        let mut id: Vec<String> = Vec::new();
        if !self.namespace_id.as_str().is_empty() {
            id.push(self.namespace_id.clone());
            assert(texts(id@) =~= seq![self.namespace_id@]);
        } else {
            assert(texts(id@) =~= Seq::empty());
        }
        ListTablesRequest { id, page_token: self.page_token.clone(), limit: PAGE_LIMIT }
    }

    /// Takes the service's reply to the request: a page, or the text of an error.
    pub fn advance(self, reply: Result<ListTablesResponse, String>) -> (r: FfiResult<ListingStep>)
        ensures
            match reply {
                Err(text) => r matches Err(e) && e@ == failure(
                    ErrorCode::NamespaceListTables,
                    "namespace list_tables: "@,
                    text@,
                ),
                Ok(page) => r matches Ok(step) && is_step(
                    step,
                    self,
                    texts(page.tables@),
                    optional_text(page.page_token),
                ),
            },
    {
        match reply {
            Err(text) => Err(
                error_of(
                    ErrorCode::NamespaceListTables,
                    "namespace list_tables: ",
                    text.as_str(),
                ),
            ),
            Ok(page) => {
                let ghost before = self.table_names@;
                let ghost added = page.tables@;
                let mut table_names = self.table_names;
                let mut tables = page.tables;
                table_names.append(&mut tables);
                assert(texts(before + added) =~= texts(before) + texts(added));
                match page.page_token {
                    Some(token) => {
                        if !token.as_str().is_empty() {
                            Ok(
                                ListingStep::Next(
                                    Listing {
                                        namespace_id: self.namespace_id,
                                        table_names,
                                        page_token: Some(token),
                                    },
                                ),
                            )
                        } else {
                            Ok(ListingStep::Complete(table_names))
                        }
                    },
                    None => Ok(ListingStep::Complete(table_names)),
                }
            },
        }
    }
}

/// A page as the listing sees it: its table names and its token.
pub type Page = (Seq<Seq<char>>, Option<Seq<char>>);

/// The names on the pages, in order.
pub open spec fn names_on(pages: Seq<Page>) -> Seq<Seq<char>>
    decreases pages.len(),
{
    if pages.len() == 0 {
        Seq::empty()
    } else {
        names_on(pages.drop_last()) + pages.last().0
    }
}

/// Whether `states` are the states that a listing of `namespace_id` goes through as these pages
/// arrive, each with a page behind it: the first is the start, each other follows from a page.
pub open spec fn is_run(states: Seq<Listing>, namespace_id: String, pages: Seq<Page>) -> bool {
    &&& states.len() == pages.len() + 1
    &&& states[0].namespace_id == namespace_id
    &&& states[0].table_names@.len() == 0
    &&& states[0].page_token is None
    &&& forall|i: int|
        0 <= i < pages.len() ==> is_step(
            ListingStep::Next(states[i + 1]),
            states[i],
            (#[trigger] pages[i]).0,
            pages[i].1,
        )
}

proof fn lemma_run_collects(states: Seq<Listing>, namespace_id: String, pages: Seq<Page>, n: int)
    requires
        is_run(states, namespace_id, pages),
        0 <= n <= pages.len(),
    ensures
        texts(states[n].table_names@) == names_on(pages.take(n)),
        states[n].namespace_id == namespace_id,
    decreases n,
{
    if n == 0 {
        assert(texts(states[0].table_names@) =~= names_on(pages.take(0)));
    } else {
        lemma_run_collects(states, namespace_id, pages, n - 1);
        let page = pages[n - 1];
        assert(pages.take(n).drop_last() =~= pages.take(n - 1));
        assert(pages.take(n).last() == page);
    }
}

/// After any number of pages a listing holds the names of all of them, in order, belongs to the
/// namespace that it was started for, and asks for the page that the last one names.
pub proof fn law_listing_collects_pages(
    states: Seq<Listing>,
    namespace_id: String,
    pages: Seq<Page>,
)
    requires
        is_run(states, namespace_id, pages),
    ensures
        texts(states.last().table_names@) == names_on(pages),
        states.last().namespace_id == namespace_id,
        optional_text(states.last().page_token) == (if pages.len() == 0 {
            None
        } else {
            pages.last().1
        }),
{
    lemma_run_collects(states, namespace_id, pages, pages.len() as int);
    assert(pages.take(pages.len() as int) =~= pages);
    if pages.len() > 0 {
        assert(pages.last() == pages[pages.len() - 1]);
    }
}

/// The page without a successor completes a listing: its result is the names of all pages, in
/// order.
pub proof fn law_listing_completes(
    states: Seq<Listing>,
    namespace_id: String,
    pages: Seq<Page>,
    last: Page,
    step: ListingStep,
)
    requires
        is_run(states, namespace_id, pages),
        !has_next(last.1),
        is_step(step, states.last(), last.0, last.1),
    ensures
        step matches ListingStep::Complete(names) && texts(names@) == names_on(pages.push(last)),
{
    law_listing_collects_pages(states, namespace_id, pages);
    assert(pages.push(last).drop_last() =~= pages);
}

/// A table that is to be described, with the connection to use.
pub struct PrefetchJob {
    pub table_name: String,
    pub config: NamespaceConfig,
    pub request: DescribeTableRequest,
}

/// Whether `request` asks for the schema of the table `name`.
pub open spec fn is_prefetch_of(request: DescribeTableRequest, name: Seq<char>) -> bool {
    &&& texts(request.id@) == seq![name]
    &&& request.with_table_uri is None
    &&& request.load_detailed_metadata == Some(true)
}

/// Whether `job` describes the table `name` on behalf of `call`.
pub open spec fn is_job_for(job: PrefetchJob, name: Seq<char>, call: NamespaceCall) -> bool {
    &&& job.table_name@ == name
    &&& is_config_of(job.config, call)
    &&& is_prefetch_of(job.request, name)
}

/// Whether `jobs` are one for each of the names, in order, over the connection that the arguments
/// of a call describe.
pub open spec fn are_jobs_for(
    jobs: Seq<PrefetchJob>,
    names: Seq<Seq<char>>,
    args: CallArguments<'_>,
) -> bool {
    &&& jobs.len() == names.len()
    &&& forall|i: int|
        0 <= i < jobs.len() ==> {
            &&& (#[trigger] jobs[i]).table_name@ == names[i]
            &&& is_config_for(jobs[i].config, args)
            &&& is_prefetch_of(jobs[i].request, names[i])
        }
}

/// One job for each table, in the order of the names.
pub fn prefetch_jobs(call: &NamespaceCall, table_names: &Vec<String>) -> (r: Vec<PrefetchJob>)
    ensures
        r@.len() == table_names@.len(),
        forall|i: int|
            0 <= i < r@.len() ==> is_job_for(#[trigger] r@[i], table_names@[i]@, *call),
{
    let mut r: Vec<PrefetchJob> = Vec::new();
    for i in 0..table_names.len()
        invariant
            r@.len() == i,
            forall|j: int| 0 <= j < i ==> is_job_for(#[trigger] r@[j], table_names@[j]@, *call),
    {
        let mut id: Vec<String> = Vec::new();
        id.push(table_names[i].clone());
        assert(texts(id@) =~= seq![table_names@[i as int]@]);
        r.push(
            PrefetchJob {
                table_name: table_names[i].clone(),
                config: call.config(),
                request: DescribeTableRequest {
                    id,
                    with_table_uri: None,
                    load_detailed_metadata: Some(true),
                },
            },
        );
    }
    r
}

/// The reply to a job; `None` where the job broke off.
pub type JobReply = Option<Result<DescribeTableResponse, String>>;

/// How listing the names went. `Err`: the runtime failed, with this text. Else the names, or why a
/// page could not be had.
pub type NamesReply = Result<FfiResult<Vec<String>>, String>;

/// How running the jobs went. `Err`: the runtime failed, with this text. Else the replies, in the
/// order of the jobs.
pub type JobsReply = Result<Vec<JobReply>, String>;

/// A table in a listing: its name and, where it could be had, its schema as JSON.
pub type Table = (Seq<char>, Option<Seq<char>>);

/// Whether `schema_json` is what is kept of the reply to a job: a JSON form of the schema, if the
/// reply is a description that has one.
pub open spec fn is_kept_of(
    schema_json: Option<Seq<char>>,
    reply: Result<DescribeTableResponse, String>,
) -> bool {
    match reply {
        Ok(response) => match response.schema {
            Some(schema) => schema_json matches Some(t) && is_text_of(t, schema),
            None => schema_json is None,
        },
        Err(_) => schema_json is None,
    }
}

/// The replies to `count` jobs: a job that no reply came for broke off.
pub open spec fn job_replies(replies: Seq<JobReply>, count: nat) -> Seq<JobReply> {
    Seq::new(
        count,
        |i: int|
            if i < replies.len() {
                replies[i]
            } else {
                None
            },
    )
}

/// Whether `tables` are the tables of these names whose jobs ran to their end, in order, each with
/// what is kept of the reply to its job.
pub open spec fn are_listed(
    tables: Seq<Table>,
    names: Seq<Seq<char>>,
    replies: Seq<JobReply>,
) -> bool
    decreases names.len(),
{
    if names.len() == 0 {
        tables.len() == 0
    } else {
        match replies[names.len() - 1] {
            Some(reply) => {
                &&& tables.len() > 0
                &&& tables.last().0 == names.last()
                &&& is_kept_of(tables.last().1, reply)
                &&& are_listed(tables.drop_last(), names.drop_last(), replies)
            },
            None => are_listed(tables, names.drop_last(), replies),
        }
    }
}

/// The names whose jobs ran to their end, in order.
pub open spec fn finished_names(names: Seq<Seq<char>>, replies: Seq<JobReply>) -> Seq<Seq<char>>
    decreases names.len(),
{
    if names.len() == 0 {
        Seq::empty()
    } else if replies[names.len() - 1] is Some {
        finished_names(names.drop_last(), replies).push(names.last())
    } else {
        finished_names(names.drop_last(), replies)
    }
}

/// The entry of a table in the listing: its name and, behind a tab, its schema if there is one.
pub open spec fn entry_text(p: Table) -> Seq<char> {
    match p.1 {
        Some(schema) => p.0.push('\t') + schema,
        None => p.0,
    }
}

/// The entries of a list of tables.
pub open spec fn entry_texts(s: Seq<Table>) -> Seq<Seq<char>> {
    s.map_values(|p: Table| entry_text(p))
}

/// What is kept of the reply to a job.
pub fn prefetched(reply: &Result<DescribeTableResponse, String>) -> (r: Option<String>)
    ensures
        is_kept_of(optional_text(r), *reply),
{
    match reply {
        Ok(response) => match &response.schema {
            Some(schema) => schema_text(schema).ok(),
            None => None,
        },
        Err(_) => None,
    }
}

/// Whether `entries` are those of the tables of these names whose jobs ran to their end.
pub open spec fn are_entries(
    entries: Seq<Seq<char>>,
    names: Seq<Seq<char>>,
    replies: Seq<JobReply>,
) -> bool {
    exists|tables: Seq<Table>| #[trigger]
        are_listed(tables, names, replies) && entries == entry_texts(tables)
}

/// The entries of the tables whose jobs ran to their end.
fn collect_entries(names: &Vec<String>, replies: &Vec<JobReply>) -> (r: Vec<String>)
    ensures
        are_entries(texts(r@), texts(names@), job_replies(replies@, names@.len())),
{
    let mut r: Vec<String> = Vec::new();
    let ghost all = texts(names@);
    let ghost answers = job_replies(replies@, names@.len());
    let ghost mut tables = Seq::<Table>::empty();
    assert(texts(r@) =~= entry_texts(tables));
    for i in 0..names.len()
        invariant
            all == texts(names@),
            answers == job_replies(replies@, names@.len()),
            are_listed(tables, all.take(i as int), answers),
            texts(r@) == entry_texts(tables),
    {
        let ghost done = r@;
        assert(all.take(i + 1).drop_last() =~= all.take(i as int));
        assert(all.take(i + 1).last() == names@[i as int]@);
        if i < replies.len() {
            if let Some(reply) = &replies[i] {
                let schema_json = prefetched(reply);
                let mut entry = names[i].clone();
                if let Some(schema) = &schema_json {
                    entry.push('\t');
                    entry.append(schema.as_str());
                }
                r.push(entry);
                proof {
                    let table = (all[i as int], optional_text(schema_json));
                    let before = tables;
                    tables = tables.push(table);
                    assert(tables.drop_last() =~= before);
                    assert(entry@ == entry_text(table));
                    assert(texts(r@) =~= texts(done).push(entry@));
                    assert(texts(r@) =~= entry_texts(tables));
                }
            }
        }
    }
    assert(all.take(all.len() as int) =~= all);
    r
}

/// The names that listing them comes to, or its failure.
pub open spec fn listed_names(reply: NamesReply) -> Result<Seq<Seq<char>>, Failure> {
    match reply {
        Err(text) => Err(runtime_failure(text@)),
        Ok(Err(e)) => Err(e@),
        Ok(Ok(names)) => Ok(texts(names@)),
    }
}

/// Whether a result is the entries that running the jobs for `names` comes to, or its failure.
pub open spec fn is_listing(
    r: FfiResult<Vec<String>>,
    names: Seq<Seq<char>>,
    reply: JobsReply,
) -> bool {
    match reply {
        Err(text) => r matches Err(e) && e@ == runtime_failure(text@),
        Ok(replies) => r matches Ok(v) && are_entries(
            texts(v@),
            names,
            job_replies(replies@, names.len()),
        ),
    }
}

/// Whether `listing` is the start of a listing of the namespace that the arguments name.
pub open spec fn is_start(listing: Listing, args: CallArguments<'_>) -> bool {
    &&& args.id matches Ok(s) && listing.namespace_id@ == s@
    &&& listing.table_names@.len() == 0
    &&& listing.page_token is None
}

/// The entries of a listing of `names`.
pub fn listed_tables(names: &Vec<String>, reply: JobsReply) -> (r: FfiResult<Vec<String>>)
    ensures
        is_listing(r, texts(names@), reply),
{
    match reply {
        Err(text) => Err(runtime_error(text.as_str())),
        Ok(replies) => Ok(collect_entries(names, &replies)),
    }
}

/// Whether `r` is what listing the tables comes to for these arguments: their first error; or else
/// the names were listed by `list`, over the connection and for the namespace that the arguments
/// describe, a job was run for each by `describe`, and `r` is what came of that.
pub open spec fn is_listing_for<F, G>(
    args: CallArguments<'_>,
    list: F,
    describe: G,
    r: FfiResult<Vec<String>>,
) -> bool where
    F: FnOnce(NamespaceConfig, Listing) -> NamesReply,
    G: FnOnce(Vec<PrefetchJob>) -> JobsReply,
 {
    match first_error(args) {
        Some(e) => r == Err::<Vec<String>, FfiError>(e),
        None => exists|config: NamespaceConfig, listing: Listing, named: NamesReply| #[trigger]
            list.ensures((config, listing), named) && is_config_for(config, args) && is_start(
                listing,
                args,
            ) && match listed_names(named) {
                Err(f) => r matches Err(e) && e@ == f,
                Ok(names) => exists|jobs: Vec<PrefetchJob>, reply: JobsReply| #[trigger]
                    describe.ensures((jobs,), reply) && are_jobs_for(jobs@, names, args)
                        && is_listing(r, names, reply),
            },
    }
}

/// Lists the tables of a namespace. `list` takes the listing from page to page, to the complete
/// names. `describe` runs the jobs, at most `PREFETCH_CONCURRENCY` at a time. Nothing is listed
/// where an argument is wrong, and no job is run where listing fails.
pub fn list_tables_inner<F, G>(args: CallArguments<'_>, list: F, describe: G) -> (r: FfiResult<
    Vec<String>,
>) where
    F: FnOnce(NamespaceConfig, Listing) -> NamesReply,
    G: FnOnce(Vec<PrefetchJob>) -> JobsReply,

    requires
        first_error(args) is None ==> forall|config: NamespaceConfig, listing: Listing|
            is_config_for(config, args) && is_start(listing, args) ==> #[trigger] list.requires(
                (config, listing),
            ),
        first_error(args) is None ==> forall|
            config: NamespaceConfig,
            listing: Listing,
            named: NamesReply,
            jobs: Vec<PrefetchJob>,
        |
            #[trigger] list.ensures((config, listing), named) && is_config_for(config, args)
                && is_start(listing, args) && (listed_names(named) matches Ok(names)
                && are_jobs_for(jobs@, names, args)) ==> #[trigger] describe.requires((jobs,)),
    ensures
        is_listing_for(args, list, describe, r),
{
    match read_arguments(args) {
        Ok(call) => {
            let config = call.config();
            let listing = Listing::start(call.id.clone());
            let named = list(config, listing);
            assert(list.ensures((config, listing), named));
            match named {
                Err(text) => Err(runtime_error(text.as_str())),
                Ok(Err(e)) => Err(e),
                Ok(Ok(names)) => {
                    let jobs = prefetch_jobs(&call, &names);
                    assert forall|i: int| 0 <= i < jobs@.len() implies {
                        &&& (#[trigger] jobs@[i]).table_name@ == texts(names@)[i]
                        &&& is_config_for(jobs@[i].config, args)
                        &&& is_prefetch_of(jobs@[i].request, texts(names@)[i])
                    } by {
                        assert(is_job_for(jobs@[i], names@[i]@, call));
                    }
                    let reply = describe(jobs);
                    assert(describe.ensures((jobs,), reply));
                    listed_tables(&names, reply)
                },
            }
        },
        Err(e) => Err(e),
    }
}

/// The parts of a text between the separators in it.
pub open spec fn split(s: Seq<char>, separator: char) -> Seq<Seq<char>>
    decreases s.len(),
{
    let end = first_index(s, separator) as int;
    if end >= s.len() {
        seq![s]
    } else {
        seq![s.take(end)] + split(s.skip(end + 1), separator)
    }
}

/// The table name and the schema that an entry holds: what stands before and behind its first
/// tab. Without a tab the entry is a name.
pub open spec fn entry_parts(entry: Seq<char>) -> Table {
    let tab = first_index(entry, '\t') as int;
    if tab < entry.len() {
        (entry.take(tab), Some(entry.skip(tab + 1)))
    } else {
        (entry, None)
    }
}

/// An entry whose name has no tab is taken apart into the name and the schema.
pub proof fn law_entry_round_trip(p: Table)
    requires
        !has_char(p.0, '\t'),
    ensures
        entry_parts(entry_text(p)) == p,
{
    let entry = entry_text(p);
    crate::text::lemma_first_index_is(entry, '\t', p.0.len() as int);
    if let Some(schema) = p.1 {
        assert(entry.take(p.0.len() as int) =~= p.0);
        assert(entry.skip(p.0.len() as int + 1) =~= schema);
    }
}

/// Parts without separators are found again in the joined text.
proof fn lemma_split_of_join(parts: Seq<Seq<char>>, separator: char)
    requires
        parts.len() > 0,
        forall|i: int| 0 <= i < parts.len() ==> !has_char(#[trigger] parts[i], separator),
    ensures
        split(join(parts, separator), separator) == parts,
    decreases parts.len(),
{
    let text = join(parts, separator);
    let first = parts[0];
    assert(!has_char(first, separator));
    if parts.len() == 1 {
        crate::text::lemma_first_index_is(text, separator, first.len() as int);
        assert(split(text, separator) =~= parts);
    } else {
        let rest = parts.drop_first();
        assert forall|i: int| 0 <= i < rest.len() implies !has_char(
            #[trigger] rest[i],
            separator,
        ) by {
            assert(rest[i] == parts[i + 1]);
        }
        lemma_split_of_join(rest, separator);
        crate::text::lemma_join_front(parts, separator);
        crate::text::lemma_first_index_is(text, separator, first.len() as int);
        assert(text.take(first.len() as int) =~= first);
        assert(text.skip(first.len() as int + 1) =~= join(rest, separator));
        assert(split(text, separator) =~= parts);
    }
}

/// A listing of at least one table is read back from its text, line by line, as the tables and
/// their schemas, if no name holds a tab or a line feed and no schema a line feed.
pub proof fn law_listing_round_trip(s: Seq<Table>)
    requires
        s.len() > 0,
        forall|i: int|
            0 <= i < s.len() ==> {
                &&& !has_char((#[trigger] s[i]).0, '\t')
                &&& !has_char(s[i].0, '\n')
                &&& s[i].1 matches Some(schema) ==> !has_char(schema, '\n')
            },
    ensures
        split(join(entry_texts(s), '\n'), '\n').map_values(|e: Seq<char>| entry_parts(e)) == s,
{
    let entries = entry_texts(s);
    assert forall|i: int| 0 <= i < entries.len() implies !has_char(
        #[trigger] entries[i],
        '\n',
    ) by {
        let name = s[i].0;
        assert(entries[i] == entry_text(s[i]));
        if has_char(entries[i], '\n') {
            let j = choose|j: int| 0 <= j < entries[i].len() && entries[i][j] == '\n';
            if j < name.len() {
                assert(name[j] == '\n');
            } else if j > name.len() {
                assert(s[i].1->0[j - name.len() - 1] == '\n');
            }
        }
    }
    lemma_split_of_join(entries, '\n');
    assert forall|i: int| 0 <= i < s.len() implies entry_parts(#[trigger] entries[i]) == s[i] by {
        assert(!has_char(s[i].0, '\t'));
        law_entry_round_trip(s[i]);
    }
    assert(entries.map_values(|e: Seq<char>| entry_parts(e)) =~= s);
}

/// Each listed table has one of the names, and its schema holds no line feed.
proof fn lemma_listed(tables: Seq<Table>, names: Seq<Seq<char>>, replies: Seq<JobReply>)
    requires
        are_listed(tables, names, replies),
    ensures
        forall|i: int|
            0 <= i < tables.len() ==> {
                &&& names.contains((#[trigger] tables[i]).0)
                &&& tables[i].1 matches Some(schema) ==> !has_char(schema, '\n')
            },
    decreases names.len(),
{
    if names.len() > 0 {
        let rest = names.drop_last();
        assert(names[names.len() - 1] == names.last());
        match replies[names.len() - 1] {
            Some(reply) => {
                let before = tables.drop_last();
                lemma_listed(before, rest, replies);
                assert forall|i: int| 0 <= i < tables.len() implies {
                    &&& names.contains((#[trigger] tables[i]).0)
                    &&& tables[i].1 matches Some(schema) ==> !has_char(schema, '\n')
                } by {
                    if i < before.len() {
                        assert(before[i] == tables[i]);
                        let j = choose|j: int| 0 <= j < rest.len() && rest[j] == tables[i].0;
                        assert(names[j] == tables[i].0);
                    } else if tables[i].1 is Some {
                        law_schema_text_has_no_separator(
                            tables[i].1->0,
                            reply->Ok_0.schema->0,
                        );
                    }
                }
            },
            None => {
                lemma_listed(tables, rest, replies);
                assert forall|i: int| 0 <= i < tables.len() implies {
                    &&& names.contains((#[trigger] tables[i]).0)
                    &&& tables[i].1 matches Some(schema) ==> !has_char(schema, '\n')
                } by {
                    let j = choose|j: int| 0 <= j < rest.len() && rest[j] == tables[i].0;
                    assert(names[j] == tables[i].0);
                }
            },
        }
    }
}

/// The tables of a listing, at least one, and the schemas that came with the replies to the jobs
/// are read back from its text as they were, if no name holds a tab or a line feed.
pub proof fn law_listing_carries_schemas(
    tables: Seq<Table>,
    names: Seq<Seq<char>>,
    replies: Seq<JobReply>,
)
    requires
        are_listed(tables, names, replies),
        tables.len() > 0,
        forall|i: int|
            0 <= i < names.len() ==> !has_char(#[trigger] names[i], '\t') && !has_char(
                names[i],
                '\n',
            ),
    ensures
        split(join(entry_texts(tables), '\n'), '\n').map_values(|e: Seq<char>| entry_parts(e))
            == tables,
{
    lemma_listed(tables, names, replies);
    assert forall|i: int| 0 <= i < tables.len() implies {
        &&& !has_char((#[trigger] tables[i]).0, '\t')
        &&& !has_char(tables[i].0, '\n')
        &&& tables[i].1 matches Some(schema) ==> !has_char(schema, '\n')
    } by {
        let j = choose|j: int| 0 <= j < names.len() && names[j] == tables[i].0;
        assert(!has_char(names[j], '\t'));
    }
    law_listing_round_trip(tables);
}

/// A listing holds the names whose jobs ran to their end, in order, and no others.
pub proof fn law_listing_keeps_names(
    tables: Seq<Table>,
    names: Seq<Seq<char>>,
    replies: Seq<JobReply>,
)
    requires
        are_listed(tables, names, replies),
    ensures
        tables.map_values(|p: Table| p.0) == finished_names(names, replies),
    decreases names.len(),
{
    if names.len() > 0 {
        match replies[names.len() - 1] {
            Some(_) => {
                law_listing_keeps_names(tables.drop_last(), names.drop_last(), replies);
                assert(tables.map_values(|p: Table| p.0) =~= tables.drop_last().map_values(
                    |p: Table| p.0,
                ).push(tables.last().0));
            },
            None => {
                law_listing_keeps_names(tables, names.drop_last(), replies);
            },
        }
    } else {
        assert(tables.map_values(|p: Table| p.0) =~= Seq::empty());
    }
}

/// Where every job runs to its end, every name is there.
pub proof fn law_all_jobs_finish(names: Seq<Seq<char>>, replies: Seq<JobReply>)
    requires
        forall|i: int| 0 <= i < names.len() ==> (#[trigger] replies[i]) is Some,
    ensures
        finished_names(names, replies) == names,
    decreases names.len(),
{
    if names.len() > 0 {
        law_all_jobs_finish(names.drop_last(), replies);
    }
    assert(finished_names(names, replies) =~= names);
}

/// From pages to entries: where the pages of a listing come to their end and a job is run for each
/// name, the listing has an entry for each name on the pages, in order, less those whose jobs broke
/// off.
pub proof fn law_listing_lists_pages(
    states: Seq<Listing>,
    namespace_id: String,
    pages: Seq<Page>,
    last: Page,
    step: ListingStep,
    entries: Seq<Seq<char>>,
    replies: Seq<JobReply>,
)
    requires
        is_run(states, namespace_id, pages),
        !has_next(last.1),
        is_step(step, states.last(), last.0, last.1),
        step matches ListingStep::Complete(names) && are_entries(entries, texts(names@), replies),
    ensures
        exists|tables: Seq<Table>| #[trigger]
            are_listed(tables, names_on(pages.push(last)), replies) && entries == entry_texts(
                tables,
            ) && tables.map_values(|p: Table| p.0) == finished_names(
                names_on(pages.push(last)),
                replies,
            ),
{
    law_listing_completes(states, namespace_id, pages, last, step);
    let names = names_on(pages.push(last));
    let tables = choose|tables: Seq<Table>| #[trigger]
        are_listed(tables, names, replies) && entries == entry_texts(tables);
    law_listing_keeps_names(tables, names, replies);
}

proof fn lemma_listing_ignores_absent<F, G>(
    a: CallArguments<'_>,
    b: CallArguments<'_>,
    list: F,
    describe: G,
    r: FfiResult<Vec<String>>,
) where
    F: FnOnce(NamespaceConfig, Listing) -> NamesReply,
    G: FnOnce(Vec<PrefetchJob>) -> JobsReply,

    requires
        same_arguments(a, b),
        is_listing_for(a, list, describe, r),
    ensures
        is_listing_for(b, list, describe, r),
{
    law_absent_arguments_are_alike(a, b);
    if first_error(a) is None {
        let (config, listing, named) = choose|
            config: NamespaceConfig,
            listing: Listing,
            named: NamesReply,
        | #[trigger]
            list.ensures((config, listing), named) && is_config_for(config, a) && is_start(
                listing,
                a,
            ) && match listed_names(named) {
                Err(f) => r matches Err(e) && e@ == f,
                Ok(names) => exists|jobs: Vec<PrefetchJob>, reply: JobsReply| #[trigger]
                    describe.ensures((jobs,), reply) && are_jobs_for(jobs@, names, a)
                        && is_listing(r, names, reply),
            };
        assert(is_config_for(config, b) && is_start(listing, b));
        if let Ok(names) = listed_names(named) {
            let (jobs, reply) = choose|jobs: Vec<PrefetchJob>, reply: JobsReply| #[trigger]
                describe.ensures((jobs,), reply) && are_jobs_for(jobs@, names, a) && is_listing(
                    r,
                    names,
                    reply,
                );
            assert(are_jobs_for(jobs@, names, b));
            assert(describe.ensures((jobs,), reply));
        }
        assert(list.ensures((config, listing), named));
    }
}

/// For a listing, null and empty optional arguments mean the same, and a missing delimiter means
/// `$`: the same pages are asked for over the same connection, the same jobs are run, and the same
/// replies lead to the same results.
pub proof fn law_listing_ignores_absent_arguments<F, G>(
    a: CallArguments<'_>,
    b: CallArguments<'_>,
    list: F,
    describe: G,
    r: FfiResult<Vec<String>>,
) where
    F: FnOnce(NamespaceConfig, Listing) -> NamesReply,
    G: FnOnce(Vec<PrefetchJob>) -> JobsReply,

    requires
        same_arguments(a, b),
    ensures
        is_listing_for(a, list, describe, r) <==> is_listing_for(b, list, describe, r),
        forall|listing: Listing| is_start(listing, a) <==> is_start(listing, b),
        forall|jobs: Seq<PrefetchJob>, names: Seq<Seq<char>>|
            are_jobs_for(jobs, names, a) <==> are_jobs_for(jobs, names, b),
{
    law_absent_arguments_are_alike(a, b);
    if is_listing_for(a, list, describe, r) {
        lemma_listing_ignores_absent(a, b, list, describe, r);
    }
    if is_listing_for(b, list, describe, r) {
        lemma_listing_ignores_absent(b, a, list, describe, r);
    }
}

/// What follows a page is decided by its token: a token that is not empty leads to the page that it
/// names, an empty one or none completes the listing. Either way the names so far are kept and the
/// page's names come behind them, all of them and in order.
pub proof fn law_page_adds_its_names(
    r: FfiResult<ListingStep>,
    before: Listing,
    page: ListTablesResponse,
)
    requires
        r matches Ok(step) && is_step(
            step,
            before,
            texts(page.tables@),
            optional_text(page.page_token),
        ),
    ensures
        r is Ok,
        (page.page_token is Some && page.page_token->0@.len() > 0) <==> r->Ok_0 is Next,
        ({
            let names = match r->Ok_0 {
                ListingStep::Next(listing) => listing.table_names@,
                ListingStep::Complete(names) => names@,
            };
            &&& names.len() == before.table_names@.len() + page.tables@.len()
            &&& forall|i: int|
                0 <= i < before.table_names@.len() ==> (#[trigger] names[i])@
                    == before.table_names@[i]@
            &&& forall|i: int|
                0 <= i < page.tables@.len() ==> names[before.table_names@.len() + i]@ == (
                #[trigger] page.tables@[i])@
        }),
        r->Ok_0 matches ListingStep::Next(listing) ==> listing.namespace_id == before.namespace_id
            && listing.page_token is Some && listing.page_token->0@ == page.page_token->0@,
{
    let names = match r->Ok_0 {
        ListingStep::Next(listing) => listing.table_names@,
        ListingStep::Complete(names) => names@,
    };
    let all = texts(before.table_names@) + texts(page.tables@);
    assert(texts(names) == all);
    assert(texts(names).len() == names.len());
    assert forall|i: int| 0 <= i < before.table_names@.len() implies (#[trigger] names[i])@
        == before.table_names@[i]@ by {
        assert(texts(names)[i] == all[i]);
    }
    assert forall|i: int| 0 <= i < page.tables@.len() implies names[before.table_names@.len() + i]@
        == (#[trigger] page.tables@[i])@ by {
        assert(texts(names)[before.table_names@.len() + i] == all[before.table_names@.len() + i]);
    }
}

/// The names on pages are those of each page, one page after the other.
pub proof fn law_names_on_pages(a: Seq<Page>, b: Seq<Page>, page: Page)
    ensures
        names_on(Seq::empty()).len() == 0,
        names_on(seq![page]) == page.0,
        names_on(a + b) == names_on(a) + names_on(b),
    decreases b.len(),
{
    assert(seq![page].drop_last() =~= Seq::empty());
    assert(names_on(seq![page].drop_last()) =~= Seq::empty());
    assert(names_on(seq![page]) =~= page.0);
    if b.len() == 0 {
        assert(a + b =~= a);
        assert(names_on(a) + names_on(b) =~= names_on(a));
    } else {
        law_names_on_pages(a, b.drop_last(), page);
        assert((a + b).drop_last() =~= a + b.drop_last());
        assert((a + b).last() == b.last());
        assert(names_on(a + b) =~= names_on(a) + names_on(b));
    }
}

/// A listing starts at the first page of the namespace that the arguments name, with no names.
pub proof fn law_listing_starts_empty(listing: Listing, args: CallArguments<'_>)
    requires
        is_start(listing, args),
    ensures
        args.id matches Ok(s) && listing.namespace_id@ == s@,
        listing.table_names@ == Seq::<String>::empty(),
        listing.page_token is None,
{
}

/// Every name, however many there are, has its job: it asks for that table's description with its
/// detailed metadata, over the connection that the arguments describe.
pub proof fn law_every_table_is_described(
    jobs: Seq<PrefetchJob>,
    names: Seq<Seq<char>>,
    args: CallArguments<'_>,
)
    requires
        are_jobs_for(jobs, names, args),
    ensures
        jobs.len() == names.len(),
        forall|i: int|
            0 <= i < names.len() ==> {
                let job = #[trigger] jobs[i];
                &&& job.table_name@ == names[i]
                &&& job.request.id@.len() == 1
                &&& job.request.id@[0]@ == names[i]
                &&& job.request.load_detailed_metadata == Some(true)
                &&& job.request.with_table_uri is None
                &&& is_config_for(job.config, args)
            },
{
    assert forall|i: int| 0 <= i < names.len() implies {
        let job = #[trigger] jobs[i];
        &&& job.table_name@ == names[i]
        &&& job.request.id@.len() == 1
        &&& job.request.id@[0]@ == names[i]
        &&& job.request.load_detailed_metadata == Some(true)
        &&& job.request.with_table_uri is None
        &&& is_config_for(job.config, args)
    } by {
        let id = jobs[i].request.id@;
        assert(texts(id) == seq![names[i]]);
        assert(texts(id).len() == id.len());
        assert(texts(id)[0] == id[0]@);
    }
}

/// The job of a single table, likewise, on behalf of a call whose arguments were read.
pub proof fn law_job_describes_its_table(
    job: PrefetchJob,
    name: Seq<char>,
    call: NamespaceCall,
    args: CallArguments<'_>,
)
    requires
        is_job_for(job, name, call),
        is_call_of(call, args),
    ensures
        are_jobs_for(seq![job], seq![name], args),
{
    crate::call::law_connection_of_call(job.config, call, args);
}

/// How many of the first `n` jobs came back with a reply.
pub open spec fn replied(replies: Seq<JobReply>, n: nat) -> nat
    decreases n,
{
    if n == 0 {
        0
    } else if n <= replies.len() && replies[n - 1] is Some {
        replied(replies, (n - 1) as nat) + 1
    } else {
        replied(replies, (n - 1) as nat)
    }
}

/// Whether `entry` is that of the table `name` after this reply: the name and, where the reply has
/// a schema, a tab and a JSON form of that schema.
pub open spec fn is_entry_of(
    entry: Seq<char>,
    name: Seq<char>,
    reply: Result<DescribeTableResponse, String>,
) -> bool {
    if reply is Ok && reply->Ok_0.schema is Some {
        exists|schema: Seq<char>| #[trigger]
            is_text_of(schema, reply->Ok_0.schema->0) && entry == name + seq!['\t'] + schema
    } else {
        entry == name
    }
}

pub(crate) proof fn lemma_listed_by_reply(
    tables: Seq<Table>,
    names: Seq<Seq<char>>,
    replies: Seq<JobReply>,
    count: nat,
)
    requires
        names.len() <= count,
        are_listed(tables, names, job_replies(replies, count)),
    ensures
        tables.len() == replied(replies, names.len()),
        forall|i: int|
            #![trigger replies[i]]
            0 <= i < names.len() && i < replies.len() && replies[i] is Some ==> {
                let place = replied(replies, i as nat) as int;
                &&& 0 <= place < tables.len()
                &&& is_entry_of(entry_text(tables[place]), names[i], replies[i]->0)
            },
    decreases names.len(),
{
    let answers = job_replies(replies, count);
    if names.len() > 0 {
        let n = names.len() - 1;
        let rest = names.drop_last();
        let came = n < replies.len() && replies[n] is Some;
        assert(answers[n] is Some <==> came);
        let before = if came {
            tables.drop_last()
        } else {
            tables
        };
        lemma_listed_by_reply(before, rest, replies, count);
        assert forall|i: int|
            #![trigger replies[i]]
            0 <= i < names.len() && i < replies.len() && replies[i] is Some implies {
            let place = replied(replies, i as nat) as int;
            &&& 0 <= place < tables.len()
            &&& is_entry_of(entry_text(tables[place]), names[i], replies[i]->0)
        } by {
            let place = replied(replies, i as nat) as int;
            if i < n {
                assert(rest[i] == names[i]);
                assert(before[place] == tables[place]);
            } else {
                assert(place == before.len());
                let table = tables.last();
                assert(tables[place] == table);
                assert(table.0 == names[i]);
                assert(is_kept_of(table.1, replies[i]->0));
                if table.1 is Some {
                    assert(entry_text(table) =~= names[i] + seq!['\t'] + table.1->0);
                    assert(is_text_of(table.1->0, replies[i]->0->Ok_0.schema->0));
                }
            }
        }
    }
}

/// Every reply that came decides the entry of its table, however many tables there are: the listing
/// has as many entries as replies came, and the entry of a table stands behind those of the tables
/// before it whose replies came.
pub proof fn law_every_reply_is_listed(
    r: FfiResult<Vec<String>>,
    names: Seq<Seq<char>>,
    replies: Vec<JobReply>,
)
    requires
        is_listing(r, names, Ok(replies)),
    ensures
        r is Ok,
        r->Ok_0@.len() == replied(replies@, names.len()),
        forall|i: int|
            #![trigger replies@[i]]
            0 <= i < names.len() && i < replies@.len() && replies@[i] is Some ==> {
                let place = replied(replies@, i as nat) as int;
                &&& 0 <= place < r->Ok_0@.len()
                &&& is_entry_of(r->Ok_0@[place]@, names[i], replies@[i]->0)
            },
{
    let v = r->Ok_0@;
    let answers = job_replies(replies@, names.len());
    let tables = choose|tables: Seq<Table>| #[trigger]
        are_listed(tables, names, answers) && texts(v) == entry_texts(tables);
    lemma_listed_by_reply(tables, names, replies@, names.len());
    assert(texts(v).len() == v.len());
    assert(entry_texts(tables).len() == tables.len());
    assert forall|i: int|
        #![trigger replies@[i]]
        0 <= i < names.len() && i < replies@.len() && replies@[i] is Some implies {
        let place = replied(replies@, i as nat) as int;
        &&& 0 <= place < v.len()
        &&& is_entry_of(v[place]@, names[i], replies@[i]->0)
    } by {
        let place = replied(replies@, i as nat) as int;
        assert(texts(v)[place] == v[place]@);
        assert(entry_texts(tables)[place] == entry_text(tables[place]));
    }
}

proof fn lemma_all_replied(replies: Seq<JobReply>, n: nat)
    requires
        n <= replies.len(),
        forall|i: int| 0 <= i < n ==> (#[trigger] replies[i]) is Some,
    ensures
        replied(replies, n) == n,
    decreases n,
{
    if n > 0 {
        lemma_all_replied(replies, (n - 1) as nat);
        assert(replies[n - 1] is Some);
    }
}

/// Where every job has a reply, the listing has exactly one entry for each table, in the order of
/// the names, each as its own reply says.
pub proof fn law_every_table_is_listed(
    r: FfiResult<Vec<String>>,
    names: Seq<Seq<char>>,
    replies: Vec<JobReply>,
)
    requires
        is_listing(r, names, Ok(replies)),
        names.len() <= replies@.len(),
        forall|i: int| 0 <= i < names.len() ==> (#[trigger] replies@[i]) is Some,
    ensures
        r is Ok,
        r->Ok_0@.len() == names.len(),
        forall|i: int|
            0 <= i < names.len() ==> is_entry_of(
                (#[trigger] r->Ok_0@[i])@,
                names[i],
                replies@[i]->0,
            ),
{
    law_every_reply_is_listed(r, names, replies);
    lemma_all_replied(replies@, names.len());
    assert forall|i: int| 0 <= i < names.len() implies is_entry_of(
        (#[trigger] r->Ok_0@[i])@,
        names[i],
        replies@[i]->0,
    ) by {
        lemma_all_replied(replies@, i as nat);
        assert(replies@[i] is Some);
    }
}

/// What is kept of a reply is a JSON form of its schema, whenever it has one, and else nothing.
pub proof fn law_schema_of_reply_is_kept(
    schema_json: Option<String>,
    reply: Result<DescribeTableResponse, String>,
)
    requires
        is_kept_of(optional_text(schema_json), reply),
    ensures
        schema_json is Some <==> reply is Ok && reply->Ok_0.schema is Some,
        schema_json matches Some(t) ==> is_text_of(t@, reply->Ok_0.schema->0),
{
}

/// A runtime that fails while jobs are run, or while names are listed, is reported with its text; a
/// page that could not be had is reported as it is; names that were listed are all there.
pub proof fn law_listing_failures_are_reported(
    r: FfiResult<Vec<String>>,
    names: Seq<Seq<char>>,
    text: String,
    error: FfiError,
    found: Vec<String>,
)
    ensures
        is_listing(r, names, Err(text)) ==> r is Err && r->Err_0.code == ErrorCode::Runtime
            && r->Err_0.message@ == "runtime: "@ + text@,
        listed_names(Err(text)) matches Err(f) && f.code == ErrorCode::Runtime && f.message
            == "runtime: "@ + text@,
        listed_names(Ok(Err(error))) matches Err(f) && f.code == error.code && f.message
            == error.message@,
        listed_names(Ok(Ok(found))) matches Ok(s) && s.len() == found@.len() && forall|i: int|
            0 <= i < s.len() ==> #[trigger] s[i] == found@[i]@,
{
}

} // verus!
