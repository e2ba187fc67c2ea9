//! What every namespace call starts with: its arguments, and the connection that they describe.

use crate::error::{FfiError, FfiResult};
use crate::text::{concat, optional_str, optional_text};
use crate::tsv::{headers_in, law_other_line, pair_texts, parse_headers_tsv};
use vstd::prelude::*;

verus! {

/// The arguments of a call as they come from C. A required argument is its text or what is wrong
/// with it; an optional one is `None` for a null pointer.
pub struct CallArguments<'a> {
    pub endpoint: FfiResult<&'a str>,
    pub id: FfiResult<&'a str>,
    pub bearer_token: Option<FfiResult<&'a str>>,
    pub api_key: Option<FfiResult<&'a str>>,
    pub delimiter: Option<FfiResult<&'a str>>,
    pub headers_tsv: Option<FfiResult<&'a str>>,
}

/// A call whose arguments are in order. `id` names the namespace or the table.
pub struct NamespaceCall {
    pub endpoint: String,
    pub id: String,
    pub delimiter: String,
    pub bearer_token: Option<String>,
    pub api_key: Option<String>,
    pub headers_tsv: Option<String>,
}

/// How to reach a namespace service: its endpoint, the headers in the order in which they are set,
/// and the delimiter of identifiers.
pub struct NamespaceConfig {
    pub endpoint: String,
    pub headers: Vec<(String, String)>,
    pub delimiter: Option<String>,
}

/// A request and the connection to send it over.
pub struct ServiceCall<R> {
    pub config: NamespaceConfig,
    pub request: R,
}

/// The text of an optional argument: an empty one counts as absent.
pub open spec fn given_text(arg: Option<FfiResult<&str>>) -> Option<Seq<char>> {
    match arg {
        Some(Ok(s)) if s@.len() > 0 => Some(s@),
        _ => None,
    }
}

/// What is wrong with an optional argument, if anything.
pub open spec fn optional_error(arg: Option<FfiResult<&str>>) -> Option<FfiError> {
    match arg {
        Some(Err(e)) => Some(e),
        _ => None,
    }
}

/// The first error among the arguments: endpoint, id, delimiter, bearer token, API key, headers.
pub open spec fn first_error(args: CallArguments<'_>) -> Option<FfiError> {
    if args.endpoint is Err {
        Some(args.endpoint->Err_0)
    } else if args.id is Err {
        Some(args.id->Err_0)
    } else if optional_error(args.delimiter) is Some {
        optional_error(args.delimiter)
    } else if optional_error(args.bearer_token) is Some {
        optional_error(args.bearer_token)
    } else if optional_error(args.api_key) is Some {
        optional_error(args.api_key)
    } else {
        optional_error(args.headers_tsv)
    }
}

/// The delimiter of a call: `$` where none is given.
pub open spec fn delimiter_or_default(delimiter: Option<Seq<char>>) -> Seq<char> {
    match delimiter {
        Some(d) => d,
        None => "$"@,
    }
}

/// Whether `call` is what the arguments say.
pub open spec fn is_call_of(call: NamespaceCall, args: CallArguments<'_>) -> bool {
    &&& args.endpoint matches Ok(s) && call.endpoint@ == s@
    &&& args.id matches Ok(s) && call.id@ == s@
    &&& call.delimiter@ == delimiter_or_default(given_text(args.delimiter))
    &&& optional_text(call.bearer_token) == given_text(args.bearer_token)
    &&& optional_text(call.api_key) == given_text(args.api_key)
    &&& optional_text(call.headers_tsv) == given_text(args.headers_tsv)
}

/// The headers that a call sends: the bearer token, the API key, then the custom headers.
pub open spec fn call_headers(
    bearer_token: Option<Seq<char>>,
    api_key: Option<Seq<char>>,
    custom: Seq<(Seq<char>, Seq<char>)>,
) -> Seq<(Seq<char>, Seq<char>)> {
    let bearer = match bearer_token {
        Some(t) => seq![("Authorization"@, "Bearer "@ + t)],
        None => Seq::empty(),
    };
    let key = match api_key {
        Some(k) => seq![("x-api-key"@, k)],
        None => Seq::empty(),
    };
    bearer + key + custom
}

/// Takes an optional argument: a null pointer and an empty text are both absent.
pub fn optional_cstr_to_string(arg: Option<FfiResult<&str>>) -> (r: FfiResult<Option<String>>)
    ensures
        match optional_error(arg) {
            Some(e) => r == Err::<Option<String>, FfiError>(e),
            None => r matches Ok(t) && optional_text(t) == given_text(arg),
        },
{
    match arg {
        None => Ok(None),
        Some(Err(e)) => Err(e),
        Some(Ok(s)) => {
            if s.is_empty() {
                Ok(None)
            } else {
                Ok(Some(s.to_owned()))
            }
        },
    }
}

/// Checks the arguments of a call, in a fixed order, and takes them over.
pub fn read_arguments(args: CallArguments<'_>) -> (r: FfiResult<NamespaceCall>)
    ensures
        match first_error(args) {
            Some(e) => r == Err::<NamespaceCall, FfiError>(e),
            None => r matches Ok(call) && is_call_of(call, args),
        },
{
    let endpoint = match args.endpoint {
        Ok(s) => s.to_owned(),
        Err(e) => {
            return Err(e);
        },
    };
    let id = match args.id {
        Ok(s) => s.to_owned(),
        Err(e) => {
            return Err(e);
        },
    };
    let delimiter = match optional_cstr_to_string(args.delimiter) {
        Ok(Some(d)) => d,
        Ok(None) => "$".to_owned(),
        Err(e) => {
            return Err(e);
        },
    };
    let bearer_token = match optional_cstr_to_string(args.bearer_token) {
        Ok(t) => t,
        Err(e) => {
            return Err(e);
        },
    };
    let api_key = match optional_cstr_to_string(args.api_key) {
        Ok(k) => k,
        Err(e) => {
            return Err(e);
        },
    };
    let headers_tsv = match optional_cstr_to_string(args.headers_tsv) {
        Ok(h) => h,
        Err(e) => {
            return Err(e);
        },
    };
    Ok(NamespaceCall { endpoint, id, delimiter, bearer_token, api_key, headers_tsv })
}

impl NamespaceConfig {
    /// A connection to `endpoint` without headers and without a delimiter of its own.
    pub fn new(endpoint: &str) -> (r: NamespaceConfig)
        ensures
            r.endpoint@ == endpoint@,
            r.headers@ == Seq::<(String, String)>::empty(),
            r.delimiter is None,
    {
        NamespaceConfig { endpoint: endpoint.to_owned(), headers: Vec::new(), delimiter: None }
    }

    /// Adds a header behind those that are there.
    pub fn header(self, name: String, value: String) -> (r: NamespaceConfig)
        ensures
            r.endpoint == self.endpoint,
            r.headers@ == self.headers@.push((name, value)),
            r.delimiter == self.delimiter,
    {
        let mut headers = self.headers;
        headers.push((name, value));
        NamespaceConfig { endpoint: self.endpoint, headers, delimiter: self.delimiter }
    }

    /// Sets the delimiter.
    pub fn with_delimiter(self, delimiter: String) -> (r: NamespaceConfig)
        ensures
            r.endpoint == self.endpoint,
            r.headers == self.headers,
            r.delimiter == Some(delimiter),
    {
        NamespaceConfig {
            endpoint: self.endpoint,
            headers: self.headers,
            delimiter: Some(delimiter),
        }
    }
}

/// The connection to `endpoint` with the given credentials and custom headers.
pub fn build_config(
    endpoint: &str,
    bearer_token: Option<&str>,
    api_key: Option<&str>,
    headers_tsv: Option<&str>,
) -> (r: NamespaceConfig)
    ensures
        r.endpoint@ == endpoint@,
        pair_texts(r.headers@) == call_headers(
            optional_str(bearer_token),
            optional_str(api_key),
            headers_in(optional_str(headers_tsv)),
        ),
        r.delimiter is None,
{
    let mut config = NamespaceConfig::new(endpoint);
    if let Some(token) = bearer_token {
        config = config.header("Authorization".to_owned(), concat("Bearer ", token));
    }
    if let Some(key) = api_key {
        config = config.header("x-api-key".to_owned(), key.to_owned());
    }
    let mut custom = parse_headers_tsv(headers_tsv);
    let ghost before = config.headers@;
    let ghost added = custom@;
    config.headers.append(&mut custom);
    proof {
        let expected = call_headers(
            optional_str(bearer_token),
            optional_str(api_key),
            headers_in(optional_str(headers_tsv)),
        );
        assert(pair_texts(before + added) =~= pair_texts(before) + pair_texts(added));
        assert(pair_texts(config.headers@) =~= expected);
    }
    config
}

impl NamespaceCall {
    /// The connection that the call uses.
    pub fn config(&self) -> (r: NamespaceConfig)
        ensures
            is_config_of(r, *self),
    {
        let bearer_token = match &self.bearer_token {
            Some(t) => Some(t.as_str()),
            None => None,
        };
        let api_key = match &self.api_key {
            Some(k) => Some(k.as_str()),
            None => None,
        };
        let headers_tsv = match &self.headers_tsv {
            Some(h) => Some(h.as_str()),
            None => None,
        };
        let config = build_config(self.endpoint.as_str(), bearer_token, api_key, headers_tsv);
        config.with_delimiter(self.delimiter.clone())
    }
}

/// Whether `config` is the connection that `call` describes.
pub open spec fn is_config_of(config: NamespaceConfig, call: NamespaceCall) -> bool {
    &&& config.endpoint@ == call.endpoint@
    &&& pair_texts(config.headers@) == call_headers(
        optional_text(call.bearer_token),
        optional_text(call.api_key),
        headers_in(optional_text(call.headers_tsv)),
    )
    &&& optional_text(config.delimiter) == Some(call.delimiter@)
}

/// Whether `config` is the connection that the arguments of a call describe.
pub open spec fn is_config_for(config: NamespaceConfig, args: CallArguments<'_>) -> bool {
    &&& args.endpoint matches Ok(s) && config.endpoint@ == s@
    &&& pair_texts(config.headers@) == call_headers(
        given_text(args.bearer_token),
        given_text(args.api_key),
        headers_in(given_text(args.headers_tsv)),
    )
    &&& optional_text(config.delimiter) == Some(
        delimiter_or_default(given_text(args.delimiter)),
    )
}

/// Whether an optional argument is not there: a null pointer or an empty text.
pub open spec fn is_absent(arg: Option<FfiResult<&str>>) -> bool {
    match arg {
        Some(Ok(s)) => s@.len() == 0,
        Some(Err(_)) => false,
        None => true,
    }
}

/// Whether two arguments are the same text, or wrong in the same way.
pub open spec fn same_argument(a: FfiResult<&str>, b: FfiResult<&str>) -> bool {
    match (a, b) {
        (Ok(s), Ok(t)) => s@ == t@,
        (Err(e), Err(f)) => e == f,
        _ => false,
    }
}

/// Whether two optional arguments are the same, or neither is there.
pub open spec fn same_option(a: Option<FfiResult<&str>>, b: Option<FfiResult<&str>>) -> bool {
    match (a, b) {
        (Some(x), Some(y)) => same_argument(x, y) || (is_absent(a) && is_absent(b)),
        _ => is_absent(a) && is_absent(b),
    }
}

/// Whether a delimiter is not there, or is the default.
pub open spec fn is_default_delimiter(arg: Option<FfiResult<&str>>) -> bool {
    is_absent(arg) || (arg matches Some(Ok(s)) && s@ == "$"@)
}

/// Whether two sets of arguments differ at most in optional arguments that are null in the one and
/// empty in the other, and in a delimiter that is missing in the one and `$` in the other.
pub open spec fn same_arguments(a: CallArguments<'_>, b: CallArguments<'_>) -> bool {
    &&& same_argument(a.endpoint, b.endpoint)
    &&& same_argument(a.id, b.id)
    &&& same_option(a.bearer_token, b.bearer_token)
    &&& same_option(a.api_key, b.api_key)
    &&& same_option(a.headers_tsv, b.headers_tsv)
    &&& same_option(a.delimiter, b.delimiter) || (is_default_delimiter(a.delimiter)
        && is_default_delimiter(b.delimiter))
}

/// Null and empty optional arguments mean the same, and a missing delimiter means `$`: arguments
/// that differ in nothing else fail with the same error or describe the same call, over the same
/// connection.
pub proof fn law_absent_arguments_are_alike(a: CallArguments<'_>, b: CallArguments<'_>)
    requires
        same_arguments(a, b),
    ensures
        first_error(a) == first_error(b),
        forall|call: NamespaceCall| is_call_of(call, a) <==> is_call_of(call, b),
        forall|config: NamespaceConfig| is_config_for(config, a) <==> is_config_for(config, b),
{
    reveal_strlit("$");
}

/// The arguments are in order exactly when none of the six is wrong; else the first wrong one
/// decides, in the order endpoint, id, delimiter, bearer token, API key, headers, and its error is
/// handed on as it is.
pub proof fn law_first_wrong_argument_decides(args: CallArguments<'_>)
    ensures
        first_error(args) is None <==> {
            &&& args.endpoint is Ok
            &&& args.id is Ok
            &&& !(args.delimiter matches Some(Err(_)))
            &&& !(args.bearer_token matches Some(Err(_)))
            &&& !(args.api_key matches Some(Err(_)))
            &&& !(args.headers_tsv matches Some(Err(_)))
        },
        args.endpoint matches Err(e) ==> first_error(args) == Some(e),
        args.endpoint is Ok ==> (args.id matches Err(e) ==> first_error(args) == Some(e)),
        args.endpoint is Ok && args.id is Ok ==> {
            &&& args.delimiter matches Some(Err(e)) ==> first_error(args) == Some(e)
            &&& !(args.delimiter matches Some(Err(_))) ==> {
                &&& args.bearer_token matches Some(Err(e)) ==> first_error(args) == Some(e)
                &&& !(args.bearer_token matches Some(Err(_))) ==> {
                    &&& args.api_key matches Some(Err(e)) ==> first_error(args) == Some(e)
                    &&& !(args.api_key matches Some(Err(_))) ==> (args.headers_tsv matches Some(
                        Err(e),
                    ) ==> first_error(args) == Some(e))
                }
            }
        },
{
}

/// An optional argument that is a text goes into the call as it is, however long; one that is empty
/// or null does not.
pub proof fn law_given_text_is_kept(call: NamespaceCall, args: CallArguments<'_>)
    requires
        is_call_of(call, args),
    ensures
        args.endpoint matches Ok(s) && call.endpoint@ == s@,
        args.id matches Ok(s) && call.id@ == s@,
        args.bearer_token matches Some(Ok(s)) ==> s@.len() > 0 ==> call.bearer_token is Some
            && call.bearer_token->0@ == s@,
        args.api_key matches Some(Ok(s)) ==> s@.len() > 0 ==> call.api_key is Some
            && call.api_key->0@ == s@,
        args.headers_tsv matches Some(Ok(s)) ==> s@.len() > 0 ==> call.headers_tsv is Some
            && call.headers_tsv->0@ == s@,
        args.delimiter matches Some(Ok(s)) ==> s@.len() > 0 ==> call.delimiter@ == s@,
        is_absent(args.bearer_token) ==> call.bearer_token is None,
        is_absent(args.api_key) ==> call.api_key is None,
        is_absent(args.headers_tsv) ==> call.headers_tsv is None,
        is_absent(args.delimiter) ==> call.delimiter@ == seq!['$'],
{
    reveal_strlit("$");
    assert("$"@ =~= seq!['$']);
}

/// The headers of a call: a bearer token is sent in the one header for it, an API key in the one
/// for that, and every custom header is sent as it is, in order; each whether or not the others are
/// there, and nothing else is sent.
pub proof fn law_call_headers(
    bearer_token: Option<Seq<char>>,
    api_key: Option<Seq<char>>,
    custom: Seq<(Seq<char>, Seq<char>)>,
)
    ensures
        ({
            let headers = call_headers(bearer_token, api_key, custom);
            let before_key: int = if bearer_token is Some {
                1
            } else {
                0
            };
            let before_custom: int = if api_key is Some {
                before_key + 1
            } else {
                before_key
            };
            &&& headers.len() == before_custom + custom.len()
            &&& bearer_token matches Some(t) ==> headers[0].0 == "Authorization"@ && headers[0].1
                == "Bearer "@ + t
            &&& api_key matches Some(k) ==> headers[before_key].0 == "x-api-key"@
                && headers[before_key].1 == k
            &&& forall|i: int|
                0 <= i < custom.len() ==> headers[before_custom + i] == #[trigger] custom[i]
        }),
{
}

/// The connection of a call goes to the endpoint, uses the delimiter that is given or else `$`, and
/// sends a header for each credential that is given and for each custom header.
pub proof fn law_connection_of_arguments(config: NamespaceConfig, args: CallArguments<'_>)
    requires
        is_config_for(config, args),
    ensures
        args.endpoint matches Ok(s) && config.endpoint@ == s@,
        config.delimiter is Some,
        args.delimiter matches Some(Ok(s)) ==> s@.len() > 0 ==> config.delimiter->0@ == s@,
        is_absent(args.delimiter) ==> config.delimiter->0@ == seq!['$'],
        ({
            let token = match args.bearer_token {
                Some(Ok(s)) if s@.len() > 0 => Some(s@),
                _ => None,
            };
            let key = match args.api_key {
                Some(Ok(s)) if s@.len() > 0 => Some(s@),
                _ => None,
            };
            let custom = match args.headers_tsv {
                Some(Ok(s)) => headers_in(Some(s@)),
                _ => Seq::empty(),
            };
            let before_key: int = if token is Some {
                1
            } else {
                0
            };
            let before_custom: int = if key is Some {
                before_key + 1
            } else {
                before_key
            };
            let headers = config.headers@;
            &&& headers.len() == before_custom + custom.len()
            &&& token matches Some(t) ==> headers[0].0@ == "Authorization"@ && headers[0].1@
                == "Bearer "@ + t
            &&& key matches Some(k) ==> headers[before_key].0@ == "x-api-key"@
                && headers[before_key].1@ == k
            &&& forall|i: int|
                0 <= i < custom.len() ==> headers[before_custom + i].0@ == (#[trigger] custom[i]).0
                    && headers[before_custom + i].1@ == custom[i].1
        }),
{
    reveal_strlit("$");
    assert("$"@ =~= seq!['$']);
    let texts = pair_texts(config.headers@);
    assert forall|i: int| 0 <= i < texts.len() implies #[trigger] texts[i] == (
        config.headers@[i].0@,
        config.headers@[i].1@,
    ) by {}
    law_call_headers(
        given_text(args.bearer_token),
        given_text(args.api_key),
        headers_in(given_text(args.headers_tsv)),
    );
    if let Some(Ok(s)) = args.headers_tsv {
        if s@.len() == 0 {
            assert(s@ =~= Seq::empty());
            law_other_line(Seq::empty(), Seq::empty());
            assert(headers_in(Some(s@)) =~= Seq::empty());
        }
    }
    let headers = call_headers(
        given_text(args.bearer_token),
        given_text(args.api_key),
        headers_in(given_text(args.headers_tsv)),
    );
    assert(texts == headers);
    assert(texts.len() == config.headers@.len());
}

/// The connection that a call describes is the one that its arguments describe.
pub proof fn law_connection_of_call(
    config: NamespaceConfig,
    call: NamespaceCall,
    args: CallArguments<'_>,
)
    requires
        is_call_of(call, args),
    ensures
        is_config_of(config, call) <==> is_config_for(config, args),
{
}

} // verus!
