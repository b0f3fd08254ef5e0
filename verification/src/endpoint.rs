//! URLs of the translation server's endpoints.
use vstd::prelude::*;
use vstd::string::StringExecFns;
use crate::settings::{normalize_server_url, server_url_spec};
use crate::text::{chars_of, string_of, trim_start_char, trimmed_start_char};

verus! {

#[verifier::external_type_specification]
#[verifier::external_body]
pub struct ExUrl(url::Url);

/// A URL parsed by the `url` crate, with its serialisation.
pub struct ParsedUrl {
    url: url::Url,
    text: String,
}

impl View for ParsedUrl {
    type V = Seq<char>;

    /// The serialisation, which determines the parsed URL.
    closed spec fn view(&self) -> Seq<char> {
        self.text@
    }
}

/// What `url::Url::parse` makes of `text`: the serialisation of the URL, or the
/// text of the error.
pub uninterp spec fn url_parse(text: Seq<char>) -> Result<Seq<char>, Seq<char>>;

/// What `url::Url::join` makes of the URL serialised as `base` and the reference
/// `input`: the serialisation of the result, or the text of the error.
pub uninterp spec fn url_join(base: Seq<char>, input: Seq<char>) -> Result<Seq<char>, Seq<char>>;

/// Parses an absolute URL with `url::Url::parse`; on failure gives the error's
/// `Display` text. The contract names the result.
#[verifier::external_body]
fn parse_url(text: &str) -> (r: Result<ParsedUrl, String>)
    ensures
        match r {
            Ok(p) => url_parse(text@) == Ok::<Seq<char>, Seq<char>>(p@),
            Err(e) => url_parse(text@) == Err::<Seq<char>, Seq<char>>(e@),
        },
{
    match url::Url::parse(text) {
        Ok(url) => {
            let text = url.as_str().to_owned();
            Ok(ParsedUrl { url, text })
        },
        Err(e) => Err(e.to_string()),
    }
}

/// Resolves `input` against `base` with `url::Url::join`; gives the serialisation
/// of the result, or the error's `Display` text. The contract names the result.
#[verifier::external_body]
fn join_url(base: &ParsedUrl, input: &str) -> (r: Result<String, String>)
    ensures
        match r {
            Ok(u) => url_join(base@, input@) == Ok::<Seq<char>, Seq<char>>(u@),
            Err(e) => url_join(base@, input@) == Err::<Seq<char>, Seq<char>>(e@),
        },
{
    match base.url.join(input) {
        Ok(u) => Ok(String::from(u)),
        Err(e) => Err(e.to_string()),
    }
}

/// The URL of endpoint `path` on the server `base_url`: the address is normalised
/// and parsed, and `path`, without its leading slashes, is resolved against it.
pub open spec fn endpoint_spec(base_url: Seq<char>, path: Seq<char>) -> Result<
    Seq<char>,
    Seq<char>,
> {
    match url_parse(server_url_spec(base_url)) {
        Err(e) => Err(invalid_address_spec(e)),
        Ok(base) => match url_join(base, trim_start_char(path, '/')) {
            Err(e) => Err(join_failure_spec(e)),
            Ok(u) => Ok(u),
        },
    }
}

/// The error for a server address that does not parse.
pub open spec fn invalid_address_spec(err: Seq<char>) -> Seq<char> {
    "伺服器位址無效: "@ + err
}

/// The error for an endpoint that cannot be resolved.
pub open spec fn join_failure_spec(err: Seq<char>) -> Seq<char> {
    "端點組合失敗: "@ + err
}

/// The error for a server address that does not parse, given the parser's error.
pub fn invalid_address_message(err: &str) -> (r: String)
    ensures
        r@ == invalid_address_spec(err@),
{
    let mut m = String::from_str("伺服器位址無效: ");
    m.append(err);
    m
}

/// The error for an endpoint that cannot be resolved, given the resolver's error.
pub fn join_failure_message(err: &str) -> (r: String)
    ensures
        r@ == join_failure_spec(err@),
{
    let mut m = String::from_str("端點組合失敗: ");
    m.append(err);
    m
}

/// The URL of endpoint `path` on the server `base_url` (see [`endpoint_spec`]).
pub fn endpoint(base_url: &str, path: &str) -> (r: Result<String, String>)
    ensures
        match r {
            Ok(u) => endpoint_spec(base_url@, path@) == Ok::<Seq<char>, Seq<char>>(u@),
            Err(e) => endpoint_spec(base_url@, path@) == Err::<Seq<char>, Seq<char>>(e@),
        },
{
    let normalized = normalize_server_url(base_url);
    let base = match parse_url(normalized.as_str()) {
        Ok(b) => b,
        Err(e) => return Err(invalid_address_message(e.as_str())),
    };
    let relative = string_of(&trimmed_start_char(&chars_of(path), '/'));
    match join_url(&base, relative.as_str()) {
        Ok(u) => Ok(u),
        Err(e) => Err(join_failure_message(e.as_str())),
    }
}

/// The path of the active-task query.
pub fn active_task_path() -> (r: String)
    ensures
        r@ == "/api/translation/active-task"@,
{
    String::from_str("/api/translation/active-task")
}

} // verus!
