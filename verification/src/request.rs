//! The request executor: it renders one request against the dictionary into
//! a call that can be sent, and writes the response into the dictionary.

use vstd::prelude::*;
use crate::config::{Api, ApiView, Request, RequestView};
use crate::protocol::{HttpCall, HttpCallView, RunError, RunErrorView};
use crate::templating::{render_text, rendered};
use crate::text::{decimal, decimal_text, joined, opt_text, same_text};
use crate::vars::{pairs_view, Vars};

verus! {

/// A member of a JSON object as the headers need it: its key, its value if
/// that is a JSON string, and its value written as JSON.
pub type Member = (String, Option<String>, String);

/// What a member holds.
pub type MemberView = (Seq<char>, Option<Seq<char>>, Seq<char>);

/// The view of a member.
pub open spec fn member_view(m: Member) -> MemberView {
    (m.0@, opt_text(m.1), m.2@)
}

/// What a list of members holds.
pub open spec fn member_views(list: Seq<Member>) -> Seq<MemberView> {
    list.map_values(|m: Member| member_view(m))
}

/// The members of the JSON object that `text` is, in the order in which the
/// parsed object lists them; `None` where `text` is no JSON object.
pub uninterp spec fn json_object_members(text: Seq<char>) -> Option<Seq<MemberView>>;

/// The error of serde_json, carried through as it is.
#[verifier::external_type_specification]
#[verifier::external_body]
pub struct ExJsonError(serde_json::Error);

/// `serde_json::from_str` into a `serde_json::Map`, and of each member its
/// key, `Value::as_str` and the value's `Display`. It gives the members of
/// the object that the text is, and fails exactly where the text is none.
#[verifier::external_body]
fn parse_json_object(text: &str) -> (r: Result<Vec<Member>, serde_json::Error>)
    ensures
        match r {
            Ok(members) => json_object_members(text@) == Some(member_views(members@)),
            Err(_) => json_object_members(text@) is None,
        },
{
    let map: serde_json::Map<String, serde_json::Value> = serde_json::from_str(text)?;
    Ok(map.into_iter().map(|(k, v)| {
        let text = v.as_str().map(str::to_owned);
        (k, text, v.to_string())
    }).collect())
}

/// The JSON value that `text` is, written anew over several lines with
/// indentation; `None` where `text` is no JSON value.
pub uninterp spec fn json_pretty(text: Seq<char>) -> Option<Seq<char>>;

/// `serde_json::from_str` into a `serde_json::Value`, then
/// `serde_json::to_string_pretty` of that value: the text written anew with
/// indentation, or nothing where the text is no JSON value.
#[verifier::external_body]
fn pretty_json(text: &str) -> (r: Option<String>)
    ensures
        match r {
            Some(pretty) => json_pretty(text@) == Some(pretty@),
            None => json_pretty(text@) is None,
        },
{
    let value: serde_json::Value = serde_json::from_str(text).ok()?;
    serde_json::to_string_pretty(&value).ok()
}

/// A response body as it is shown in `format`: for `json`, written anew with
/// indentation where it is JSON; as it is for any other format, and where it
/// is no JSON.
pub open spec fn presented(format: Seq<char>, body: Seq<char>) -> Seq<char> {
    if format == "json"@ && json_pretty(body) is Some {
        json_pretty(body)->0
    } else {
        body
    }
}

/// The response body as it is to be shown in `format`.
pub fn present(format: &str, body: &str) -> (shown: String)
    ensures
        shown@ == presented(format@, body@),
{
    if same_text(format, "json") {
        match pretty_json(body) {
            Some(pretty) => pretty,
            None => body.to_owned(),
        }
    } else {
        body.to_owned()
    }
}

/// A character that may stand in an HTTP method: a letter, a digit or one of
/// ``!#$%&'*+-.^_`|~``.
pub open spec fn is_method_char(c: char) -> bool {
    ('a' <= c && c <= 'z') || ('A' <= c && c <= 'Z') || ('0' <= c && c <= '9') || c == '!' || c
        == '#' || c == '$' || c == '%' || c == '&' || c == '\'' || c == '*' || c == '+' || c == '-'
        || c == '.' || c == '^' || c == '_' || c == '`' || c == '|' || c == '~'
}

/// Whether `text` is an HTTP method: at least one character, and method
/// characters only.
pub open spec fn is_method(text: Seq<char>) -> bool {
    &&& text.len() > 0
    &&& forall|i: int| 0 <= i < text.len() ==> is_method_char(#[trigger] text[i])
}

/// `reqwest::Method::from_bytes` (the `Method` of the http crate, which
/// reqwest hands on) on the bytes of `text`: whether it accepts them. It
/// accepts a text that is not empty and made of method characters only, and
/// no other.
#[verifier::external_body]
fn method_parses(text: &str) -> (ok: bool)
    ensures
        ok == is_method(text@),
{
    reqwest::Method::from_bytes(text.as_bytes()).is_ok()
}

/// The header that a member gives: its key, and its value as it is where it
/// is a string, else written as JSON.
pub open spec fn header_of(m: MemberView) -> (Seq<char>, Seq<char>) {
    (
        m.0,
        match m.1 {
            Some(text) => text,
            None => m.2,
        },
    )
}

/// The headers that the members of an object give, in their order.
pub open spec fn headers_of(members: Seq<MemberView>) -> Seq<(Seq<char>, Seq<char>)> {
    members.map_values(|m: MemberView| header_of(m))
}

/// The call that a request is rendered into, or the reason for which it
/// cannot be sent. The URL is the base URL followed by the path, rendered;
/// headers and body are rendered where they are present; the rendered headers
/// must be a JSON object.
pub open spec fn prepared(api: ApiView, request: RequestView, vars: Map<Seq<char>, Seq<char>>) -> Result<
    HttpCallView,
    RunErrorView,
> {
    if !is_method(request.method) {
        Err(RunErrorView::Method { request: request.name, method: request.method })
    } else if request.headers is Some && json_object_members(
        rendered(request.headers->0, vars),
    ) is None {
        Err(RunErrorView::HeaderFormat { request: request.name })
    } else {
        Ok(
            HttpCallView {
                method: request.method,
                url: rendered(api.base_url + request.path, vars),
                headers: match request.headers {
                    Some(text) => headers_of(json_object_members(rendered(text, vars))->0),
                    None => Seq::empty(),
                },
                body: match request.body {
                    Some(text) => Some(rendered(text, vars)),
                    None => None,
                },
            },
        )
    }
}

/// The headers that the members of an object give.
pub fn headers_from(members: Vec<Member>) -> (headers: Vec<(String, String)>)
    ensures
        pairs_view(headers@) == headers_of(member_views(members@)),
{
    let mut headers: Vec<(String, String)> = Vec::new();
    let mut i: usize = 0;
    let ghost all = headers_of(member_views(members@));
    while i < members.len()
        invariant
            i <= members.len(),
            all == headers_of(member_views(members@)),
            pairs_view(headers@) == all.take(i as int),
        decreases members.len() - i,
    {
        let key = members[i].0.clone();
        let value = match &members[i].1 {
            Some(text) => text.clone(),
            None => members[i].2.clone(),
        };
        let ghost prior = headers@;
        headers.push((key, value));
        assert(pairs_view(headers@) =~= pairs_view(prior).push((key@, value@)));
        assert(all.take(i + 1) =~= all.take(i as int).push(all[i as int]));
        i += 1;
    }
    assert(all.take(i as int) =~= all);
    headers
}

/// Renders `request` against `vars` into the call to send.
pub fn prepare_call(api: &Api, request: &Request, vars: &Vars) -> (r: Result<HttpCall, RunError>)
    ensures
        match r {
            Ok(call) => prepared(api@, request@, vars@) == Ok::<HttpCallView, RunErrorView>(call@),
            Err(e) => prepared(api@, request@, vars@) == Err::<HttpCallView, RunErrorView>(e@),
        },
{
    let address = joined(api.base_url.as_str(), request.path.as_str());
    let url = render_text(address.as_str(), vars);
    if !method_parses(request.method.as_str()) {
        return Err(
            RunError::Method { request: request.name.clone(), method: request.method.clone() },
        );
    }
    let headers = match &request.headers {
        Some(text) => {
            let shown = render_text(text.as_str(), vars);
            match parse_json_object(shown.as_str()) {
                Ok(members) => headers_from(members),
                Err(_) => {
                    return Err(RunError::HeaderFormat { request: request.name.clone() });
                },
            }
        },
        None => {
            let none: Vec<(String, String)> = Vec::new();
            assert(pairs_view(none@) =~= Seq::empty());
            none
        },
    };
    let body = match &request.body {
        Some(text) => Some(render_text(text.as_str(), vars)),
        None => None,
    };
    Ok(HttpCall { method: request.method.clone(), url, headers, body })
}

/// The dictionary after a response: its body under `response_body` and its
/// status, in decimal, under `response_status`.
pub open spec fn recorded(vars: Map<Seq<char>, Seq<char>>, status: u16, body: Seq<char>) -> Map<
    Seq<char>,
    Seq<char>,
> {
    vars.insert("response_body"@, body).insert("response_status"@, decimal(status as nat))
}

/// Writes a response into the dictionary.
pub fn record_response(vars: &mut Vars, status: u16, body: String)
    ensures
        final(vars)@ == recorded(old(vars)@, status, body@),
{
    vars.insert("response_body".to_owned(), body);
    vars.insert("response_status".to_owned(), decimal_text(status));
}

} // verus!
