//! Where Kafka Connect requests go, and the errors a request ends in.
//!
//! URLs are parsed and resolved by the `url` crate; the library holds a URL
//! as its serialization (`Url::as_str`), which parses back to the same URL.
use vstd::prelude::*;
use crate::error::Error;
use crate::connect::paths::{send_failure_reason, send_failure_spec, http_failure_reason, shown_path};
use crate::text::{chars_of, concat2, ends_with, string_from_range, to_owned_string};

verus! {

broadcast use vstd::string::group_string_axioms;

/// Outcome of `Url::parse` on a text: the URL's serialization, or the
/// error's message.
pub uninterp spec fn url_parse_result(text: Seq<char>) -> Result<Seq<char>, Seq<char>>;

/// `Url::path` of the URL a serialization holds.
pub uninterp spec fn url_path_of(url: Seq<char>) -> Seq<char>;

/// The serialization of the URL after `Url::set_path(path)`.
pub uninterp spec fn url_with_path(url: Seq<char>, path: Seq<char>) -> Seq<char>;

/// Outcome of `Url::join(relative)`: the resolved URL's serialization, or the
/// error's message.
pub uninterp spec fn url_join_result(url: Seq<char>, relative: Seq<char>) -> Result<Seq<char>, Seq<char>>;

/// `url::Url::parse`, the URL as its serialization and the error as its
/// message.
#[verifier::external_body]
fn parse_url(text: &str) -> (r: Result<String, String>)
    ensures
        match r {
            Ok(u) => url_parse_result(text@) == Ok::<Seq<char>, Seq<char>>(u@),
            Err(e) => url_parse_result(text@) == Err::<Seq<char>, Seq<char>>(e@),
        },
{
    url::Url::parse(text).map(|u| u.to_string()).map_err(|e| e.to_string())
}

/// `url::Url::path` of a URL given by its serialization.
#[verifier::external_body]
fn url_path(url: &str) -> (r: String)
    ensures
        r@ == url_path_of(url@),
{
    match url::Url::parse(url) {
        Ok(u) => u.path().to_string(),
        Err(_) => String::new(),
    }
}

/// `url::Url::set_path` on a URL given by its serialization.
#[verifier::external_body]
fn url_set_path(url: &str, path: &str) -> (r: String)
    ensures
        r@ == url_with_path(url@, path@),
{
    match url::Url::parse(url) {
        Ok(mut u) => {
            u.set_path(path);
            u.to_string()
        },
        Err(_) => url.to_string(),
    }
}

/// `url::Url::join` on a URL given by its serialization.
#[verifier::external_body]
fn url_join(url: &str, relative: &str) -> (r: Result<String, String>)
    ensures
        match r {
            Ok(u) => url_join_result(url@, relative@) == Ok::<Seq<char>, Seq<char>>(u@),
            Err(e) => url_join_result(url@, relative@) == Err::<Seq<char>, Seq<char>>(e@),
        },
{
    match url::Url::parse(url) {
        Ok(u) => u.join(relative).map(|j| j.to_string()).map_err(|e| e.to_string()),
        Err(e) => Err(e.to_string()),
    }
}

/// `str::trim_end_matches` with one character.
pub open spec fn trim_end_char(s: Seq<char>, c: char) -> Seq<char>
    decreases s.len(),
{
    if s.len() > 0 && s.last() == c {
        trim_end_char(s.drop_last(), c)
    } else {
        s
    }
}

/// `str::trim_start_matches` with one character.
pub open spec fn trim_start_char(s: Seq<char>, c: char) -> Seq<char>
    decreases s.len(),
{
    if s.len() > 0 && s[0] == c {
        trim_start_char(s.drop_first(), c)
    } else {
        s
    }
}

fn trim_end_slashes(s: &str) -> (r: String)
    ensures
        r@ == trim_end_char(s@, '/'),
{
    let v = chars_of(s);
    let mut n: usize = v.len();
    assert(v@.take(v.len() as int) =~= v@);
    while n > 0 && v[n - 1] == '/'
        invariant
            n <= v.len(),
            v@ == s@,
            trim_end_char(s@, '/') == trim_end_char(v@.take(n as int), '/'),
        decreases n,
    {
        assert(v@.take(n as int).drop_last() =~= v@.take(n - 1));
        n = n - 1;
    }
    assert(v@.subrange(0, n as int) =~= v@.take(n as int));
    string_from_range(&v, 0, n)
}

fn trim_start_slashes(s: &str) -> (r: String)
    ensures
        r@ == trim_start_char(s@, '/'),
{
    let v = chars_of(s);
    let mut n: usize = 0;
    assert(v@.skip(0) =~= v@);
    while n < v.len() && v[n] == '/'
        invariant
            n <= v.len(),
            v@ == s@,
            trim_start_char(s@, '/') == trim_start_char(v@.skip(n as int), '/'),
        decreases v.len() - n,
    {
        assert(v@.skip(n as int).drop_first() =~= v@.skip(n + 1));
        n = n + 1;
    }
    assert(v@.subrange(n as int, v.len() as int) =~= v@.skip(n as int));
    string_from_range(&v, n, v.len())
}

/// The base URL of a Connect URL: trailing `/` removed, then parsed.
pub open spec fn base_url_of(connect_url: Seq<char>) -> Result<Seq<char>, Seq<char>> {
    url_parse_result(trim_end_char(connect_url, '/'))
}

/// The base URL of a Kafka Connect REST endpoint (`ConnectClient::new`): the
/// URL with trailing `/` removed, parsed.
pub fn connect_base_url(connect_url: &str) -> (r: Result<String, Error>)
    ensures
        match base_url_of(connect_url@) {
            Ok(u) => r matches Ok(b) && b@ == u,
            Err(e) => r matches Err(Error::InvalidConnectUrl { url, reason }) && url@ == trim_end_char(
                connect_url@,
                '/',
            ) && reason@ == e,
        },
{
    let trimmed = trim_end_slashes(connect_url);
    match parse_url(trimmed.as_str()) {
        Ok(u) => Ok(u),
        Err(reason) => Err(Error::InvalidConnectUrl { url: trimmed, reason }),
    }
}

/// Where a request for `path` goes: the root (`""` or `"/"`) is the base URL
/// with a trailing `/` on its path; any other path is resolved against the
/// base URL with its leading `/` removed.
pub open spec fn request_url_of(base: Seq<char>, path: Seq<char>) -> Result<Seq<char>, Seq<char>> {
    if path.len() == 0 || path == "/"@ {
        let p = url_path_of(base);
        if ends_with(p, "/"@) {
            Ok(base)
        } else {
            Ok(url_with_path(base, trim_end_char(p, '/') + "/"@))
        }
    } else {
        url_join_result(base, trim_start_char(path, '/'))
    }
}

/// The URL a request for `path` goes to (see [`request_url_of`]).
pub fn request_url(base: &str, path: &str) -> (r: Result<String, Error>)
    ensures
        match request_url_of(base@, path@) {
            Ok(u) => r matches Ok(x) && x@ == u,
            Err(e) => r matches Err(Error::InvalidConnectUrl { url, reason }) && url@ == base@ + path@
                && reason@ == e,
        },
{
    proof {
        reveal_strlit("/");
    }
    if path.is_empty() || crate::text::str_eq(path, "/") {
        let p = url_path(base);
        if crate::text::str_ends_with(p.as_str(), "/") {
            return Ok(to_owned_string(base));
        }
        let trimmed = trim_end_slashes(p.as_str());
        let with_slash = concat2(trimmed.as_str(), "/");
        return Ok(url_set_path(base, with_slash.as_str()));
    }
    let relative = trim_start_slashes(path);
    match url_join(base, relative.as_str()) {
        Ok(u) => Ok(u),
        Err(reason) => Err(Error::InvalidConnectUrl { url: concat2(base, path), reason }),
    }
}

/// The error of a request that could not be sent.
pub fn send_error(method: &str, path: &str, url: &str, cause: &str, unreachable: bool) -> (r: Error)
    ensures
        r matches Error::ConnectHttp { method: m, path: p, reason } && m@ == method@ && p@ == (if path@.len()
            == 0 {
            "/"@
        } else {
            path@
        }) && reason@ == send_failure_spec(url@, cause@, unreachable),
{
    Error::ConnectHttp {
        method: to_owned_string(method),
        path: shown_path(path),
        reason: send_failure_reason(url, cause, unreachable),
    }
}

/// The error of a reply that is not a success.
pub fn status_error(method: &str, path: &str, status: &str, body: &str) -> (r: Error)
    ensures
        r matches Error::ConnectHttp { method: m, path: p, reason } && m@ == method@ && p@ == path@ && reason@
            == "HTTP "@ + status@ + ": "@ + body@,
{
    Error::ConnectHttp {
        method: to_owned_string(method),
        path: to_owned_string(path),
        reason: http_failure_reason(status, body),
    }
}

/// The error of a reply whose JSON could not be decoded.
pub fn decode_error(method: &str, path: &str, cause: &str) -> (r: Error)
    ensures
        r matches Error::ConnectHttp { method: m, path: p, reason } && m@ == method@ && p@ == path@ && reason@
            == "cannot decode JSON response: "@ + cause@,
{
    Error::ConnectHttp {
        method: to_owned_string(method),
        path: to_owned_string(path),
        reason: concat2("cannot decode JSON response: ", cause),
    }
}

} // verus!
