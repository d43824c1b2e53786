//! `curl` command lines that repeat a request, with credentials masked.

use crate::api::client::pair_texts;
use crate::models::error::ApiRequestInfo;
use crate::models::registry::{AuthConfig, AuthConfigView};
use crate::text::{join, joined, lowercase, same_text, starts_with_text, texts, to_lowercase};
use vstd::prelude::*;

verus! {

/// `s` between single quotes.
pub open spec fn quoted(s: Seq<char>) -> Seq<char> {
    "'"@ + s + "'"@
}

/// The words that show the credentials of a configuration, masked.
pub open spec fn auth_words(auth: AuthConfigView) -> Seq<Seq<char>> {
    match auth {
        AuthConfigView::BasicAuth { username, .. } => seq![
            "-H"@,
            "'Authorization: Basic <"@ + username + ">***'"@,
        ],
        AuthConfigView::BearerToken { .. } => seq!["-H"@, "'Authorization: Bearer ***'"@],
        _ => Seq::empty(),
    }
}

/// The words of the command that fetches a manifest.
pub open spec fn manifest_command_words(
    base_url: Seq<char>,
    repo: Seq<char>,
    tag: Seq<char>,
    auth: AuthConfigView,
) -> Seq<Seq<char>> {
    seq![
        "curl"@,
        "-H"@,
        "'Accept: application/vnd.docker.distribution.manifest.v2+json'"@,
    ] + auth_words(auth) + seq![quoted(base_url + "/v2/"@ + repo + "/manifests/"@ + tag)]
}

/// The value of a header as the command shows it: the value of an
/// `Authorization` header, whatever the case of its name, is masked but for
/// its scheme.
pub open spec fn shown_value(name: Seq<char>, value: Seq<char>) -> Seq<char> {
    if lowercase(name) == "authorization"@ {
        if "Basic "@.is_prefix_of(value) {
            "Basic ***"@
        } else if "Bearer "@.is_prefix_of(value) {
            "Bearer ***"@
        } else {
            "***"@
        }
    } else {
        value
    }
}

/// The words that show one header.
pub open spec fn header_words(header: (Seq<char>, Seq<char>)) -> Seq<Seq<char>> {
    seq!["-H"@, "'"@ + header.0 + ": "@ + shown_value(header.0, header.1) + "'"@]
}

/// The words that show the headers, in their order.
pub open spec fn headers_words(headers: Seq<(Seq<char>, Seq<char>)>) -> Seq<Seq<char>>
    decreases headers.len(),
{
    if headers.len() == 0 {
        Seq::empty()
    } else {
        headers_words(headers.drop_last()) + header_words(headers.last())
    }
}

/// The words that name the method, which `GET` needs none of.
pub open spec fn method_words(method: Seq<char>) -> Seq<Seq<char>> {
    if method == "GET"@ {
        Seq::empty()
    } else {
        seq!["-X"@, method]
    }
}

/// The words of the command that repeats a request.
pub open spec fn request_command_words(
    method: Seq<char>,
    url: Seq<char>,
    headers: Seq<(Seq<char>, Seq<char>)>,
) -> Seq<Seq<char>> {
    seq!["curl"@] + method_words(method) + headers_words(headers) + seq![quoted(url)]
}

/// The command that repeats a request: its words with a space between them.
pub open spec fn request_command(
    method: Seq<char>,
    url: Seq<char>,
    headers: Seq<(Seq<char>, Seq<char>)>,
) -> Seq<char> {
    joined(request_command_words(method, url, headers), " "@)
}

/// `s` between single quotes.
fn quote(s: &str) -> (out: String)
    ensures
        out@ == quoted(s@),
{
    let mut out = "'".to_string();
    out.append(s);
    out.append("'");
    out
}

/// The `curl` command that fetches the manifest of `repo` at `tag`. It
/// shows that credentials are sent, and the user name, but no secret.
pub fn generate_curl_command(base_url: &str, repo: &str, tag: &str, auth: &AuthConfig) -> (out:
    String)
    ensures
        out@ == joined(manifest_command_words(base_url@, repo@, tag@, auth@), " "@),
{
    let mut url = base_url.to_string();
    url.append("/v2/");
    url.append(repo);
    url.append("/manifests/");
    url.append(tag);
    let mut parts: Vec<String> = Vec::new();
    parts.push("curl".to_string());
    parts.push("-H".to_string());
    parts.push("'Accept: application/vnd.docker.distribution.manifest.v2+json'".to_string());
    match auth {
        AuthConfig::BasicAuth { username, .. } => {
            parts.push("-H".to_string());
            let mut shown = "'Authorization: Basic <".to_string();
            shown.append(username.as_str());
            shown.append(">***'");
            parts.push(shown);
        },
        AuthConfig::BearerToken { .. } => {
            parts.push("-H".to_string());
            parts.push("'Authorization: Bearer ***'".to_string());
        },
        _ => {},
    }
    parts.push(quote(url.as_str()));
    assert(texts(parts@) =~= manifest_command_words(base_url@, repo@, tag@, auth@));
    join(&parts, " ")
}

/// The value of a header as the command shows it.
fn show_value(name: &str, value: &str) -> (out: String)
    ensures
        out@ == shown_value(name@, value@),
{
    let lowered = to_lowercase(name);
    if same_text(lowered.as_str(), "authorization") {
        if starts_with_text(value, "Basic ") {
            "Basic ***".to_string()
        } else if starts_with_text(value, "Bearer ") {
            "Bearer ***".to_string()
        } else {
            "***".to_string()
        }
    } else {
        value.to_string()
    }
}

/// The `curl` command that repeats the request given, with the values of
/// `Authorization` headers masked.
pub fn curl_command_for(method: &str, url: &str, headers: &Vec<(String, String)>) -> (out: String)
    ensures
        out@ == request_command(method@, url@, pair_texts(headers@)),
{
    let ghost all = pair_texts(headers@);
    let mut parts: Vec<String> = Vec::new();
    parts.push("curl".to_string());
    if !same_text(method, "GET") {
        parts.push("-X".to_string());
        parts.push(method.to_string());
    }
    assert(texts(parts@) =~= seq!["curl"@] + method_words(method@));
    assert(all.take(0) =~= Seq::<(Seq<char>, Seq<char>)>::empty());
    assert(texts(parts@) =~= seq!["curl"@] + method_words(method@) + headers_words(all.take(0)));
    let mut i: usize = 0;
    while i < headers.len()
        invariant
            0 <= i <= headers@.len(),
            all == pair_texts(headers@),
            texts(parts@) == seq!["curl"@] + method_words(method@) + headers_words(
                all.take(i as int),
            ),
        decreases headers@.len() - i,
    {
        let ghost before = texts(parts@);
        proof {
            assert(all.take(i + 1).drop_last() =~= all.take(i as int));
            assert(all.take(i + 1).last() == (headers@[i as int].0@, headers@[i as int].1@));
        }
        let shown = show_value(headers[i].0.as_str(), headers[i].1.as_str());
        let mut word = "'".to_string();
        word.append(headers[i].0.as_str());
        word.append(": ");
        word.append(shown.as_str());
        word.append("'");
        parts.push("-H".to_string());
        parts.push(word);
        assert(texts(parts@) =~= before + header_words(all[i as int]));
        assert(texts(parts@) =~= seq!["curl"@] + method_words(method@) + headers_words(
            all.take(i + 1),
        ));
        i += 1;
    }
    assert(all.take(headers@.len() as int) =~= all);
    let ghost before = texts(parts@);
    parts.push(quote(url));
    assert(texts(parts@) =~= before + seq![quoted(url@)]);
    join(&parts, " ")
}

/// The `curl` command that repeats the request that `info` describes.
pub fn generate_curl_command_from_info(info: &ApiRequestInfo) -> (out: String)
    ensures
        out@ == request_command(info.method@, info.url@, pair_texts(info.headers@)),
{
    curl_command_for(info.method.as_str(), info.url.as_str(), &info.headers)
}

/// The description of a request that has no answer yet, with the command
/// that repeats it.
pub fn create_request_info(method: &str, url: &str, headers: Vec<(String, String)>) -> (out:
    ApiRequestInfo)
    ensures
        out.method@ == method@,
        out.url@ == url@,
        out.headers == headers,
        out.status_code is None,
        out.response_headers is None,
        out.response_body is None,
        out.curl_command@ == request_command(method@, url@, pair_texts(headers@)),
{
    let curl_command = curl_command_for(method, url, &headers);
    ApiRequestInfo {
        method: method.to_string(),
        url: url.to_string(),
        headers,
        status_code: None,
        response_headers: None,
        response_body: None,
        curl_command,
    }
}

} // verus!
