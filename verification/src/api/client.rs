//! The registry protocol client.
//!
//! The client makes the request of each operation and reads its answer. It
//! sends nothing itself: whoever holds the connection sends the request and
//! hands back the outcome, a response or the message of a transport failure.

use crate::api::error::{status_error, ApiError, ApiErrorView};
use crate::api::wire::{
    catalog_of, decode_catalog, decode_manifest, decode_tags, manifest_of, manifest_v1_fault,
    tags_of,
};
use crate::auth::handler::{auth_header, get_auth_header, header_fits};
use crate::json::{json_parsed, parse_json, JsonModel};
use crate::models::manifest::{
    BlobInfo, BlobInfoView, CatalogResponse, CatalogResponseView, Manifest, ManifestView,
    TagsResponse, TagsResponseView,
};
use crate::models::registry::{normalize_url, strip_trailing_slash, AuthConfig, AuthConfigView};
use crate::text::{
    chars_of, contains_at, drop_trailing_char, drop_trailing_char_at, equals_ignoring_ascii_case,
    find_char, first_index, has_infix, opt_text, parse_u64, parsed_u64, prefixed,
    same_ignoring_ascii_case,
    skip_char, skip_char_at, string_of, trim_at, trimmed,
};
use vstd::prelude::*;

verus! {

/// The media types that a manifest request accepts, in order of preference.
pub const MANIFEST_ACCEPT: &'static str =
    "application/vnd.docker.distribution.manifest.v2+json, application/vnd.oci.image.manifest.v1+json, application/vnd.docker.distribution.manifest.v1+json";

/// The message of the error for a body that is JSON but no catalog.
pub const NOT_A_CATALOG: &'static str = "data does not have the shape of a catalog";

/// The message of the error for a body that is JSON but no tag list.
pub const NOT_A_TAG_LIST: &'static str = "data does not have the shape of a tag list";

/// The method of a request.
#[derive(Clone, Copy, Debug, PartialEq)]
pub enum HttpMethod {
    Get,
    Head,
    Delete,
}

/// A request to send to the registry.
#[derive(Clone, Debug, PartialEq)]
pub struct HttpRequest {
    pub method: HttpMethod,
    pub url: String,
    /// Header names and values, in the order to send them.
    pub headers: Vec<(String, String)>,
}

/// An `HttpRequest` as mathematics.
pub struct HttpRequestView {
    pub method: HttpMethod,
    pub url: Seq<char>,
    pub headers: Seq<(Seq<char>, Seq<char>)>,
}

/// The views of a sequence of pairs of strings.
pub open spec fn pair_texts(v: Seq<(String, String)>) -> Seq<(Seq<char>, Seq<char>)> {
    v.map_values(|p: (String, String)| (p.0@, p.1@))
}

impl View for HttpRequest {
    type V = HttpRequestView;

    open spec fn view(&self) -> HttpRequestView {
        HttpRequestView { method: self.method, url: self.url@, headers: pair_texts(self.headers@) }
    }
}

/// The answer of the registry to a request.
#[derive(Debug, PartialEq)]
pub struct HttpResponse {
    pub status: u16,
    /// Header names and values, in the order received.
    pub headers: Vec<(String, String)>,
    /// The body as text, or the message of the failure to read it. An
    /// operation that reads no body is handed the empty text.
    pub body: Result<String, String>,
}

/// An `HttpResponse` as mathematics.
pub struct HttpResponseView {
    pub status: u16,
    pub headers: Seq<(Seq<char>, Seq<char>)>,
    pub body: Result<Seq<char>, Seq<char>>,
}

impl View for HttpResponse {
    type V = HttpResponseView;

    open spec fn view(&self) -> HttpResponseView {
        HttpResponseView {
            status: self.status,
            headers: pair_texts(self.headers@),
            body: match self.body {
                Ok(text) => Ok(text@),
                Err(message) => Err(message@),
            },
        }
    }
}

/// The outcome of sending a request, as mathematics: the response, or the
/// message of the transport's failure.
pub open spec fn outcome_view(outcome: Result<HttpResponse, String>) -> Result<
    HttpResponseView,
    Seq<char>,
> {
    match outcome {
        Ok(response) => Ok(response@),
        Err(message) => Err(message@),
    }
}

/// The result of an operation as mathematics.
pub open spec fn api_result<T: View>(r: Result<T, ApiError>) -> Result<T::V, ApiErrorView> {
    match r {
        Ok(value) => Ok(value@),
        Err(e) => Err(e@),
    }
}

/// The value of the first header named `name`, whatever the case of its
/// ASCII letters.
pub open spec fn find_header(headers: Seq<(Seq<char>, Seq<char>)>, name: Seq<char>) -> Option<
    Seq<char>,
>
    decreases headers.len(),
{
    if headers.len() == 0 {
        None
    } else if same_ignoring_ascii_case(headers[0].0, name) {
        Some(headers[0].1)
    } else {
        find_header(headers.drop_first(), name)
    }
}

/// Whether a part of a `Link` header points at the next page.
pub open spec fn is_next_link(part: Seq<char>) -> bool {
    has_infix(part, "rel=\"next\""@) || has_infix(part, "rel=next"@)
}

/// The query of the URL in a part of a `Link` header: the URL is what stands
/// before the first `;`, trimmed and without its angle brackets; the query is
/// what stands between its first `?` and its second, or its end.
pub open spec fn link_query(part: Seq<char>) -> Option<Seq<char>> {
    let url_part = part.take(first_index(part, ';'));
    let url = drop_trailing_char(skip_char(trimmed(url_part), '<'), '>');
    let mark = first_index(url, '?');
    if mark < url.len() {
        let rest = url.skip(mark + 1);
        Some(rest.take(first_index(rest, '?')))
    } else {
        None
    }
}

/// The query to ask the next page with that a `Link` header gives: that of
/// the first of its comma-separated parts that points at the next page.
pub open spec fn next_page_query(header: Seq<char>) -> Option<Seq<char>>
    decreases header.len(),
{
    let cut = first_index(header, ',');
    if is_next_link(header.take(cut)) {
        link_query(header.take(cut))
    } else if 0 <= cut < header.len() {
        next_page_query(header.skip(cut + 1))
    } else {
        None
    }
}

/// The query to ask the next page with that the headers of a response give.
pub open spec fn next_page_of(headers: Seq<(Seq<char>, Seq<char>)>) -> Option<Seq<char>> {
    match find_header(headers, "Link"@) {
        Some(link) => next_page_query(link),
        None => None,
    }
}

/// The headers that carry the credentials of a configuration.
pub open spec fn auth_headers(auth: AuthConfigView) -> Seq<(Seq<char>, Seq<char>)> {
    match auth_header(auth) {
        Some(value) => seq![("Authorization"@, value)],
        None => Seq::empty(),
    }
}

/// The request for `path` below `base_url`, with the credentials of `auth`.
pub open spec fn request_for(
    base_url: Seq<char>,
    auth: AuthConfigView,
    method: HttpMethod,
    path: Seq<char>,
) -> HttpRequestView {
    HttpRequestView { method, url: base_url + path, headers: auth_headers(auth) }
}

/// The path of the catalog, with the query of a page if one is asked for.
pub open spec fn catalog_path(page: Option<Seq<char>>) -> Seq<char> {
    match page {
        Some(query) => "/v2/_catalog?"@ + query,
        None => "/v2/_catalog"@,
    }
}

/// The path of the tag list of a repository.
pub open spec fn tags_path(repo: Seq<char>) -> Seq<char> {
    "/v2/"@ + repo + "/tags/list"@
}

/// The path of a manifest, by tag or digest.
pub open spec fn manifest_path(repo: Seq<char>, reference: Seq<char>) -> Seq<char> {
    "/v2/"@ + repo + "/manifests/"@ + reference
}

/// The path of a blob.
pub open spec fn blob_path(repo: Seq<char>, digest: Seq<char>) -> Seq<char> {
    "/v2/"@ + repo + "/blobs/"@ + digest
}

/// The error of an operation that did not succeed: a network error for a
/// transport failure, else the error that the status stands for.
pub open spec fn failure(outcome: Result<HttpResponseView, Seq<char>>, context: Seq<char>) -> ApiErrorView {
    match outcome {
        Ok(response) => status_error(response.status, context),
        Err(message) => ApiErrorView::NetworkError(message),
    }
}

/// The JSON value that the body of a response holds, or the message of the
/// error: that of the failure to read the body, or that of the parser.
pub open spec fn body_json(response: HttpResponseView) -> Result<JsonModel, Seq<char>> {
    match response.body {
        Ok(text) => json_parsed(text),
        Err(message) => Err(message),
    }
}

/// Whether the registry answered with one of two statuses.
pub open spec fn answered(
    outcome: Result<HttpResponseView, Seq<char>>,
    status: u16,
    other: u16,
) -> bool {
    outcome matches Ok(response) && (response.status == status || response.status == other)
}

/// What a ping gives: success for the status 200 or 401.
pub open spec fn ping_result(outcome: Result<HttpResponseView, Seq<char>>) -> Result<
    (),
    ApiErrorView,
> {
    if answered(outcome, 200, 401) {
        Ok(())
    } else {
        Err(failure(outcome, "Registry not available"@))
    }
}

/// What a catalog request gives: for the status 200, the catalog in the
/// body, with the next page that the `Link` header names. A body that cannot
/// be read, or is no catalog, is a parse error.
pub open spec fn catalog_result(outcome: Result<HttpResponseView, Seq<char>>) -> Result<
    CatalogResponseView,
    ApiErrorView,
> {
    if answered(outcome, 200, 200) {
        match body_json(outcome->Ok_0) {
            Ok(value) => match catalog_of(value) {
                Some(catalog) => Ok(
                    CatalogResponseView {
                        repositories: catalog.repositories,
                        next_page: next_page_of(outcome->Ok_0.headers),
                    },
                ),
                None => Err(ApiErrorView::ParseError(NOT_A_CATALOG@)),
            },
            Err(message) => Err(ApiErrorView::ParseError(message)),
        }
    } else {
        Err(failure(outcome, "Failed to get catalog"@))
    }
}

/// What a tag list request gives: for the status 200, the tag list in the
/// body.
pub open spec fn tags_result(repo: Seq<char>, outcome: Result<HttpResponseView, Seq<char>>) -> Result<
    TagsResponseView,
    ApiErrorView,
> {
    if answered(outcome, 200, 200) {
        match body_json(outcome->Ok_0) {
            Ok(value) => match tags_of(value) {
                Some(tags) => Ok(tags),
                None => Err(ApiErrorView::ParseError(NOT_A_TAG_LIST@)),
            },
            Err(message) => Err(ApiErrorView::ParseError(message)),
        }
    } else {
        Err(failure(outcome, "Failed to get tags for "@ + repo))
    }
}

/// The digest that the headers of a manifest response name, or the empty
/// text where they name none.
pub open spec fn digest_of(headers: Seq<(Seq<char>, Seq<char>)>) -> Seq<char> {
    match find_header(headers, "Docker-Content-Digest"@) {
        Some(digest) => digest,
        None => Seq::empty(),
    }
}

/// What a manifest request gives: for the status 200, the manifest in the
/// body and the digest in the headers. A body of none of the three shapes is
/// a parse error that says why it is not of the last shape tried.
pub open spec fn manifest_result(
    repo: Seq<char>,
    reference: Seq<char>,
    outcome: Result<HttpResponseView, Seq<char>>,
) -> Result<(ManifestView, Seq<char>), ApiErrorView> {
    if answered(outcome, 200, 200) {
        match body_json(outcome->Ok_0) {
            Ok(value) => match manifest_of(value) {
                Some(manifest) => Ok((manifest, digest_of(outcome->Ok_0.headers))),
                None => Err(ApiErrorView::ParseError(manifest_v1_fault(value))),
            },
            Err(message) => Err(ApiErrorView::ParseError(message)),
        }
    } else {
        Err(failure(outcome, "Failed to get manifest for "@ + repo + ":"@ + reference))
    }
}

/// What deleting a manifest gives: success for the status 200 or 202.
pub open spec fn delete_result(digest: Seq<char>, outcome: Result<HttpResponseView, Seq<char>>) -> Result<
    (),
    ApiErrorView,
> {
    if answered(outcome, 200, 202) {
        Ok(())
    } else {
        Err(failure(outcome, "Failed to delete manifest "@ + digest))
    }
}

/// The size that the headers of a blob response name, or 0 where they name
/// none that is a `u64`.
pub open spec fn size_of(headers: Seq<(Seq<char>, Seq<char>)>) -> u64 {
    match find_header(headers, "Content-Length"@) {
        Some(length) => match parsed_u64(length) {
            Some(size) => size,
            None => 0,
        },
        None => 0,
    }
}

/// What a blob request gives: for the status 200, the digest asked for with
/// the size and media type in the headers.
pub open spec fn blob_result(digest: Seq<char>, outcome: Result<HttpResponseView, Seq<char>>) -> Result<
    BlobInfoView,
    ApiErrorView,
> {
    if answered(outcome, 200, 200) {
        Ok(
            BlobInfoView {
                digest,
                size: size_of(outcome->Ok_0.headers),
                media_type: find_header(outcome->Ok_0.headers, "Content-Type"@),
            },
        )
    } else {
        Err(failure(outcome, "Failed to get blob "@ + digest))
    }
}

/// Without a `Link` header there is no next page.
pub proof fn lemma_no_link_no_next_page(response: HttpResponseView)
    requires
        find_header(response.headers, "Link"@) is None,
    ensures
        next_page_of(response.headers) is None,
        catalog_result(Ok(response)) matches Ok(catalog) ==> catalog.next_page is None,
{
}

/// Whether a result is the error given.
pub open spec fn fails_with<T>(r: Result<T, ApiErrorView>, e: ApiErrorView) -> bool {
    r matches Err(got) && got == e
}

/// Whether every operation but a ping gives the error `e` for a response,
/// with `context` telling how each operation words it.
pub open spec fn all_fail_with(
    response: HttpResponseView,
    repo: Seq<char>,
    reference: Seq<char>,
    digest: Seq<char>,
    e: spec_fn(Seq<char>) -> ApiErrorView,
) -> bool {
    &&& fails_with(catalog_result(Ok(response)), e("Failed to get catalog"@))
    &&& fails_with(tags_result(repo, Ok(response)), e("Failed to get tags for "@ + repo))
    &&& fails_with(
        manifest_result(repo, reference, Ok(response)),
        e("Failed to get manifest for "@ + repo + ":"@ + reference),
    )
    &&& fails_with(delete_result(digest, Ok(response)), e("Failed to delete manifest "@ + digest))
    &&& fails_with(blob_result(digest, Ok(response)), e("Failed to get blob "@ + digest))
}

/// Every operation maps the status of a failure alike: 401 to
/// `Unauthorized`, 404 to `NotFound` with the operation's context, and 429 to
/// `RateLimited` with 60 seconds. A ping does so too, but for 401, which
/// satisfies it.
pub proof fn lemma_status_mapping(
    response: HttpResponseView,
    repo: Seq<char>,
    reference: Seq<char>,
    digest: Seq<char>,
)
    ensures
        response.status == 401 ==> ping_result(Ok(response)) is Ok && all_fail_with(
            response,
            repo,
            reference,
            digest,
            |context: Seq<char>| ApiErrorView::Unauthorized,
        ),
        response.status == 404 ==> fails_with(
            ping_result(Ok(response)),
            ApiErrorView::NotFound("Registry not available"@),
        ) && all_fail_with(
            response,
            repo,
            reference,
            digest,
            |context: Seq<char>| ApiErrorView::NotFound(context),
        ),
        response.status == 429 ==> fails_with(
            ping_result(Ok(response)),
            ApiErrorView::RateLimited(60),
        ) && all_fail_with(
            response,
            repo,
            reference,
            digest,
            |context: Seq<char>| ApiErrorView::RateLimited(60),
        ),
{
}

/// The query of the URL in the part `chars[from..to]` of a `Link` header.
fn link_query_at(chars: &Vec<char>, from: usize, to: usize) -> (r: Option<String>)
    requires
        from <= to <= chars@.len(),
    ensures
        opt_text(r) == link_query(chars@.subrange(from as int, to as int)),
{
    let ghost part = chars@.subrange(from as int, to as int);
    let semicolon = find_char(chars, from, to, ';');
    assert(part.take(semicolon - from) =~= chars@.subrange(from as int, semicolon as int));
    let (a, b) = trim_at(chars, from, semicolon);
    let start = skip_char_at(chars, a, b, '<');
    let end = drop_trailing_char_at(chars, start, b, '>');
    let ghost url = chars@.subrange(start as int, end as int);
    let mark = find_char(chars, start, end, '?');
    if mark >= end {
        return None;
    }
    let ghost rest = url.skip(mark - start + 1);
    assert(rest =~= chars@.subrange(mark + 1, end as int));
    let stop = find_char(chars, mark + 1, end, '?');
    let query = string_of(chars, mark + 1, stop);
    assert(rest.take(stop - mark - 1) =~= chars@.subrange(mark + 1, stop as int));
    Some(query)
}

/// The query to ask the next page with that the value of a `Link` header
/// gives, if it names a next page.
pub fn parse_link_header(header: &str) -> (r: Option<String>)
    ensures
        opt_text(r) == next_page_query(header@),
{
    let chars = chars_of(header);
    let quoted = chars_of("rel=\"next\"");
    let bare = chars_of("rel=next");
    let n = chars.len();
    let mut pos: usize = 0;
    assert(chars@.subrange(0, n as int) =~= header@);
    loop
        invariant
            pos <= n,
            n == chars@.len(),
            quoted@ == "rel=\"next\""@,
            bare@ == "rel=next"@,
            next_page_query(header@) == next_page_query(chars@.subrange(pos as int, n as int)),
        decreases n - pos,
    {
        let ghost rem = chars@.subrange(pos as int, n as int);
        let cut = find_char(&chars, pos, n, ',');
        assert(rem.take(cut - pos) =~= chars@.subrange(pos as int, cut as int));
        let points_next = contains_at(&chars, pos, cut, &quoted) || contains_at(
            &chars,
            pos,
            cut,
            &bare,
        );
        if points_next {
            return link_query_at(&chars, pos, cut);
        }
        if cut >= n {
            return None;
        }
        assert(rem.skip(cut - pos + 1) =~= chars@.subrange(cut + 1, n as int));
        pos = cut + 1;
    }
}

/// The client of one registry.
pub struct RegistryClient {
    base_url: String,
    auth: AuthConfig,
}

impl RegistryClient {
    #[verifier::type_invariant]
    spec fn well_formed(&self) -> bool {
        header_fits(self.auth@)
    }

    /// The base URL, without a trailing slash.
    pub closed spec fn base_url(&self) -> Seq<char> {
        self.base_url@
    }

    /// The credentials that every request carries.
    pub closed spec fn auth(&self) -> AuthConfigView {
        self.auth@
    }

    /// The client of the registry at `base_url`, which is kept without one
    /// trailing slash.
    pub fn new(base_url: String, auth: AuthConfig) -> (r: Result<Self, ApiError>)
        requires
            header_fits(auth@),
        ensures
            r matches Ok(client) && client.base_url() == strip_trailing_slash(base_url@)
                && client.auth() == auth@,
    {
        let base_url = normalize_url(base_url.as_str());
        Ok(RegistryClient { base_url, auth })
    }

    /// The request for `path`, with the credentials of the client.
    pub fn request(&self, method: HttpMethod, path: &str) -> (out: HttpRequest)
        ensures
            out@ == request_for(self.base_url(), self.auth(), method, path@),
    {
        proof {
            use_type_invariant(self);
        }
        let mut url = self.base_url.clone();
        url.append(path);
        let mut headers: Vec<(String, String)> = Vec::new();
        match get_auth_header(&self.auth) {
            Some(value) => {
                headers.push(("Authorization".to_string(), value));
                assert(pair_texts(headers@) =~= seq![("Authorization"@, value@)]);
            },
            None => {
                assert(pair_texts(headers@) =~= Seq::<(Seq<char>, Seq<char>)>::empty());
            },
        }
        HttpRequest { method, url, headers }
    }

    /// The request of a ping.
    pub fn ping_request(&self) -> (out: HttpRequest)
        ensures
            out@ == request_for(self.base_url(), self.auth(), HttpMethod::Get, "/v2/"@),
    {
        self.request(HttpMethod::Get, "/v2/")
    }

    /// Reads the outcome of a ping: whether the registry is there.
    pub fn ping(&self, outcome: &Result<HttpResponse, String>) -> (r: Result<(), ApiError>)
        ensures
            api_result(r) == ping_result(outcome_view(*outcome)),
    {
        match outcome {
            Ok(response) => {
                if response.status == 200 || response.status == 401 {
                    Ok(())
                } else {
                    Err(
                        ApiError::from_status(
                            response.status,
                            "Registry not available".to_string(),
                        ),
                    )
                }
            },
            Err(message) => Err(ApiError::NetworkError(message.clone())),
        }
    }

    /// The request for the catalog, or for the page of it that `page` names.
    pub fn get_catalog_request(&self, page: Option<&str>) -> (out: HttpRequest)
        ensures
            out@ == request_for(
                self.base_url(),
                self.auth(),
                HttpMethod::Get,
                catalog_path(
                    match page {
                        Some(query) => Some(query@),
                        None => None,
                    },
                ),
            ),
    {
        match page {
            Some(query) => {
                let path = prefixed("/v2/_catalog?", query);
                self.request(HttpMethod::Get, path.as_str())
            },
            None => self.request(HttpMethod::Get, "/v2/_catalog"),
        }
    }

    /// Reads the outcome of a catalog request.
    pub fn get_catalog(&self, outcome: &Result<HttpResponse, String>) -> (r: Result<
        CatalogResponse,
        ApiError,
    >)
        ensures
            api_result(r) == catalog_result(outcome_view(*outcome)),
    {
        let response = match outcome {
            Ok(response) => response,
            Err(message) => {
                return Err(ApiError::NetworkError(message.clone()));
            },
        };
        if response.status != 200 {
            return Err(ApiError::from_status(response.status, "Failed to get catalog".to_string()));
        }
        let next_page = match find_header_value(&response.headers, "Link") {
            Some(link) => parse_link_header(link),
            None => None,
        };
        let value = match read_body_json(response) {
            Ok(value) => value,
            Err(message) => {
                return Err(ApiError::ParseError(message));
            },
        };
        match decode_catalog(&value) {
            Some(catalog) => Ok(CatalogResponse { repositories: catalog.repositories, next_page }),
            None => Err(ApiError::ParseError(NOT_A_CATALOG.to_string())),
        }
    }

    /// The request for the tags of `repo`.
    pub fn get_tags_request(&self, repo: &str) -> (out: HttpRequest)
        ensures
            out@ == request_for(self.base_url(), self.auth(), HttpMethod::Get, tags_path(repo@)),
    {
        let mut path = prefixed("/v2/", repo);
        path.append("/tags/list");
        self.request(HttpMethod::Get, path.as_str())
    }

    /// Reads the outcome of a tag list request for `repo`.
    pub fn get_tags(&self, repo: &str, outcome: &Result<HttpResponse, String>) -> (r: Result<
        TagsResponse,
        ApiError,
    >)
        ensures
            api_result(r) == tags_result(repo@, outcome_view(*outcome)),
    {
        let response = match outcome {
            Ok(response) => response,
            Err(message) => {
                return Err(ApiError::NetworkError(message.clone()));
            },
        };
        if response.status != 200 {
            return Err(
                ApiError::from_status(response.status, prefixed("Failed to get tags for ", repo)),
            );
        }
        let value = match read_body_json(response) {
            Ok(value) => value,
            Err(message) => {
                return Err(ApiError::ParseError(message));
            },
        };
        match decode_tags(&value) {
            Some(tags) => Ok(tags),
            None => Err(ApiError::ParseError(NOT_A_TAG_LIST.to_string())),
        }
    }

    /// The request for the manifest of `repo` that `reference`, a tag or a
    /// digest, names. It accepts the three manifest shapes.
    pub fn get_manifest_request(&self, repo: &str, reference: &str) -> (out: HttpRequest)
        ensures
            out@.method == HttpMethod::Get,
            out@.url == self.base_url() + manifest_path(repo@, reference@),
            out@.headers == auth_headers(self.auth()).push(("Accept"@, MANIFEST_ACCEPT@)),
    {
        let mut path = prefixed("/v2/", repo);
        path.append("/manifests/");
        path.append(reference);
        let mut out = self.request(HttpMethod::Get, path.as_str());
        let ghost before = out.headers@;
        out.headers.push(("Accept".to_string(), MANIFEST_ACCEPT.to_string()));
        assert(pair_texts(out.headers@) =~= pair_texts(before).push(("Accept"@, MANIFEST_ACCEPT@)));
        out
    }

    /// Reads the outcome of a manifest request: the manifest and its digest,
    /// which is empty where the registry names none.
    pub fn get_manifest(
        &self,
        repo: &str,
        reference: &str,
        outcome: &Result<HttpResponse, String>,
    ) -> (r: Result<(Manifest, String), ApiError>)
        ensures
            api_result(r) == manifest_result(repo@, reference@, outcome_view(*outcome)),
    {
        let response = match outcome {
            Ok(response) => response,
            Err(message) => {
                return Err(ApiError::NetworkError(message.clone()));
            },
        };
        if response.status != 200 {
            let mut context = prefixed("Failed to get manifest for ", repo);
            context.append(":");
            context.append(reference);
            return Err(ApiError::from_status(response.status, context));
        }
        let digest = match find_header_value(&response.headers, "Docker-Content-Digest") {
            Some(digest) => digest.to_string(),
            None => String::new(),
        };
        let value = match read_body_json(response) {
            Ok(value) => value,
            Err(message) => {
                return Err(ApiError::ParseError(message));
            },
        };
        match decode_manifest(&value) {
            Ok(manifest) => Ok((manifest, digest)),
            Err(message) => Err(ApiError::ParseError(message)),
        }
    }

    /// The request that deletes the manifest of `repo` with the digest given.
    pub fn delete_manifest_request(&self, repo: &str, digest: &str) -> (out: HttpRequest)
        ensures
            out@ == request_for(
                self.base_url(),
                self.auth(),
                HttpMethod::Delete,
                manifest_path(repo@, digest@),
            ),
    {
        let mut path = prefixed("/v2/", repo);
        path.append("/manifests/");
        path.append(digest);
        self.request(HttpMethod::Delete, path.as_str())
    }

    /// Reads the outcome of deleting the manifest with the digest given.
    pub fn delete_manifest(&self, digest: &str, outcome: &Result<HttpResponse, String>) -> (r: Result<
        (),
        ApiError,
    >)
        ensures
            api_result(r) == delete_result(digest@, outcome_view(*outcome)),
    {
        match outcome {
            Ok(response) => {
                if response.status == 202 || response.status == 200 {
                    Ok(())
                } else {
                    Err(
                        ApiError::from_status(
                            response.status,
                            prefixed("Failed to delete manifest ", digest),
                        ),
                    )
                }
            },
            Err(message) => Err(ApiError::NetworkError(message.clone())),
        }
    }

    /// The request for what the registry knows of a blob.
    pub fn head_blob_request(&self, repo: &str, digest: &str) -> (out: HttpRequest)
        ensures
            out@ == request_for(
                self.base_url(),
                self.auth(),
                HttpMethod::Head,
                blob_path(repo@, digest@),
            ),
    {
        let mut path = prefixed("/v2/", repo);
        path.append("/blobs/");
        path.append(digest);
        self.request(HttpMethod::Head, path.as_str())
    }

    /// Reads the outcome of a blob request for the digest given.
    pub fn head_blob(&self, digest: &str, outcome: &Result<HttpResponse, String>) -> (r: Result<
        BlobInfo,
        ApiError,
    >)
        ensures
            api_result(r) == blob_result(digest@, outcome_view(*outcome)),
    {
        let response = match outcome {
            Ok(response) => response,
            Err(message) => {
                return Err(ApiError::NetworkError(message.clone()));
            },
        };
        if response.status != 200 {
            return Err(
                ApiError::from_status(response.status, prefixed("Failed to get blob ", digest)),
            );
        }
        let size = match find_header_value(&response.headers, "Content-Length") {
            Some(length) => match parse_u64(length) {
                Some(size) => size,
                None => 0,
            },
            None => 0,
        };
        let media_type = match find_header_value(&response.headers, "Content-Type") {
            Some(value) => Some(value.to_string()),
            None => None,
        };
        Ok(BlobInfo { digest: digest.to_string(), size, media_type })
    }
}

/// Reads the body of a response as JSON.
fn read_body_json(response: &HttpResponse) -> (r: Result<crate::json::JsonValue, String>)
    ensures
        crate::json::parse_result(r) == body_json(response@),
{
    match &response.body {
        Ok(text) => parse_json(text.as_str()),
        Err(message) => Err(message.clone()),
    }
}

/// The value of the first header named `name`, whatever the case of its
/// ASCII letters.
pub fn find_header_value<'a>(headers: &'a Vec<(String, String)>, name: &str) -> (r: Option<&'a str>)
    ensures
        match r {
            Some(value) => find_header(pair_texts(headers@), name@) == Some(value@),
            None => find_header(pair_texts(headers@), name@) is None,
        },
{
    let ghost all = pair_texts(headers@);
    let mut i: usize = 0;
    assert(all.skip(0) =~= all);
    while i < headers.len()
        invariant
            0 <= i <= headers@.len(),
            all == pair_texts(headers@),
            find_header(all, name@) == find_header(all.skip(i as int), name@),
        decreases headers@.len() - i,
    {
        assert(all.skip(i as int)[0] == all[i as int]);
        assert(all[i as int] == (headers@[i as int].0@, headers@[i as int].1@));
        if equals_ignoring_ascii_case(headers[i].0.as_str(), name) {
            return Some(headers[i].1.as_str());
        }
        assert(all.skip(i as int).drop_first() =~= all.skip(i + 1));
        i += 1;
    }
    assert(all.skip(i as int).len() == 0);
    None
}

} // verus!
