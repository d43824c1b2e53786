//! Credential resolution: the `Authorization` header for a configuration.

use crate::codec::{
    base64_bytes, base64_decode, base64_encode, base64_fits, base64_text, bytes_ok, fits_base64,
    text_from_utf8,
};
use crate::models::registry::{AuthConfig, AuthConfigView};
use crate::text::{
    chars_of, find_char, first_index, lemma_first_index_is, starts_with_at, string_of,
};
use vstd::prelude::*;
use vstd::utf8::{decode_utf8, encode_utf8, valid_utf8};

verus! {

/// The kind of authentication that a configuration asks for.
#[derive(Clone, Copy, Debug, PartialEq)]
pub enum AuthType {
    Anonymous,
    Basic,
    Bearer,
    TlsCert,
}

/// User name and password as Basic authentication joins them.
pub open spec fn credentials(username: Seq<char>, password: Seq<char>) -> Seq<char> {
    username.push(':') + password
}

/// Whether the header of a configuration can be made: for Basic
/// authentication, the base64 text of the credentials has a length that fits
/// in `usize`.
pub open spec fn header_fits(auth: AuthConfigView) -> bool {
    match auth {
        AuthConfigView::BasicAuth { username, password, .. } => base64_fits(
            encode_utf8(credentials(username, password)).len(),
        ),
        _ => true,
    }
}

/// The value of the `Authorization` header for a configuration, if it sends
/// one.
pub open spec fn auth_header(auth: AuthConfigView) -> Option<Seq<char>> {
    match auth {
        AuthConfigView::Anonymous => None,
        AuthConfigView::BasicAuth { username, password, .. } => Some(
            "Basic "@ + base64_text(encode_utf8(credentials(username, password))),
        ),
        AuthConfigView::BearerToken { token, .. } => Some("Bearer "@ + token),
        AuthConfigView::TlsCert { .. } => None,
    }
}

/// User name and password split at the first colon, if there is a colon.
pub open spec fn split_credentials(joined: Seq<char>) -> Option<(Seq<char>, Seq<char>)> {
    let colon = first_index(joined, ':');
    if colon < joined.len() {
        Some((joined.take(colon), joined.skip(colon + 1)))
    } else {
        None
    }
}

/// User name and password that a Basic `Authorization` header carries: what
/// follows `Basic ` must be base64 of UTF-8 text with a colon in it.
pub open spec fn decoded_basic_auth(header: Seq<char>) -> Option<(Seq<char>, Seq<char>)> {
    if "Basic "@.is_prefix_of(header) {
        match base64_bytes(header.skip("Basic "@.len() as int)) {
            Ok(bytes) => if valid_utf8(bytes) {
                split_credentials(decode_utf8(bytes))
            } else {
                None
            },
            Err(_) => None,
        }
    } else {
        None
    }
}

/// Splitting joined credentials gives user name and password back, for a
/// user name without a colon.
pub proof fn lemma_split_credentials(username: Seq<char>, password: Seq<char>)
    requires
        !username.contains(':'),
    ensures
        split_credentials(credentials(username, password)) == Some((username, password)),
{
    let joined = credentials(username, password);
    let n = username.len() as int;
    assert(joined[n] == ':');
    assert forall|j: int| 0 <= j < n implies joined[j] != ':' by {
        assert(joined[j] == username[j]);
        assert(username.contains(username[j]));
    }
    lemma_first_index_is(joined, ':', n);
    assert(joined.take(n) =~= username);
    assert(joined.skip(n + 1) =~= password);
}

/// A Basic header decodes to the credentials it was made of: where what
/// follows `Basic ` decodes to the UTF-8 bytes of the joined credentials, and
/// the user name holds no colon.
pub proof fn lemma_basic_auth_round_trip(
    username: Seq<char>,
    password: Seq<char>,
    encoded: Seq<char>,
)
    requires
        !username.contains(':'),
        base64_bytes(encoded) == bytes_ok(encode_utf8(credentials(username, password))),
    ensures
        decoded_basic_auth("Basic "@ + encoded) == Some((username, password)),
{
    let header = "Basic "@ + encoded;
    assert("Basic "@.is_prefix_of(header));
    assert(header.skip("Basic "@.len() as int) =~= encoded);
    vstd::utf8::encode_utf8_valid_utf8(credentials(username, password));
    vstd::utf8::encode_utf8_decode_utf8(credentials(username, password));
    lemma_split_credentials(username, password);
}

/// Whether the header of `auth` can be made.
pub fn can_make_header(auth: &AuthConfig) -> (r: bool)
    ensures
        r == header_fits(auth@),
{
    match auth {
        AuthConfig::BasicAuth { username, password, .. } => {
            let mut joined = username.clone();
            joined.push(':');
            joined.append(password.as_str());
            fits_base64(joined.as_str().as_bytes().len())
        },
        _ => true,
    }
}

/// The value of the `Authorization` header to send for `auth`, if any. A
/// Basic header decodes to the credentials again, for a user name without a
/// colon.
pub fn get_auth_header(auth: &AuthConfig) -> (r: Option<String>)
    requires
        header_fits(auth@),
    ensures
        crate::text::opt_text(r) == auth_header(auth@),
        auth@ matches AuthConfigView::BasicAuth { username, password, .. } ==> !username.contains(
            ':',
        ) ==> r is Some && decoded_basic_auth(r->0@) == Some((username, password)),
{
    match auth {
        AuthConfig::Anonymous => None,
        AuthConfig::BasicAuth { username, password, .. } => {
            let mut joined = username.clone();
            joined.push(':');
            joined.append(password.as_str());
            let encoded = base64_encode(joined.as_str().as_bytes());
            let mut header = "Basic ".to_string();
            header.append(encoded.as_str());
            proof {
                if !username@.contains(':') {
                    lemma_basic_auth_round_trip(username@, password@, encoded@);
                }
            }
            Some(header)
        },
        AuthConfig::BearerToken { token, .. } => {
            let mut header = "Bearer ".to_string();
            header.append(token.as_str());
            Some(header)
        },
        AuthConfig::TlsCert { .. } => None,
    }
}

/// User name and password of a Basic `Authorization` header.
pub fn decode_basic_auth(header: &str) -> (r: Option<(String, String)>)
    ensures
        match r {
            Some((username, password)) => decoded_basic_auth(header@) == Some(
                (username@, password@),
            ),
            None => decoded_basic_auth(header@) is None,
        },
{
    let chars = chars_of(header);
    let prefix = chars_of("Basic ");
    assert(chars@.subrange(0, chars@.len() as int) == chars@);
    if !starts_with_at(&chars, 0, chars.len(), &prefix) {
        return None;
    }
    let encoded = string_of(&chars, prefix.len(), chars.len());
    assert(encoded@ =~= header@.skip("Basic "@.len() as int));
    let bytes = match base64_decode(encoded.as_str()) {
        Ok(bytes) => bytes,
        Err(_) => {
            return None;
        },
    };
    let joined = match text_from_utf8(bytes) {
        Ok(joined) => chars_of(joined.as_str()),
        Err(_) => {
            return None;
        },
    };
    assert(joined@.subrange(0, joined@.len() as int) == joined@);
    let colon = find_char(&joined, 0, joined.len(), ':');
    if colon >= joined.len() {
        return None;
    }
    let username = string_of(&joined, 0, colon);
    let password = string_of(&joined, colon + 1, joined.len());
    assert(joined@.take(colon as int) =~= joined@.subrange(0, colon as int));
    assert(joined@.skip(colon + 1) =~= joined@.subrange(colon + 1, joined@.len() as int));
    Some((username, password))
}

/// The kind of authentication that `auth` asks for.
pub fn get_auth_type(auth: &AuthConfig) -> (r: AuthType)
    ensures
        r == match auth@ {
            AuthConfigView::Anonymous => AuthType::Anonymous,
            AuthConfigView::BasicAuth { .. } => AuthType::Basic,
            AuthConfigView::BearerToken { .. } => AuthType::Bearer,
            AuthConfigView::TlsCert { .. } => AuthType::TlsCert,
        },
{
    match auth {
        AuthConfig::Anonymous => AuthType::Anonymous,
        AuthConfig::BasicAuth { .. } => AuthType::Basic,
        AuthConfig::BearerToken { .. } => AuthType::Bearer,
        AuthConfig::TlsCert { .. } => AuthType::TlsCert,
    }
}

} // verus!
