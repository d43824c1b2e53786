//! Registry configurations.

use crate::storage::adapter::storage_error_text;
use crate::storage::encryption::{
    decrypt_outcome, decrypt_string, encrypt_outcome, encrypt_string, encryption_succeeds,
    text_result, Vault,
};
use vstd::prelude::*;

verus! {

/// How to authenticate against a registry.
#[derive(Debug, PartialEq)]
pub enum AuthConfig {
    /// No credentials.
    Anonymous,
    /// HTTP Basic authentication. `password` holds the plain text while the
    /// configuration is in use; `encrypted_password` is what is stored.
    BasicAuth { username: String, password: String, encrypted_password: String },
    /// A bearer token. `token` holds the plain text while the configuration
    /// is in use; `encrypted_token` is what is stored.
    BearerToken { token: String, encrypted_token: String },
    /// A TLS client certificate, by the paths of its files.
    TlsCert { cert_path: String, key_path: String },
}

/// An `AuthConfig` as mathematics.
pub enum AuthConfigView {
    Anonymous,
    BasicAuth { username: Seq<char>, password: Seq<char>, encrypted_password: Seq<char> },
    BearerToken { token: Seq<char>, encrypted_token: Seq<char> },
    TlsCert { cert_path: Seq<char>, key_path: Seq<char> },
}

impl View for AuthConfig {
    type V = AuthConfigView;

    open spec fn view(&self) -> AuthConfigView {
        match self {
            AuthConfig::Anonymous => AuthConfigView::Anonymous,
            AuthConfig::BasicAuth { username, password, encrypted_password } => {
                AuthConfigView::BasicAuth {
                    username: username@,
                    password: password@,
                    encrypted_password: encrypted_password@,
                }
            },
            AuthConfig::BearerToken { token, encrypted_token } => AuthConfigView::BearerToken {
                token: token@,
                encrypted_token: encrypted_token@,
            },
            AuthConfig::TlsCert { cert_path, key_path } => AuthConfigView::TlsCert {
                cert_path: cert_path@,
                key_path: key_path@,
            },
        }
    }
}

impl Clone for AuthConfig {
    fn clone(&self) -> (out: Self)
        ensures
            out@ == self@,
    {
        match self {
            AuthConfig::Anonymous => AuthConfig::Anonymous,
            AuthConfig::BasicAuth { username, password, encrypted_password } => {
                AuthConfig::BasicAuth {
                    username: username.clone(),
                    password: password.clone(),
                    encrypted_password: encrypted_password.clone(),
                }
            },
            AuthConfig::BearerToken { token, encrypted_token } => AuthConfig::BearerToken {
                token: token.clone(),
                encrypted_token: encrypted_token.clone(),
            },
            AuthConfig::TlsCert { cert_path, key_path } => AuthConfig::TlsCert {
                cert_path: cert_path.clone(),
                key_path: key_path.clone(),
            },
        }
    }
}

/// Whether a registry could be reached. Never stored.
#[derive(Debug, PartialEq)]
pub enum ConnectionStatus {
    Unknown,
    Connected,
    Disconnected,
    Error(String),
}

/// A `ConnectionStatus` as mathematics.
pub enum ConnectionStatusView {
    Unknown,
    Connected,
    Disconnected,
    Error(Seq<char>),
}

impl View for ConnectionStatus {
    type V = ConnectionStatusView;

    open spec fn view(&self) -> ConnectionStatusView {
        match self {
            ConnectionStatus::Unknown => ConnectionStatusView::Unknown,
            ConnectionStatus::Connected => ConnectionStatusView::Connected,
            ConnectionStatus::Disconnected => ConnectionStatusView::Disconnected,
            ConnectionStatus::Error(m) => ConnectionStatusView::Error(m@),
        }
    }
}

impl Default for ConnectionStatus {
    fn default() -> (out: Self)
        ensures
            out@ == ConnectionStatusView::Unknown,
    {
        ConnectionStatus::Unknown
    }
}

impl Clone for ConnectionStatus {
    fn clone(&self) -> (out: Self)
        ensures
            out@ == self@,
    {
        match self {
            ConnectionStatus::Unknown => ConnectionStatus::Unknown,
            ConnectionStatus::Connected => ConnectionStatus::Connected,
            ConnectionStatus::Disconnected => ConnectionStatus::Disconnected,
            ConnectionStatus::Error(m) => ConnectionStatus::Error(m.clone()),
        }
    }
}

/// A registry that the operator has configured.
#[derive(Debug, PartialEq)]
pub struct RegistryConfig {
    /// The identity of the configuration; made once and never changed.
    pub id: String,
    /// The name shown to the operator.
    pub name: String,
    /// The base URL, such as `https://registry.example.com`.
    pub url: String,
    pub auth: AuthConfig,
    pub status: ConnectionStatus,
}

/// A `RegistryConfig` as mathematics.
pub struct RegistryConfigView {
    pub id: Seq<char>,
    pub name: Seq<char>,
    pub url: Seq<char>,
    pub auth: AuthConfigView,
    pub status: ConnectionStatusView,
}

impl View for RegistryConfig {
    type V = RegistryConfigView;

    open spec fn view(&self) -> RegistryConfigView {
        RegistryConfigView {
            id: self.id@,
            name: self.name@,
            url: self.url@,
            auth: self.auth@,
            status: self.status@,
        }
    }
}

/// The views of a sequence of configurations.
pub open spec fn registry_views(v: Seq<RegistryConfig>) -> Seq<RegistryConfigView> {
    v.map_values(|r: RegistryConfig| r@)
}

impl Clone for RegistryConfig {
    fn clone(&self) -> (out: Self)
        ensures
            out@ == self@,
    {
        RegistryConfig {
            id: self.id.clone(),
            name: self.name.clone(),
            url: self.url.clone(),
            auth: self.auth.clone(),
            status: self.status.clone(),
        }
    }
}

/// `url` without one trailing slash.
pub open spec fn strip_trailing_slash(url: Seq<char>) -> Seq<char> {
    if url.len() > 0 && url.last() == '/' {
        url.drop_last()
    } else {
        url
    }
}

/// `url` without one trailing slash.
pub fn normalize_url(url: &str) -> (out: String)
    ensures
        out@ == strip_trailing_slash(url@),
{
    let chars = crate::text::chars_of(url);
    let n = chars.len();
    if n > 0 && chars[n - 1] == '/' {
        let out = crate::text::string_of(&chars, 0, n - 1);
        assert(chars@.subrange(0, n - 1) =~= chars@.drop_last());
        out
    } else {
        crate::text::string_from(&chars)
    }
}

/// `uuid::Uuid::new_v4`, in its hyphenated text form: a random identifier, of
/// which nothing is promised. The call panics where the system gives no
/// randomness.
#[verifier::external_body]
fn fresh_id() -> String {
    uuid::Uuid::new_v4().to_string()
}

impl RegistryConfig {
    /// A configuration with the identifier `id`, a normalized URL and no known
    /// connection status.
    pub fn with_id(id: String, name: String, url: String, auth: AuthConfig) -> (out: Self)
        ensures
            out@ == (RegistryConfigView {
                id: id@,
                name: name@,
                url: strip_trailing_slash(url@),
                auth: auth@,
                status: ConnectionStatusView::Unknown,
            }),
    {
        let url = normalize_url(url.as_str());
        RegistryConfig { id, name, url, auth, status: ConnectionStatus::Unknown }
    }

    /// A configuration with a newly made identifier.
    pub fn new(name: String, url: String, auth: AuthConfig) -> (out: Self)
        ensures
            out@ == (RegistryConfigView {
                id: out@.id,
                name: name@,
                url: strip_trailing_slash(url@),
                auth: auth@,
                status: ConnectionStatusView::Unknown,
            }),
    {
        let id = fresh_id();
        Self::with_id(id, name, url, auth)
    }
}

/// The secret of a configuration in plain text: the password or the token.
pub open spec fn secret_of(auth: AuthConfigView) -> Seq<char> {
    match auth {
        AuthConfigView::BasicAuth { password, .. } => password,
        AuthConfigView::BearerToken { token, .. } => token,
        _ => Seq::empty(),
    }
}

/// The configuration as it is in use: with `secret` in plain text and
/// nothing encrypted.
pub open spec fn in_use(auth: AuthConfigView, secret: Seq<char>) -> AuthConfigView {
    match auth {
        AuthConfigView::BasicAuth { username, .. } => AuthConfigView::BasicAuth {
            username,
            password: secret,
            encrypted_password: Seq::empty(),
        },
        AuthConfigView::BearerToken { .. } => AuthConfigView::BearerToken {
            token: secret,
            encrypted_token: Seq::empty(),
        },
        _ => auth,
    }
}

/// The configuration as it is stored: with the secret as `stored` and no
/// plain text.
pub open spec fn as_stored(auth: AuthConfigView, stored: Seq<char>) -> AuthConfigView {
    match auth {
        AuthConfigView::BasicAuth { username, .. } => AuthConfigView::BasicAuth {
            username,
            password: Seq::empty(),
            encrypted_password: stored,
        },
        AuthConfigView::BearerToken { .. } => AuthConfigView::BearerToken {
            token: Seq::empty(),
            encrypted_token: stored,
        },
        _ => auth,
    }
}

/// Whether a configuration carries a secret.
pub open spec fn has_secret(auth: AuthConfigView) -> bool {
    auth is BasicAuth || auth is BearerToken
}

/// What encrypting the secret of a configuration under `nonce` gives: the
/// stored form, or the text of the vault's error. A configuration without a
/// secret is its own stored form.
pub open spec fn encrypt_auth(key: Option<Seq<u8>>, nonce: Seq<u8>, auth: AuthConfigView) -> Result<
    AuthConfigView,
    Seq<char>,
> {
    if has_secret(auth) {
        match encrypt_outcome(key, nonce, secret_of(auth)) {
            Ok(stored) => Ok(as_stored(auth, stored)),
            Err(e) => Err(storage_error_text(e)),
        }
    } else {
        Ok(auth)
    }
}

/// The encrypted secret of a stored configuration.
pub open spec fn stored_secret_of(auth: AuthConfigView) -> Seq<char> {
    match auth {
        AuthConfigView::BasicAuth { encrypted_password, .. } => encrypted_password,
        AuthConfigView::BearerToken { encrypted_token, .. } => encrypted_token,
        _ => Seq::empty(),
    }
}

/// What decrypting the secret of a stored configuration gives: the form in
/// use, or the text of the vault's error. Where nothing encrypted is stored,
/// the plain text is kept as it is.
pub open spec fn decrypt_auth(key: Option<Seq<u8>>, auth: AuthConfigView) -> Result<
    AuthConfigView,
    Seq<char>,
> {
    if has_secret(auth) {
        if stored_secret_of(auth).len() > 0 {
            match decrypt_outcome(key, stored_secret_of(auth)) {
                Ok(secret) => Ok(in_use(auth, secret)),
                Err(e) => Err(storage_error_text(e)),
            }
        } else {
            Ok(in_use(auth, secret_of(auth)))
        }
    } else {
        Ok(auth)
    }
}

/// An authentication result as mathematics.
pub open spec fn auth_result(r: Result<AuthConfig, String>) -> Result<AuthConfigView, Seq<char>> {
    match r {
        Ok(auth) => Ok(auth@),
        Err(message) => Err(message@),
    }
}

/// The outcome that holds `auth`.
pub open spec fn auth_ok(auth: AuthConfigView) -> Result<AuthConfigView, Seq<char>> {
    Ok(auth)
}

/// Decrypting a stored secret that decrypts to the secret in use gives the
/// configuration in use.
pub proof fn lemma_decrypt_auth_inverts(
    key: Option<Seq<u8>>,
    auth: AuthConfigView,
    stored: Seq<char>,
)
    requires
        has_secret(auth),
        decrypt_outcome(key, stored) == crate::storage::encryption::text_ok(secret_of(auth)),
    ensures
        decrypt_auth(key, as_stored(auth, stored)) == auth_ok(in_use(auth, secret_of(auth))),
{
    let kept = as_stored(auth, stored);
    if stored.len() == 0 {
        assert(secret_of(auth) =~= Seq::<char>::empty());
        assert(in_use(kept, secret_of(kept)) == in_use(auth, secret_of(auth)));
    } else {
        assert(in_use(kept, secret_of(auth)) == in_use(auth, secret_of(auth)));
    }
}

/// A secret is held in one form at a time: the stored form of a
/// configuration holds no plain text, and the form in use holds nothing
/// encrypted.
pub proof fn lemma_one_form_of_secret(key: Option<Seq<u8>>, nonce: Seq<u8>, auth: AuthConfigView)
    ensures
        encrypt_auth(key, nonce, auth) matches Ok(stored) ==> has_secret(auth) ==> secret_of(
            stored,
        ).len() == 0,
        decrypt_auth(key, auth) matches Ok(used) ==> stored_secret_of(used).len() == 0,
{
}

impl AuthConfig {
    /// The stored form of the configuration: the secret encrypted by the
    /// vault under a fresh nonce, and no plain text. Decrypting the stored
    /// form under the same vault gives the configuration in use again.
    pub fn encrypt_for_storage(&self, vault: &Vault) -> (r: Result<Self, String>)
        ensures
            exists|nonce: Seq<u8>|
                nonce.len() == 12 && #[trigger] encrypt_auth(vault.key(), nonce, self@)
                    == auth_result(r),
            r is Ok <==> encryption_succeeds(vault.key(), secret_of(self@)),
            r matches Ok(stored) ==> decrypt_auth(vault.key(), stored@) == auth_ok(
                in_use(self@, secret_of(self@)),
            ),
    {
        let ghost zero = Seq::new(12, |i: int| 0u8);
        match self {
            AuthConfig::BasicAuth { username, password, .. } => {
                let sealed = encrypt_string(vault, password.as_str());
                let ghost nonce = choose|nonce: Seq<u8>|
                    nonce.len() == 12 && #[trigger] encrypt_outcome(vault.key(), nonce, password@)
                        == text_result(sealed);
                let r = match sealed {
                    Ok(stored) => {
                        proof {
                            lemma_decrypt_auth_inverts(vault.key(), self@, stored@);
                        }
                        Ok(
                            AuthConfig::BasicAuth {
                                username: username.clone(),
                                password: String::new(),
                                encrypted_password: stored,
                            },
                        )
                    },
                    Err(e) => Err(e.message()),
                };
                assert(encrypt_auth(vault.key(), nonce, self@) == auth_result(r));
                r
            },
            AuthConfig::BearerToken { token, .. } => {
                let sealed = encrypt_string(vault, token.as_str());
                let ghost nonce = choose|nonce: Seq<u8>|
                    nonce.len() == 12 && #[trigger] encrypt_outcome(vault.key(), nonce, token@)
                        == text_result(sealed);
                let r = match sealed {
                    Ok(stored) => {
                        proof {
                            lemma_decrypt_auth_inverts(vault.key(), self@, stored@);
                        }
                        Ok(AuthConfig::BearerToken { token: String::new(), encrypted_token: stored })
                    },
                    Err(e) => Err(e.message()),
                };
                assert(encrypt_auth(vault.key(), nonce, self@) == auth_result(r));
                r
            },
            other => {
                let r = Ok(other.clone());
                assert(encrypt_auth(vault.key(), zero, self@) == auth_result(r));
                r
            },
        }
    }

    /// The configuration in use: the stored secret decrypted by the vault.
    pub fn decrypt_from_storage(&self, vault: &Vault) -> (r: Result<Self, String>)
        ensures
            auth_result(r) == decrypt_auth(vault.key(), self@),
    {
        match self {
            AuthConfig::BasicAuth { username, password, encrypted_password } => {
                let secret = if !encrypted_password.as_str().is_empty() {
                    match decrypt_string(vault, encrypted_password.as_str()) {
                        Ok(secret) => secret,
                        Err(e) => {
                            return Err(e.message());
                        },
                    }
                } else {
                    password.clone()
                };
                Ok(
                    AuthConfig::BasicAuth {
                        username: username.clone(),
                        password: secret,
                        encrypted_password: String::new(),
                    },
                )
            },
            AuthConfig::BearerToken { token, encrypted_token } => {
                let secret = if !encrypted_token.as_str().is_empty() {
                    match decrypt_string(vault, encrypted_token.as_str()) {
                        Ok(secret) => secret,
                        Err(e) => {
                            return Err(e.message());
                        },
                    }
                } else {
                    token.clone()
                };
                Ok(AuthConfig::BearerToken { token: secret, encrypted_token: String::new() })
            },
            other => Ok(other.clone()),
        }
    }
}

/// A configuration with `auth` in place of its own and no known status.
pub open spec fn with_auth(config: RegistryConfigView, auth: AuthConfigView) -> RegistryConfigView {
    RegistryConfigView {
        id: config.id,
        name: config.name,
        url: config.url,
        auth,
        status: ConnectionStatusView::Unknown,
    }
}

/// What encrypting the secret of a registry configuration under `nonce`
/// gives.
pub open spec fn encrypt_registry(
    key: Option<Seq<u8>>,
    nonce: Seq<u8>,
    config: RegistryConfigView,
) -> Result<RegistryConfigView, Seq<char>> {
    match encrypt_auth(key, nonce, config.auth) {
        Ok(auth) => Ok(with_auth(config, auth)),
        Err(message) => Err(message),
    }
}

/// What decrypting the secret of a stored registry configuration gives.
pub open spec fn decrypt_registry(key: Option<Seq<u8>>, config: RegistryConfigView) -> Result<
    RegistryConfigView,
    Seq<char>,
> {
    match decrypt_auth(key, config.auth) {
        Ok(auth) => Ok(with_auth(config, auth)),
        Err(message) => Err(message),
    }
}

/// A registry result as mathematics.
pub open spec fn registry_result(r: Result<RegistryConfig, String>) -> Result<
    RegistryConfigView,
    Seq<char>,
> {
    match r {
        Ok(config) => Ok(config@),
        Err(message) => Err(message@),
    }
}

/// The outcome that holds `config`.
pub open spec fn registry_ok(config: RegistryConfigView) -> Result<RegistryConfigView, Seq<char>> {
    Ok(config)
}

impl RegistryConfig {
    /// The stored form of the configuration: its secret encrypted and its
    /// status forgotten. Decrypting the stored form under the same vault gives
    /// the configuration in use again.
    pub fn encrypt_for_storage(&self, vault: &Vault) -> (r: Result<Self, String>)
        ensures
            exists|nonce: Seq<u8>|
                nonce.len() == 12 && #[trigger] encrypt_registry(vault.key(), nonce, self@)
                    == registry_result(r),
            r is Ok <==> encryption_succeeds(vault.key(), secret_of(self@.auth)),
            r matches Ok(stored) ==> decrypt_registry(vault.key(), stored@) == registry_ok(
                with_auth(self@, in_use(self@.auth, secret_of(self@.auth))),
            ),
    {
        let sealed = self.auth.encrypt_for_storage(vault);
        let ghost nonce = choose|nonce: Seq<u8>|
            nonce.len() == 12 && #[trigger] encrypt_auth(vault.key(), nonce, self@.auth)
                == auth_result(sealed);
        let r = match sealed {
            Ok(auth) => Ok(
                RegistryConfig {
                    id: self.id.clone(),
                    name: self.name.clone(),
                    url: self.url.clone(),
                    auth,
                    status: ConnectionStatus::Unknown,
                },
            ),
            Err(message) => Err(message),
        };
        assert(encrypt_registry(vault.key(), nonce, self@) == registry_result(r));
        r
    }

    /// The configuration in use: its stored secret decrypted, its status
    /// unknown.
    pub fn decrypt_from_storage(&self, vault: &Vault) -> (r: Result<Self, String>)
        ensures
            registry_result(r) == decrypt_registry(vault.key(), self@),
    {
        match self.auth.decrypt_from_storage(vault) {
            Ok(auth) => Ok(
                RegistryConfig {
                    id: self.id.clone(),
                    name: self.name.clone(),
                    url: self.url.clone(),
                    auth,
                    status: ConnectionStatus::Unknown,
                },
            ),
            Err(message) => Err(message),
        }
    }
}

} // verus!
