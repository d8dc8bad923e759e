//! Who connects, where, and how they prove it.

use vstd::prelude::*;
use vstd::string::*;
use crate::endpoint::{port_or_default, resolve_port, Endpoint};
use crate::failure::Failure;
use crate::text::{decimal_of, decimal_text};

verus! {

/// How a user proves who they are. The secrets in here are never part of a
/// description or a message.
#[derive(Clone, PartialEq, Eq)]
pub enum AuthMethod {
    /// A password.
    Password { password: String },
    /// A private key in a file, with the passphrase that unlocks it, if any.
    PublicKey { private_key_path: String, passphrase: Option<String> },
}

/// A server, a user name and the way to authenticate. Credentials do not
/// change once they are made.
#[derive(Clone, PartialEq, Eq)]
pub struct SshCredentials {
    host: String,
    port: Option<u16>,
    username: String,
    auth_method: AuthMethod,
}

/// An `AuthMethod` in contracts.
pub enum AuthMethodView {
    Password { password: Seq<char> },
    PublicKey { private_key_path: Seq<char>, passphrase: Option<Seq<char>> },
}

impl View for AuthMethod {
    type V = AuthMethodView;

    open spec fn view(&self) -> AuthMethodView {
        match self {
            AuthMethod::Password { password } => AuthMethodView::Password { password: password@ },
            AuthMethod::PublicKey { private_key_path, passphrase } => AuthMethodView::PublicKey {
                private_key_path: private_key_path@,
                passphrase: passphrase.deep_view(),
            },
        }
    }
}

/// `SshCredentials` in contracts.
pub struct SshCredentialsView {
    pub host: Seq<char>,
    /// The port; the default port if absent.
    pub port: Option<u16>,
    pub username: Seq<char>,
    pub auth_method: AuthMethodView,
}

impl View for SshCredentials {
    type V = SshCredentialsView;

    closed spec fn view(&self) -> SshCredentialsView {
        SshCredentialsView {
            host: self.host@,
            port: self.port,
            username: self.username@,
            auth_method: self.auth_method@,
        }
    }
}

/// The one authentication call to make for a set of credentials.
#[derive(Clone, PartialEq, Eq)]
pub enum AuthRequest {
    /// Authenticate with a password.
    Password { username: String, password: String },
    /// Authenticate with a key file. The passphrase is empty if the
    /// credentials name none.
    KeyFile { username: String, private_key_path: String, passphrase: String },
}

/// An `AuthRequest` in contracts.
pub enum AuthRequestView {
    Password { username: Seq<char>, password: Seq<char> },
    KeyFile { username: Seq<char>, private_key_path: Seq<char>, passphrase: Seq<char> },
}

impl View for AuthRequest {
    type V = AuthRequestView;

    open spec fn view(&self) -> AuthRequestView {
        match self {
            AuthRequest::Password { username, password } => AuthRequestView::Password {
                username: username@,
                password: password@,
            },
            AuthRequest::KeyFile {
                username,
                private_key_path,
                passphrase,
            } => AuthRequestView::KeyFile {
                username: username@,
                private_key_path: private_key_path@,
                passphrase: passphrase@,
            },
        }
    }
}

/// The outcome of a connection test.
#[derive(Clone, Debug, PartialEq, Eq)]
pub struct SshConnectionStatus {
    pub connected: bool,
    pub message: String,
}

/// The authentication call that `credentials` ask for.
pub open spec fn auth_request_of(credentials: SshCredentialsView) -> AuthRequestView {
    match credentials.auth_method {
        AuthMethodView::Password { password } => AuthRequestView::Password {
            username: credentials.username,
            password,
        },
        AuthMethodView::PublicKey { private_key_path, passphrase } => AuthRequestView::KeyFile {
            username: credentials.username,
            private_key_path,
            passphrase: match passphrase {
                Some(phrase) => phrase,
                None => Seq::empty(),
            },
        },
    }
}

/// How credentials are described in diagnostics: user, host and port, and
/// nothing of the secrets.
pub open spec fn description_of(username: Seq<char>, host: Seq<char>, port: u16) -> Seq<char> {
    username + "@"@ + host + ":"@ + decimal_of(port as nat)
}

/// The message of a connection test that succeeded.
pub open spec fn connected_message() -> Seq<char> {
    "连接成功"@
}

impl SshCredentials {
    /// Credentials of `username` at `host`.
    pub fn new(host: String, port: Option<u16>, username: String, auth_method: AuthMethod) -> (made:
        SshCredentials)
        ensures
            made@ == (SshCredentialsView {
                host: host@,
                port,
                username: username@,
                auth_method: auth_method@,
            }),
    {
        SshCredentials { host, port, username, auth_method }
    }

    /// The host name, as written.
    pub fn host(&self) -> (host: &String)
        ensures
            host@ == self@.host,
    {
        &self.host
    }

    /// The port, if one is named.
    pub fn port(&self) -> (port: Option<u16>)
        ensures
            port == self@.port,
    {
        self.port
    }

    /// The user name.
    pub fn username(&self) -> (username: &String)
        ensures
            username@ == self@.username,
    {
        &self.username
    }

    /// The server these credentials are for.
    pub fn endpoint(&self) -> (endpoint: Endpoint)
        ensures
            endpoint@ == (self@.host, port_or_default(self@.port)),
    {
        Endpoint { host: self.host.clone(), port: resolve_port(self.port) }
    }

    /// The authentication call to make: by password, or by key file with the
    /// passphrase, which is empty if none is given.
    pub fn auth_request(&self) -> (request: AuthRequest)
        ensures
            request@ == auth_request_of(self@),
    {
        match &self.auth_method {
            AuthMethod::Password { password } => AuthRequest::Password {
                username: self.username.clone(),
                password: password.clone(),
            },
            AuthMethod::PublicKey { private_key_path, passphrase } => {
                let phrase = match passphrase {
                    Some(phrase) => phrase.clone(),
                    None => String::new(),
                };
                AuthRequest::KeyFile {
                    username: self.username.clone(),
                    private_key_path: private_key_path.clone(),
                    passphrase: phrase,
                }
            },
        }
    }

    /// A description for logs and diagnostics. It names the user and the
    /// server and holds no secret.
    pub fn describe(&self) -> (description: String)
        ensures
            description@ == description_of(
                self@.username,
                self@.host,
                port_or_default(self@.port),
            ),
    {
        let mut description = self.username.clone();
        description.append("@");
        description.append(self.host.as_str());
        description.append(":");
        let port = decimal_text(resolve_port(self.port));
        description.append(port.as_str());
        description
    }
}

/// The result of a connection test: success with its message, or the
/// failure of the step that did not succeed, with its kind.
pub fn connect_test_result(failure: Option<Failure>) -> (result: Result<
    SshConnectionStatus,
    Failure,
>)
    ensures
        match failure {
            None => result matches Ok(status) && status.connected && status.message@
                == connected_message(),
            Some(f) => result matches Err(e) && e@ == f@,
        },
{
    match failure {
        None => Ok(SshConnectionStatus { connected: true, message: String::from_str("连接成功") }),
        Some(f) => Err(f),
    }
}

} // verus!
