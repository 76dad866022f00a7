//! What can go wrong while a session is opened or used, and the words in
//! which each failure is told.

use vstd::prelude::*;
use vstd::string::*;
use crate::address::ParseError;

verus! {

/// How long a connection attempt may take, in seconds.
pub const CONNECT_TIMEOUT_SECS: u64 = 2;

/// Why a login failed.
#[derive(Clone, Debug, PartialEq, Eq)]
pub enum AuthError {
    /// The remote host, or the agent, refused; the text is what it said.
    Rejected(String),
    /// The selector chooses none of the agent's identities.
    IdentityNotFound,
}

/// Why no session could be opened.
#[derive(Clone, Debug, PartialEq, Eq)]
pub enum SessionError {
    /// The address was refused.
    Parse(ParseError),
    /// No connection within the time allowed; the text says why.
    Connect(String),
    /// The handshake failed; the text says why.
    Handshake(String),
    /// The login failed.
    Auth(AuthError),
}

/// Why a command could not be run on an open session: the channel could not
/// be opened, the command not started, its output not read, or the channel
/// not closed.
#[derive(Clone, Debug, PartialEq, Eq)]
pub struct ChannelError {
    pub detail: String,
}

/// The words for a refused address.
pub open spec fn parse_error_text(e: ParseError) -> Seq<char> {
    match e {
        ParseError::BadFormat => "Invalid input format: Expected 'username@ip:port'."@,
        ParseError::BadAddress => "Connexion Error: invalid IPv4 socket address syntax"@,
    }
}

/// The words for a failed login.
pub open spec fn auth_error_text(e: AuthError) -> Seq<char> {
    match e {
        AuthError::Rejected(detail) => detail@,
        AuthError::IdentityNotFound => "Identity not found"@,
    }
}

/// The words for a session that could not be opened.
pub open spec fn session_error_text(e: SessionError) -> Seq<char> {
    match e {
        SessionError::Parse(e) => parse_error_text(e),
        SessionError::Connect(detail) => detail@,
        SessionError::Handshake(detail) => detail@,
        SessionError::Auth(e) => auth_error_text(e),
    }
}

/// The words for a command that could not be run.
pub open spec fn channel_error_text(e: ChannelError) -> Seq<char> {
    e.detail@
}

impl ParseError {
    /// The words for this error.
    pub fn message(&self) -> (r: String)
        ensures
            r@ == parse_error_text(*self),
    {
        match self {
            ParseError::BadFormat => "Invalid input format: Expected 'username@ip:port'.".to_owned(),
            ParseError::BadAddress => "Connexion Error: invalid IPv4 socket address syntax".to_owned(),
        }
    }
}

impl AuthError {
    /// The words for this error.
    pub fn message(&self) -> (r: String)
        ensures
            r@ == auth_error_text(*self),
    {
        match self {
            AuthError::Rejected(detail) => detail.clone(),
            AuthError::IdentityNotFound => "Identity not found".to_owned(),
        }
    }
}

impl SessionError {
    /// The words for this error.
    pub fn message(&self) -> (r: String)
        ensures
            r@ == session_error_text(*self),
    {
        match self {
            SessionError::Parse(e) => e.message(),
            SessionError::Connect(detail) => detail.clone(),
            SessionError::Handshake(detail) => detail.clone(),
            SessionError::Auth(e) => e.message(),
        }
    }
}

impl ChannelError {
    /// The words for this error.
    pub fn message(&self) -> (r: String)
        ensures
            r@ == channel_error_text(*self),
    {
        self.detail.clone()
    }
}

} // verus!
