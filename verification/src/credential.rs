//! Credentials: a password, or a selector of one of the agent's identities.

use vstd::prelude::*;
use vstd::string::*;
use crate::search::find_char;
use crate::text::chars_of;

verus! {

/// The key glyph that marks a credential as a selector of an agent identity.
pub const MARKER: char = '\u{1F511}';

/// How to log in.
#[derive(Clone, Debug, PartialEq, Eq)]
pub enum Credential {
    /// Log in with this password.
    Password(String),
    /// Log in with the agent identity that this selector names.
    AgentSelector(String),
}

/// What a `Credential` stands for.
pub ghost enum CredentialView {
    Password(Seq<char>),
    AgentSelector(Seq<char>),
}

impl View for Credential {
    type V = CredentialView;

    open spec fn view(&self) -> CredentialView {
        match self {
            Credential::Password(p) => CredentialView::Password(p@),
            Credential::AgentSelector(t) => CredentialView::AgentSelector(t@),
        }
    }
}

/// A credential text that holds the marker selects an agent identity; any
/// other text is a password. Either way the whole text is kept.
pub open spec fn classify_spec(s: Seq<char>) -> CredentialView {
    if s.contains(MARKER) {
        CredentialView::AgentSelector(s)
    } else {
        CredentialView::Password(s)
    }
}

/// Tells a selector of an agent identity from a password.
pub fn classify_credential(s: &str) -> (c: Credential)
    ensures
        c@ == classify_spec(s@),
        s@.contains(MARKER) ==> c is AgentSelector,
        !s@.contains(MARKER) ==> c is Password,
{
    let v = chars_of(s);
    match find_char(&v, MARKER) {
        Some(_) => Credential::AgentSelector(s.to_owned()),
        None => Credential::Password(s.to_owned()),
    }
}

} // verus!
