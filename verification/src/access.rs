//! Who may publish: the decision behind HTTP basic authentication.

use crate::text::same_text;
use vstd::prelude::*;

verus! {

/// The realm that a challenge names where none is configured.
pub const DEFAULT_REALM: &'static str = "mycoolblog";

/// The credentials that the author's requests must carry.
#[derive(Debug)]
pub struct Credentials {
    pub user: String,
    pub password: String,
    pub realm: Option<String>,
}

/// What a [`Credentials`] holds.
pub struct CredentialsText {
    pub user: Seq<char>,
    pub password: Seq<char>,
    pub realm: Option<Seq<char>>,
}

impl View for Credentials {
    type V = CredentialsText;

    open spec fn view(&self) -> CredentialsText {
        CredentialsText {
            user: self.user@,
            password: self.password@,
            realm: match self.realm {
                Some(realm) => Some(realm@),
                None => None,
            },
        }
    }
}

/// What becomes of a request to a guarded path.
#[derive(Debug)]
pub enum Access {
    /// The request goes on.
    Granted,
    /// The request carried the wrong user name or password.
    Denied,
    /// The request carried no credentials: it is asked for them, in the
    /// name of this realm.
    Challenge(String),
}

/// What an [`Access`] holds.
pub enum AccessView {
    Granted,
    Denied,
    Challenge(Seq<char>),
}

impl View for Access {
    type V = AccessView;

    open spec fn view(&self) -> AccessView {
        match self {
            Access::Granted => AccessView::Granted,
            Access::Denied => AccessView::Denied,
            Access::Challenge(realm) => AccessView::Challenge(realm@),
        }
    }
}

/// What becomes of a request that offers `offered`, a user name and a
/// password, where `expected` is configured.
///
/// Without configured credentials every request goes on. With them, a request
/// goes on if it offers exactly that user name and password, is denied if it
/// offers others, and is challenged if it offers none.
pub open spec fn access_of(
    expected: Option<CredentialsText>,
    offered: Option<(Seq<char>, Seq<char>)>,
) -> AccessView {
    match (expected, offered) {
        (None, _) => AccessView::Granted,
        (Some(expected), None) => AccessView::Challenge(
            match expected.realm {
                Some(realm) => realm,
                None => DEFAULT_REALM@,
            },
        ),
        (Some(expected), Some((user, password))) => if user == expected.user && password
            == expected.password {
            AccessView::Granted
        } else {
            AccessView::Denied
        },
    }
}

/// Decides what becomes of a request to a guarded path.
pub fn check_access(expected: Option<&Credentials>, offered: Option<(&str, &str)>) -> (access:
    Access)
    ensures
        access@ == access_of(
            match expected {
                Some(expected) => Some(expected@),
                None => None,
            },
            match offered {
                Some((user, password)) => Some((user@, password@)),
                None => None,
            },
        ),
{
    match expected {
        None => Access::Granted,
        Some(expected) => match offered {
            None => match &expected.realm {
                Some(realm) => Access::Challenge(realm.clone()),
                None => Access::Challenge(String::from_str(DEFAULT_REALM)),
            },
            Some((user, password)) => {
                if same_text(user, expected.user.as_str()) && same_text(
                    password,
                    expected.password.as_str(),
                ) {
                    Access::Granted
                } else {
                    Access::Denied
                }
            },
        },
    }
}

} // verus!
