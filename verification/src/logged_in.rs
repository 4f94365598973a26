//! A minimal logged-in greeting page: quit or log out.

use vstd::prelude::*;

use crate::keys::Key;
use crate::storage;

verus! {

/// The greeting page for a logged-in user.
pub struct LoggedIn {
    pub user: storage::User,
    pub zettel: Option<storage::Zettel>,
}

/// The page-level outcome of the greeting page.
#[derive(Clone, Copy, PartialEq, Eq, Structural, Debug)]
pub enum Transition {
    Exit,
    Logout,
}

impl From<storage::User> for LoggedIn {
    fn from(user: storage::User) -> (r: Self) {
        LoggedIn { user, zettel: None }
    }
}

impl vstd::std_specs::convert::FromSpecImpl<storage::User> for LoggedIn {
    open spec fn obeys_from_spec() -> bool {
        true
    }

    open spec fn from_spec(user: storage::User) -> Self {
        LoggedIn { user, zettel: None }
    }
}

impl LoggedIn {
    /// One key press: `l` logs out, `q` exits, anything else stays.
    pub fn handle_key(&self, key: Key) -> (r: Option<Transition>)
        ensures
            r == (match key {
                Key::Char(c) => if c == 'l' {
                    Some(Transition::Logout)
                } else if c == 'q' {
                    Some(Transition::Exit)
                } else {
                    None::<Transition>
                },
                _ => None::<Transition>,
            }),
    {
        match key {
            Key::Char(c) => {
                if c == 'l' {
                    Some(Transition::Logout)
                } else if c == 'q' {
                    Some(Transition::Exit)
                } else {
                    None
                }
            },
            _ => None,
        }
    }
}

} // verus!
