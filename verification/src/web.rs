//! The pieces of the HTTP front end's session handling that are plain
//! logic: the logged-in user wrapper and the default document shown when a
//! path resolves to nothing.

use vstd::prelude::*;
use vstd::string::StringExecFns;

use crate::storage;

verus! {

/// The default document for a fresh session.
pub open spec fn default_zettel_body() -> Seq<char> {
    "Welcome to zettelkasten\\n\\n**bold**"@
}

/// The note shown when no stored note answers a request.
pub fn default_zettel() -> (r: storage::Zettel)
    ensures
        r.id == 0,
        r.path@ == "/home"@,
        r.body@ == default_zettel_body(),
{
    storage::Zettel {
        id: 0,
        path: String::from_str("/home"),
        body: String::from_str("Welcome to zettelkasten\\n\\n**bold**"),
    }
}

/// A logged-in user of the HTTP front end.
pub struct User {
    pub user: storage::User,
}

impl User {
    /// The note a returning user lands on: the refetched last-visited note,
    /// or the default document.
    pub fn load_last_visited_zettel(&self, fetched: Option<storage::Zettel>) -> (r:
        storage::Zettel)
        ensures
            match fetched {
                Some(z) => r == z,
                None => r.id == 0 && r.path@ == "/home"@ && r.body@ == default_zettel_body(),
            },
    {
        match fetched {
            Some(z) => z,
            None => default_zettel(),
        }
    }

    /// The user's identity.
    pub fn id(&self) -> (r: storage::UserId)
        ensures
            r == self.user.id,
    {
        self.user.id
    }
}

} // verus!
