//! Data model of the storage collaborator: users, notes ("zettels"), search
//! options, the system configuration and the storage error kinds.
//!
//! The storage backend itself (database queries, password hashing) lives
//! outside the engine; these are the plain values that cross its interface.

use vstd::prelude::*;

verus! {

/// Identifier of a stored note; `0` marks a note that was never persisted.
pub type ZettelId = i64;

/// Identifier of a registered user.
pub type UserId = i64;

/// A registered user, as the storage collaborator reports it.
pub struct User {
    pub id: UserId,
    pub name: String,
    pub password: String,
    pub last_visited_zettel: Option<ZettelId>,
}

impl Clone for User {
    fn clone(&self) -> (r: Self)
        ensures
            r == *self,
    {
        User {
            id: self.id,
            name: self.name.clone(),
            password: self.password.clone(),
            last_visited_zettel: self.last_visited_zettel,
        }
    }
}

/// Options for listing or searching notes: either list everything or match a
/// pattern that the storage backend interprets.
pub struct SearchOpts {
    pub list_all: bool,
    pub query: String,
}

impl Default for SearchOpts {
    fn default() -> (r: Self)
        ensures
            !r.list_all,
            r.query@ == Seq::<char>::empty(),
    {
        SearchOpts { list_all: false, query: String::new() }
    }
}

/// A note as listed by a search or listing, with an optional excerpt around
/// the first pattern match.
pub struct ZettelHeader {
    pub id: ZettelId,
    pub path: String,
    pub highlight_text: Option<String>,
}

impl Clone for ZettelHeader {
    fn clone(&self) -> (r: Self)
        ensures
            r == *self,
    {
        ZettelHeader {
            id: self.id,
            path: self.path.clone(),
            highlight_text: match &self.highlight_text {
                Some(t) => Some(t.clone()),
                None => None,
            },
        }
    }
}

/// A note: a user-owned text document addressed by a unique path.
pub struct Zettel {
    pub id: ZettelId,
    pub path: String,
    pub body: String,
}

impl Clone for Zettel {
    fn clone(&self) -> (r: Self)
        ensures
            r == *self,
    {
        Zettel { id: self.id, path: self.path.clone(), body: self.body.clone() }
    }
}

impl Default for Zettel {
    fn default() -> (r: Self)
        ensures
            r.id == 0,
            r.path@ == Seq::<char>::empty(),
            r.body@ == Seq::<char>::empty(),
    {
        Zettel { id: 0, path: String::new(), body: String::new() }
    }
}

/// The machine-distinguishable error kinds of the storage collaborator.
#[derive(Clone, Copy, PartialEq, Eq, Structural, Debug)]
pub enum Error {
    Bcrypt,
    Json,
    Sqlx,
    SqlxMigrate,
    InvalidRegex,
    SingleUserNotFound,
    UserAlreadyExists,
}

/// How users log in to this installation.
#[derive(Clone, Copy, PartialEq, Eq, Structural, Debug)]
pub enum UserMode {
    SingleUserAutoLogin,
    SingleUserManualLogin,
    MultiUser,
}

impl Default for UserMode {
    fn default() -> (r: Self)
        ensures
            r == UserMode::SingleUserManualLogin,
    {
        UserMode::SingleUserManualLogin
    }
}

/// Installation-wide settings kept by the storage collaborator.
pub struct SystemConfig {
    pub user_mode: UserMode,
    pub terminal_editor: Option<String>,
}

impl Clone for SystemConfig {
    fn clone(&self) -> (r: Self)
        ensures
            r == *self,
    {
        SystemConfig {
            user_mode: self.user_mode,
            terminal_editor: match &self.terminal_editor {
                Some(p) => Some(p.clone()),
                None => None,
            },
        }
    }
}

impl Default for SystemConfig {
    fn default() -> (r: Self)
        ensures
            r.user_mode == UserMode::SingleUserManualLogin,
            r.terminal_editor is None,
    {
        SystemConfig { user_mode: UserMode::SingleUserManualLogin, terminal_editor: None }
    }
}

} // verus!
