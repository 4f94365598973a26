//! The note viewer: resolves which note to show, owns link-follow mode, and
//! turns typed link codes into navigation.

use vstd::prelude::*;
use vstd::string::StrSliceExecFns;
use vstd::string::StringExecFns;

use crate::keys::Key;
use crate::links::{link_views, parse_ok, spec_lookup, LinkError, ParsedZettel};
use crate::storage;
use crate::text::{pop_char, push_char, str_eq};

verus! {

/// The built-in welcome document, shown when a user has no note to return
/// to.
pub open spec fn welcome_text() -> Seq<char> {
    "Welcome to Zettelkasten\n\nYou can see the available controls at the bottom of the page. If you are an admin, make sure to check out the config page (`C`).\n\n- A: Show all paths\n- C: Open up the [system config](sys:config)\n- E: Edit the current page\n- F: Follow a link on the current page\n  - Links are marked by `[name]` or `[name](path)` (only the `name` will be rendered)\n- L: Log out\n- Q: Exit zettelkasten\n- S: Search in all zettels\n"@
}

/// The body of the welcome document.
fn entry_text() -> (r: &'static str)
    ensures
        r@ == welcome_text(),
{
    "Welcome to Zettelkasten\n\nYou can see the available controls at the bottom of the page. If you are an admin, make sure to check out the config page (`C`).\n\n- A: Show all paths\n- C: Open up the [system config](sys:config)\n- E: Edit the current page\n- F: Follow a link on the current page\n  - Links are marked by `[name]` or `[name](path)` (only the `name` will be rendered)\n- L: Log out\n- Q: Exit zettelkasten\n- S: Search in all zettels\n"
}

/// The single-key shortcuts of the note viewer; link codes never use them.
pub open spec fn reserved_chars() -> Seq<char> {
    seq!['a', 'c', 'e', 'f', 'l', 'q', 's']
}

/// The reserved shortcut characters, for the encoder.
pub fn disallowed_chars() -> (r: Vec<char>)
    ensures
        r@ == reserved_chars(),
{
    let r: Vec<char> = vec!['a', 'c', 'e', 'f', 'l', 'q', 's'];
    proof {
        assert(r@ =~= reserved_chars());
    }
    r
}

/// The note viewer page: the displayed note and, while link-follow mode is
/// active, the code typed so far.
pub struct Zettel {
    pub user: storage::User,
    pub zettel: storage::Zettel,
    pub link_input: Option<String>,
}

/// The page-level outcome of the note viewer.
pub enum Transition {
    Edit,
    Exit,
    Logout,
    NavigateTo { path: String },
    OpenConfig,
    Search,
    ZettelList,
}

/// A recognized `sys:` page.
#[derive(Clone, Copy, PartialEq, Eq, Structural, Debug)]
pub enum SysPage {
    Config,
}

impl Zettel {
    /// The viewer for a user: the note handed in — the user's refetched
    /// last-visited note — or, with none, the built-in welcome document.
    pub fn new_with_user(user: storage::User, fetched: Option<storage::Zettel>) -> (r: Self)
        ensures
            r.user == user,
            r.link_input is None,
            match fetched {
                Some(z) => r.zettel == z,
                None => {
                    &&& r.zettel.id == 0
                    &&& r.zettel.path@ == "home"@
                    &&& r.zettel.body@ == welcome_text()
                },
            },
    {
        match fetched {
            Some(z) => Zettel { user, zettel: z, link_input: None },
            None => Zettel {
                user,
                zettel: storage::Zettel {
                    id: 0,
                    path: String::from_str("home"),
                    body: String::from_str(entry_text()),
                },
                link_input: None,
            },
        }
    }

    /// The viewer for a note already in hand.
    pub fn new_with_zettel(user: storage::User, zettel: storage::Zettel) -> (r: Self)
        ensures
            r.user == user,
            r.zettel == zettel,
            r.link_input is None,
    {
        Zettel { user, zettel, link_input: None }
    }

    /// Parses the displayed note for rendering, overlaying codes exactly
    /// while link-follow mode is active.
    pub fn rendered(&self) -> (r: Result<ParsedZettel, LinkError>)
        ensures
            ({
                let n = crate::links::link_total(self.zettel.body@);
                let cap = crate::links::spec_alphabet(reserved_chars()).len()
                    * crate::links::spec_alphabet(reserved_chars()).len();
                match r {
                    Ok(p) => n <= cap && parse_ok(
                        p,
                        self.zettel.body@,
                        reserved_chars(),
                        self.link_input is Some,
                    ),
                    Err(e) => n > cap && e == (LinkError::TooManyLinks {
                        count: n as usize,
                        capacity: cap as usize,
                    }),
                }
            }),
    {
        let reserved = disallowed_chars();
        ParsedZettel::parse(&self.zettel, &reserved, self.link_input.is_some())
    }

    /// One key press on the note viewer. The page shortcuts act even while
    /// link-follow mode is on — codes never use them. `f` toggles the mode;
    /// in the mode, other characters fill the code buffer, and a complete
    /// buffer either navigates to the recorded target or leaves the mode.
    pub fn handle_key(&mut self, key: Key, parsed: &ParsedZettel) -> (r: Option<Transition>)
        ensures
            ({
                let s = *final(self);
                let o = *old(self);
                match key {
                    Key::Char(c) => {
                        if c == 'a' {
                            r == Some(Transition::ZettelList) && s == o
                        } else if c == 'c' {
                            r == Some(Transition::OpenConfig) && s == o
                        } else if c == 'e' {
                            r == Some(Transition::Edit) && s == o
                        } else if c == 'f' {
                            &&& r is None
                            &&& s.user == o.user
                            &&& s.zettel == o.zettel
                            &&& (match o.link_input {
                                Some(_) => s.link_input is None,
                                None => s.link_input matches Some(b) && b@ == Seq::<
                                    char,
                                >::empty(),
                            })
                        } else if c == 'l' {
                            r == Some(Transition::Logout) && s == o
                        } else if c == 'q' {
                            r == Some(Transition::Exit) && s == o
                        } else if c == 's' {
                            r == Some(Transition::Search) && s == o
                        } else {
                            match o.link_input {
                                Some(buf) => {
                                    let nb = buf@.push(c);
                                    &&& s.user == o.user
                                    &&& s.zettel == o.zettel
                                    &&& if nb.len() == parsed.link_char_size {
                                        match spec_lookup(link_views(parsed.links@), nb) {
                                            Some(t) => (r matches Some(tr) && tr matches
                                                Transition::NavigateTo { path } && path@ == t) && (
                                            s.link_input matches Some(b2) && b2@ == nb),
                                            None => r is None && s.link_input is None,
                                        }
                                    } else {
                                        r is None && (s.link_input matches Some(b2) && b2@ == nb)
                                    }
                                },
                                None => r is None && s == o,
                            }
                        }
                    },
                    Key::Backspace => {
                        &&& r is None
                        &&& s.user == o.user
                        &&& s.zettel == o.zettel
                        &&& (match o.link_input {
                            Some(buf) => s.link_input matches Some(b2) && b2@ == (if buf@.len()
                                > 0 {
                                buf@.drop_last()
                            } else {
                                buf@
                            }),
                            None => s == o,
                        })
                    },
                    Key::Esc => {
                        &&& r is None
                        &&& s.user == o.user
                        &&& s.zettel == o.zettel
                        &&& s.link_input is None
                    },
                    _ => r is None && s == o,
                }
            }),
    {
        match key {
            Key::Char(c) => {
                if c == 'a' {
                    Some(Transition::ZettelList)
                } else if c == 'c' {
                    Some(Transition::OpenConfig)
                } else if c == 'e' {
                    Some(Transition::Edit)
                } else if c == 'f' {
                    if self.link_input.is_some() {
                        self.link_input = None;
                    } else {
                        self.link_input = Some(String::new());
                    }
                    None
                } else if c == 'l' {
                    Some(Transition::Logout)
                } else if c == 'q' {
                    Some(Transition::Exit)
                } else if c == 's' {
                    Some(Transition::Search)
                } else {
                    if let Some(buf0) = &self.link_input {
                        let mut buf = buf0.clone();
                        push_char(&mut buf, c);
                        if buf.as_str().unicode_len() == parsed.link_char_size {
                            match parsed.lookup(buf.as_str()) {
                                Some(target) => {
                                    self.link_input = Some(buf);
                                    Some(Transition::NavigateTo { path: target })
                                },
                                None => {
                                    self.link_input = None;
                                    None
                                },
                            }
                        } else {
                            self.link_input = Some(buf);
                            None
                        }
                    } else {
                        None
                    }
                }
            },
            Key::Backspace => {
                if let Some(buf0) = &self.link_input {
                    let mut buf = buf0.clone();
                    let _ = pop_char(&mut buf);
                    self.link_input = Some(buf);
                }
                None
            },
            Key::Esc => {
                if self.link_input.is_some() {
                    self.link_input = None;
                }
                None
            },
            _ => None,
        }
    }

    /// Replaces the note body with what the external editor returned; the
    /// caller persists the change through storage.
    pub fn apply_edit(&mut self, body: String)
        ensures
            final(self).zettel.body == body,
            final(self).zettel.id == old(self).zettel.id,
            final(self).zettel.path == old(self).zettel.path,
            final(self).user == old(self).user,
            final(self).link_input == old(self).link_input,
    {
        self.zettel.body = body;
    }
}

/// Routes a link target with the reserved `sys:` prefix: `sys:config` opens
/// the configuration page, any other `sys:` page is an error, and a target
/// without the prefix is an ordinary path.
pub fn try_get_sys_page(link: &str) -> (r: Result<Option<SysPage>, crate::view::Error>)
    ensures
        ({
            if link@.len() >= 4 && link@.subrange(0, 4) == "sys:"@ {
                let page = link@.skip(4);
                if page == "config"@ {
                    r matches Ok(p) && p == Some(SysPage::Config)
                } else {
                    r matches Err(e) && e matches crate::view::Error::UnknownSysPage {
                        page: p,
                    } && p@ == page
                }
            } else {
                r matches Ok(p) && p is None
            }
        }),
{
    proof {
        reveal_strlit("sys:");
    }
    let n = link.unicode_len();
    if n < 4 {
        return Ok(None);
    }
    if !(link.get_char(0) == 's' && link.get_char(1) == 'y' && link.get_char(2) == 's'
        && link.get_char(3) == ':') {
        proof {
            if link@.subrange(0, 4) == "sys:"@ {
                assert(link@.subrange(0, 4)[0] == link@[0]);
                assert(link@.subrange(0, 4)[1] == link@[1]);
                assert(link@.subrange(0, 4)[2] == link@[2]);
                assert(link@.subrange(0, 4)[3] == link@[3]);
            }
        }
        return Ok(None);
    }
    proof {
        assert(link@.subrange(0, 4) =~= "sys:"@);
    }
    let page = link.substring_char(4, n);
    proof {
        assert(page@ =~= link@.skip(4));
    }
    if str_eq(page, "config") {
        Ok(Some(SysPage::Config))
    } else {
        Err(crate::view::Error::UnknownSysPage { page: page.to_owned() })
    }
}

/// Resolves which note a user lands on: with no last-visited id recorded,
/// none (the welcome document); with one, the refetched note. A failed
/// refetch is a stale id: the caller clears it server-side, and the
/// not-found error propagates. `fetched` is storage's answer, present
/// exactly when an id is recorded.
pub fn resolve_last_visited(
    user: &storage::User,
    fetched: Option<Result<storage::Zettel, storage::Error>>,
) -> (r: Result<Option<storage::Zettel>, crate::view::Error>)
    requires
        (fetched is Some) == (user.last_visited_zettel is Some),
    ensures
        match user.last_visited_zettel {
            None => r matches Ok(z) && z is None,
            Some(id) => match fetched->0 {
                Ok(z) => r matches Ok(o) && o == Some(z),
                Err(_) => r matches Err(e) && e matches crate::view::Error::ZettelIdNotFound {
                    id: bad,
                } && bad == id,
            },
        },
{
    match fetched {
        None => Ok(None),
        Some(Ok(z)) => Ok(Some(z)),
        Some(Err(_)) => {
            match user.last_visited_zettel {
                Some(id) => Err(crate::view::Error::ZettelIdNotFound { id }),
                None => vstd::pervasive::unreached(),
            }
        },
    }
}

/// The note opened for a followed path: the stored note when the lookup
/// found one, else a fresh unsaved note at that path.
pub fn zettel_for_path(path: String, fetched: Option<storage::Zettel>) -> (r: storage::Zettel)
    ensures
        match fetched {
            Some(z) => r == z,
            None => r.id == 0 && r.path == path && r.body@ == Seq::<char>::empty(),
        },
{
    match fetched {
        Some(z) => z,
        None => storage::Zettel { id: 0, path, body: String::new() },
    }
}

} // verus!
