//! The view stack: a never-empty stack of presentation layers, the initial
//! layer decision, and the routing of page transitions to stack operations.

use vstd::prelude::*;

use crate::config;
use crate::keys::Key;
use crate::list;
use crate::login;
use crate::register;
use crate::search;
use crate::storage;
use crate::zettel;

use login::Login;
use register::Register;
use vstd::view::View as _;

verus! {

/// One page-level state unit in the navigation stack.
pub enum ViewLayer {
    Config(config::Config),
    Login(login::Login),
    Register(register::Register),
    Zettel(zettel::Zettel),
    Search(search::Search),
    List(list::List),
}

/// How a page transition changes the stack.
pub enum ViewReplace {
    Pop,
    Push(ViewLayer),
    Replace(ViewLayer),
}

/// What can go wrong while driving the views.
#[derive(Debug)]
pub enum Error {
    TerminalSize,
    RenderFrame,
    Event,
    Database { source: storage::Error },
    ZettelIdNotFound { id: i64 },
    Io,
    UnknownSysPage { page: String },
}

/// The navigation stack. It is never empty: the bottom layer is the root,
/// replaced as a whole but never popped.
pub struct View {
    pub layers: Vec<ViewLayer>,
}

impl View {
    /// The stack invariant: at least the root layer is present.
    pub open spec fn wf(&self) -> bool {
        self.layers@.len() >= 1
    }

    /// The initial layer. With no user registered yet, registration; in
    /// auto-login mode, the note viewer for the user storage logged in, or
    /// the login page showing the fault; otherwise the login page.
    /// `auto_login` is storage's answer to the single-user login, asked for
    /// exactly when auto-login applies; `last_visited` is the refetched
    /// last-visited note of the user it returned, if any.
    pub fn new(
        system_config: &storage::SystemConfig,
        user_count: Result<u64, storage::Error>,
        auto_login: Option<Result<storage::User, storage::Error>>,
        last_visited: Option<storage::Zettel>,
    ) -> (r: Self)
        requires
            (auto_login is Some) == (!(user_count matches Ok(c) && c == 0)
                && system_config.user_mode is SingleUserAutoLogin),
        ensures
            r.wf(),
            r.layers@.len() == 1,
            ({
                let layer = r.layers@[0];
                if user_count matches Ok(c) && c == 0 {
                    &&& layer matches ViewLayer::Register(reg)
                    &&& reg.username@ == Seq::<char>::empty()
                    &&& reg.password@ == Seq::<char>::empty()
                    &&& reg.repeat_password@ == Seq::<char>::empty()
                    &&& reg.cursor == register::Cursor::Username
                    &&& reg.error is None
                } else {
                    match system_config.user_mode {
                        storage::UserMode::SingleUserAutoLogin => match auto_login->0 {
                            Ok(user) => {
                                &&& layer matches ViewLayer::Zettel(z)
                                &&& z.user == user
                                &&& z.link_input is None
                                &&& (match last_visited {
                                    Some(zz) => z.zettel == zz,
                                    None => z.zettel.id == 0 && z.zettel.path@ == "home"@
                                        && z.zettel.body@ == zettel::welcome_text(),
                                })
                            },
                            Err(e) => {
                                &&& layer matches ViewLayer::Login(l)
                                &&& l.username@ == Seq::<char>::empty()
                                &&& l.password@ == Seq::<char>::empty()
                                &&& l.cursor == login::Cursor::Username
                                &&& l.error == Some(login::LoginError::Storage { source: e })
                            },
                        },
                        _ => {
                            &&& layer matches ViewLayer::Login(l)
                            &&& l.username@ == Seq::<char>::empty()
                            &&& l.password@ == Seq::<char>::empty()
                            &&& l.cursor == login::Cursor::Username
                            &&& l.error is None
                        },
                    }
                }
            }),
    {
        let zero_users = match &user_count {
            Ok(c) => *c == 0,
            Err(_) => false,
        };
        let layer = if zero_users {
            ViewLayer::Register(Register::default())
        } else {
            match system_config.user_mode {
                storage::UserMode::SingleUserAutoLogin => match auto_login {
                    Some(Ok(user)) => ViewLayer::Zettel(zettel::Zettel::new_with_user(user, last_visited)),
                    Some(Err(e)) => ViewLayer::Login(
                        login::Login {
                            username: String::new(),
                            password: String::new(),
                            cursor: login::Cursor::Username,
                            error: Some(login::LoginError::Storage { source: e }),
                        },
                    ),
                    None => ViewLayer::Login(Login::default()),
                },
                _ => ViewLayer::Login(Login::default()),
            }
        };
        let mut layers: Vec<ViewLayer> = Vec::new();
        layers.push(layer);
        View { layers }
    }

    /// How deep the stack is.
    pub fn depth(&self) -> (r: usize)
        ensures
            r == self.layers@.len(),
    {
        self.layers.len()
    }

    /// The layer currently shown.
    pub fn top(&self) -> (r: &ViewLayer)
        requires
            self.wf(),
        ensures
            *r == self.layers@.last(),
    {
        &self.layers[self.layers.len() - 1]
    }

    /// Applies a stack operation. Pop removes exactly the top layer and
    /// leaves the rest unchanged, and refuses to pop the root: that case
    /// returns `false`, the detectable invariant violation, and changes
    /// nothing. Push grows the stack by exactly one, preserving the prior
    /// state beneath. Replace discards the whole stack for a single fresh
    /// layer, whatever the prior depth.
    pub fn apply(&mut self, next: ViewReplace) -> (ok: bool)
        requires
            old(self).wf(),
        ensures
            final(self).wf(),
            match next {
                ViewReplace::Pop => if old(self).layers@.len() >= 2 {
                    ok && final(self).layers@ == old(self).layers@.drop_last()
                } else {
                    !ok && *final(self) == *old(self)
                },
                ViewReplace::Push(layer) => ok && final(self).layers@ == old(
                    self,
                ).layers@.push(layer),
                ViewReplace::Replace(layer) => ok && final(self).layers@ == seq![layer],
            },
    {
        match next {
            ViewReplace::Pop => {
                if self.layers.len() >= 2 {
                    let _ = self.layers.pop();
                    true
                } else {
                    false
                }
            },
            ViewReplace::Push(layer) => {
                self.layers.push(layer);
                true
            },
            ViewReplace::Replace(layer) => {
                let mut layers: Vec<ViewLayer> = Vec::new();
                layers.push(layer);
                self.layers = layers;
                proof {
                    assert(self.layers@ =~= seq![layer]);
                }
                true
            },
        }
    }
}

/// Where the login page's transition takes the stack: registration and a
/// successful login replace the whole stack; exiting ends the loop.
pub fn route_login(t: login::Transition, last_visited: Option<storage::Zettel>) -> (r: Option<
    ViewReplace,
>)
    ensures
        match t {
            login::Transition::Exit => r is None,
            login::Transition::Register => {
                &&& r matches Some(op)
                &&& op matches ViewReplace::Replace(l)
                &&& l matches ViewLayer::Register(reg)
                &&& reg.username@ == Seq::<char>::empty()
                &&& reg.password@ == Seq::<char>::empty()
                &&& reg.repeat_password@ == Seq::<char>::empty()
                &&& reg.cursor == register::Cursor::Username
                &&& reg.error is None
            },
            login::Transition::Login { user } => {
                &&& r matches Some(op)
                &&& op matches ViewReplace::Replace(l)
                &&& l matches ViewLayer::Zettel(z)
                &&& z.user == user
                &&& z.link_input is None
                &&& (match last_visited {
                    Some(zz) => z.zettel == zz,
                    None => z.zettel.id == 0 && z.zettel.path@ == "home"@ && z.zettel.body@
                        == zettel::welcome_text(),
                })
            },
        },
{
    match t {
        login::Transition::Exit => None,
        login::Transition::Register => Some(
            ViewReplace::Replace(ViewLayer::Register(Register::default())),
        ),
        login::Transition::Login { user } => Some(
            ViewReplace::Replace(
                ViewLayer::Zettel(zettel::Zettel::new_with_user(user, last_visited)),
            ),
        ),
    }
}

/// Where the registration page's transition takes the stack.
pub fn route_register(t: register::Transition, last_visited: Option<storage::Zettel>) -> (r:
    Option<ViewReplace>)
    ensures
        match t {
            register::Transition::Exit => r is None,
            register::Transition::Login => {
                &&& r matches Some(op)
                &&& op matches ViewReplace::Replace(l)
                &&& l matches ViewLayer::Login(lg)
                &&& lg.username@ == Seq::<char>::empty()
                &&& lg.password@ == Seq::<char>::empty()
                &&& lg.cursor == login::Cursor::Username
                &&& lg.error is None
            },
            register::Transition::Registered { user } => {
                &&& r matches Some(op)
                &&& op matches ViewReplace::Replace(l)
                &&& l matches ViewLayer::Zettel(z)
                &&& z.user == user
                &&& z.link_input is None
                &&& (match last_visited {
                    Some(zz) => z.zettel == zz,
                    None => z.zettel.id == 0 && z.zettel.path@ == "home"@ && z.zettel.body@
                        == zettel::welcome_text(),
                })
            },
        },
{
    match t {
        register::Transition::Exit => None,
        register::Transition::Login => Some(
            ViewReplace::Replace(ViewLayer::Login(Login::default())),
        ),
        register::Transition::Registered { user } => Some(
            ViewReplace::Replace(
                ViewLayer::Zettel(zettel::Zettel::new_with_user(user, last_visited)),
            ),
        ),
    }
}

/// Where the configuration page's transition takes the stack.
pub fn route_config(t: config::Transition) -> (r: ViewReplace)
    ensures
        r is Pop,
{
    match t {
        config::Transition::Pop => ViewReplace::Pop,
    }
}

/// Where the search page's transition takes the stack: an opened note
/// replaces the whole stack, Esc pops back.
pub fn route_search(t: search::Transition) -> (r: ViewReplace)
    ensures
        match t {
            search::Transition::NewZettel(z) => r matches ViewReplace::Replace(l) && l matches
                ViewLayer::Zettel(z2) && z2 == z,
            search::Transition::Pop => r is Pop,
        },
{
    match t {
        search::Transition::NewZettel(z) => ViewReplace::Replace(ViewLayer::Zettel(z)),
        search::Transition::Pop => ViewReplace::Pop,
    }
}

/// Where the list page's transition takes the stack.
pub fn route_list(t: list::Transition) -> (r: ViewReplace)
    ensures
        match t {
            list::Transition::NewZettel(z) => r matches ViewReplace::Replace(l) && l matches
                ViewLayer::Zettel(z2) && z2 == z,
            list::Transition::Pop => r is Pop,
        },
{
    match t {
        list::Transition::NewZettel(z) => ViewReplace::Replace(ViewLayer::Zettel(z)),
        list::Transition::Pop => ViewReplace::Pop,
    }
}

/// Whether a new account may be registered: always with multiple users,
/// else only while no user exists. `user_count` is storage's count, asked
/// for exactly when the mode is not multi-user.
pub fn can_register(user_mode: &storage::UserMode, user_count: Option<u64>) -> (r: bool)
    requires
        (user_count is None) ==> user_mode is MultiUser,
    ensures
        r == (user_mode is MultiUser || user_count == Some(0u64)),
{
    match user_mode {
        storage::UserMode::MultiUser => true,
        _ => {
            match user_count {
                Some(c) => c == 0,
                None => vstd::pervasive::unreached(),
            }
        },
    }
}

/// Whether a key press answers a blocking alert: only its offered action
/// keys do.
pub fn alert_accepts(actions: &Vec<Key>, key: &Key) -> (r: bool)
    ensures
        r == actions@.contains(*key),
{
    let mut i: usize = 0;
    while i < actions.len()
        invariant
            i <= actions@.len(),
            forall|j: int| 0 <= j < i ==> actions@[j] != *key,
        decreases actions@.len() - i,
    {
        if actions[i] == *key {
            return true;
        }
        i = i + 1;
    }
    false
}

/// After a recoverable fault's alert, `q` quits and anything else accepted
/// continues.
pub fn quit_after_error(key: &Key) -> (r: bool)
    ensures
        r == (*key == Key::Char('q')),
{
    match key {
        Key::Char(c) => *c == 'q',
        _ => false,
    }
}

} // verus!
