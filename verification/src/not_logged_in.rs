//! A login page variant where Tab cycles focus between the two fields
//! instead of leaving for registration.

use vstd::prelude::*;

use crate::keys::Key;
use crate::storage;
use crate::text::{pop_char, push_char};

verus! {

/// The form shown while nobody is logged in.
pub struct NotLoggedIn {
    pub username: String,
    pub password: String,
    pub cursor: Cursor,
    pub error: Option<LoginError>,
}

/// Which field has focus.
#[derive(Clone, Copy, PartialEq, Eq, Structural, Debug)]
pub enum Cursor {
    Username,
    Password,
}

impl Default for Cursor {
    fn default() -> (r: Self)
        ensures
            r == Cursor::Username,
    {
        Cursor::Username
    }
}

/// Why a login attempt did not log the user in.
#[derive(Clone, Copy, PartialEq, Eq, Structural, Debug)]
pub enum LoginError {
    Storage { source: storage::Error },
    LoginFailed,
}

/// The page-level outcome of this page.
pub enum Transition {
    Exit,
    Login { user: storage::User },
}

/// What one key press asks the surrounding loop to do.
#[derive(Clone, Copy, PartialEq, Eq, Structural, Debug)]
pub enum LoginAction {
    Continue,
    Submit,
    Exit,
}

impl Default for NotLoggedIn {
    fn default() -> (r: Self)
        ensures
            r.username@ == Seq::<char>::empty(),
            r.password@ == Seq::<char>::empty(),
            r.cursor == Cursor::Username,
            r.error is None,
    {
        NotLoggedIn {
            username: String::new(),
            password: String::new(),
            cursor: Cursor::Username,
            error: None,
        }
    }
}

impl NotLoggedIn {
    /// One key press: characters go to the focused field, Tab toggles
    /// focus, Enter advances focus or submits, Esc leaves.
    pub fn handle_key(&mut self, key: Key) -> (r: LoginAction)
        ensures
            ({
                let s = *final(self);
                let o = *old(self);
                match key {
                    Key::Char(c) => {
                        &&& r == LoginAction::Continue
                        &&& s.cursor == o.cursor
                        &&& s.error == o.error
                        &&& (o.cursor is Username ==> s.username@ == o.username@.push(c)
                            && s.password == o.password)
                        &&& (o.cursor is Password ==> s.password@ == o.password@.push(c)
                            && s.username == o.username)
                    },
                    Key::Backspace => {
                        &&& r == LoginAction::Continue
                        &&& s.cursor == o.cursor
                        &&& s.error == o.error
                        &&& (o.cursor is Username ==> s.password == o.password && s.username@
                            == (if o.username@.len() > 0 {
                                o.username@.drop_last()
                            } else {
                                o.username@
                            }))
                        &&& (o.cursor is Password ==> s.username == o.username && s.password@
                            == (if o.password@.len() > 0 {
                                o.password@.drop_last()
                            } else {
                                o.password@
                            }))
                    },
                    Key::Tab => {
                        &&& r == LoginAction::Continue
                        &&& s.username == o.username
                        &&& s.password == o.password
                        &&& s.error == o.error
                        &&& s.cursor == (match o.cursor {
                            Cursor::Username => Cursor::Password,
                            Cursor::Password => Cursor::Username,
                        })
                    },
                    Key::Enter => match o.cursor {
                        Cursor::Username => {
                            &&& r == LoginAction::Continue
                            &&& s.cursor == Cursor::Password
                            &&& s.username == o.username
                            &&& s.password == o.password
                            &&& s.error == o.error
                        },
                        Cursor::Password => r == LoginAction::Submit && s == o,
                    },
                    Key::Esc => r == LoginAction::Exit && s == o,
                    _ => r == LoginAction::Continue && s == o,
                }
            }),
    {
        match key {
            Key::Char(c) => {
                match self.cursor {
                    Cursor::Username => push_char(&mut self.username, c),
                    Cursor::Password => push_char(&mut self.password, c),
                }
                LoginAction::Continue
            },
            Key::Backspace => {
                let _ = match self.cursor {
                    Cursor::Username => pop_char(&mut self.username),
                    Cursor::Password => pop_char(&mut self.password),
                };
                LoginAction::Continue
            },
            Key::Tab => {
                self.cursor = match self.cursor {
                    Cursor::Username => Cursor::Password,
                    Cursor::Password => Cursor::Username,
                };
                LoginAction::Continue
            },
            Key::Enter => {
                match self.cursor {
                    Cursor::Username => {
                        self.cursor = Cursor::Password;
                        LoginAction::Continue
                    },
                    Cursor::Password => LoginAction::Submit,
                }
            },
            Key::Esc => LoginAction::Exit,
            _ => LoginAction::Continue,
        }
    }

    /// Interprets the storage collaborator's answer to a login call.
    pub fn try_login(&mut self, attempt: Result<Option<storage::User>, storage::Error>) -> (r:
        Result<Option<Transition>, LoginError>)
        ensures
            ({
                let s = *final(self);
                let o = *old(self);
                match attempt {
                    Ok(fetched) => match fetched {
                        Some(user) => (r matches Ok(t) && t matches Some(tr) && tr matches
                            Transition::Login { user: u } && u == user) && s == o,
                        None => {
                            &&& r matches Ok(t) && t is None
                            &&& s.username@ == Seq::<char>::empty()
                            &&& s.password@ == Seq::<char>::empty()
                            &&& s.cursor == Cursor::Username
                            &&& s.error == Some(LoginError::LoginFailed)
                        },
                    },
                    Err(e) => (r matches Err(le) && le == (LoginError::Storage { source: e })) && s
                        == o,
                }
            }),
    {
        match attempt {
            Ok(Some(user)) => Ok(Some(Transition::Login { user })),
            Ok(None) => {
                *self = NotLoggedIn {
                    username: String::new(),
                    password: String::new(),
                    cursor: Cursor::Username,
                    error: Some(LoginError::LoginFailed),
                };
                Ok(None)
            },
            Err(e) => Err(LoginError::Storage { source: e }),
        }
    }
}

} // verus!
