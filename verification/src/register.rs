//! The registration page: username, password and repeat-password fields,
//! local password validation, and the register flow against storage.

use vstd::prelude::*;

use crate::keys::Key;
use crate::storage;
use crate::text::{pop_char, push_char};

verus! {

/// The registration form.
pub struct Register {
    pub username: String,
    pub password: String,
    pub repeat_password: String,
    pub cursor: Cursor,
    pub error: Option<RegisterError>,
}

/// Which field has focus.
#[derive(Clone, Copy, PartialEq, Eq, Structural, Debug)]
pub enum Cursor {
    Username,
    Password,
    RepeatPassword,
}

impl Default for Cursor {
    fn default() -> (r: Self)
        ensures
            r == Cursor::Username,
    {
        Cursor::Username
    }
}

/// Why a registration attempt did not create an account.
#[derive(Clone, Copy, PartialEq, Eq, Structural, Debug)]
pub enum RegisterError {
    Storage { source: storage::Error },
    RegisterFailed,
    PasswordsDontMatch,
}

/// The page-level outcome of the registration page.
pub enum Transition {
    Exit,
    Registered { user: storage::User },
    Login,
}

/// What one key press asks the surrounding loop to do.
#[derive(Clone, Copy, PartialEq, Eq, Structural, Debug)]
pub enum RegisterAction {
    Continue,
    Submit,
    Exit,
    Login,
}

impl Default for Register {
    fn default() -> (r: Self)
        ensures
            r.username@ == Seq::<char>::empty(),
            r.password@ == Seq::<char>::empty(),
            r.repeat_password@ == Seq::<char>::empty(),
            r.cursor == Cursor::Username,
            r.error is None,
    {
        Register {
            username: String::new(),
            password: String::new(),
            repeat_password: String::new(),
            cursor: Cursor::Username,
            error: None,
        }
    }
}

impl Register {
    /// One key press: characters go to the focused field, Enter advances
    /// focus or submits, Tab leaves for the login page, Esc exits.
    pub fn handle_key(&mut self, key: Key) -> (r: RegisterAction)
        ensures
            ({
                let s = *final(self);
                let o = *old(self);
                match key {
                    Key::Char(c) => {
                        &&& r == RegisterAction::Continue
                        &&& s.cursor == o.cursor
                        &&& s.error == o.error
                        &&& (o.cursor is Username ==> s.username@ == o.username@.push(c)
                            && s.password == o.password && s.repeat_password == o.repeat_password)
                        &&& (o.cursor is Password ==> s.password@ == o.password@.push(c)
                            && s.username == o.username && s.repeat_password == o.repeat_password)
                        &&& (o.cursor is RepeatPassword ==> s.repeat_password@
                            == o.repeat_password@.push(c) && s.username == o.username && s.password
                            == o.password)
                    },
                    Key::Backspace => {
                        &&& r == RegisterAction::Continue
                        &&& s.cursor == o.cursor
                        &&& s.error == o.error
                        &&& (o.cursor is Username ==> s.password == o.password && s.repeat_password
                            == o.repeat_password && s.username@ == (if o.username@.len() > 0 {
                                o.username@.drop_last()
                            } else {
                                o.username@
                            }))
                        &&& (o.cursor is Password ==> s.username == o.username && s.repeat_password
                            == o.repeat_password && s.password@ == (if o.password@.len() > 0 {
                                o.password@.drop_last()
                            } else {
                                o.password@
                            }))
                        &&& (o.cursor is RepeatPassword ==> s.username == o.username && s.password
                            == o.password && s.repeat_password@ == (if o.repeat_password@.len()
                                > 0 {
                                o.repeat_password@.drop_last()
                            } else {
                                o.repeat_password@
                            }))
                    },
                    Key::Tab => r == RegisterAction::Login && s == o,
                    Key::Enter => match o.cursor {
                        Cursor::Username => {
                            &&& r == RegisterAction::Continue
                            &&& s.cursor == Cursor::Password
                            &&& s.username == o.username
                            &&& s.password == o.password
                            &&& s.repeat_password == o.repeat_password
                            &&& s.error == o.error
                        },
                        Cursor::Password => {
                            &&& r == RegisterAction::Continue
                            &&& s.cursor == Cursor::RepeatPassword
                            &&& s.username == o.username
                            &&& s.password == o.password
                            &&& s.repeat_password == o.repeat_password
                            &&& s.error == o.error
                        },
                        Cursor::RepeatPassword => r == RegisterAction::Submit && s == o,
                    },
                    Key::Esc => r == RegisterAction::Exit && s == o,
                    _ => r == RegisterAction::Continue && s == o,
                }
            }),
    {
        match key {
            Key::Char(c) => {
                match self.cursor {
                    Cursor::Username => push_char(&mut self.username, c),
                    Cursor::Password => push_char(&mut self.password, c),
                    Cursor::RepeatPassword => push_char(&mut self.repeat_password, c),
                }
                RegisterAction::Continue
            },
            Key::Backspace => {
                let _ = match self.cursor {
                    Cursor::Username => pop_char(&mut self.username),
                    Cursor::Password => pop_char(&mut self.password),
                    Cursor::RepeatPassword => pop_char(&mut self.repeat_password),
                };
                RegisterAction::Continue
            },
            Key::Tab => RegisterAction::Login,
            Key::Enter => {
                match self.cursor {
                    Cursor::Username => {
                        self.cursor = Cursor::Password;
                        RegisterAction::Continue
                    },
                    Cursor::Password => {
                        self.cursor = Cursor::RepeatPassword;
                        RegisterAction::Continue
                    },
                    Cursor::RepeatPassword => RegisterAction::Submit,
                }
            },
            Key::Esc => RegisterAction::Exit,
            _ => RegisterAction::Continue,
        }
    }

    /// Whether the two password fields agree; only then is storage asked to
    /// register.
    pub fn passwords_match(&self) -> (r: bool)
        ensures
            r == (self.password@ == self.repeat_password@),
    {
        crate::text::str_eq(self.password.as_str(), self.repeat_password.as_str())
    }

    /// Interprets a registration attempt. `attempt` is the storage answer,
    /// present exactly when the passwords matched locally: a mismatch never
    /// reaches storage and resets the form; a taken username resets the form
    /// as a retryable failure; any other storage fault is handed back.
    pub fn try_register(&mut self, attempt: Option<Result<storage::User, storage::Error>>) -> (r:
        Result<Option<Transition>, RegisterError>)
        requires
            (attempt is Some) == (old(self).password@ == old(self).repeat_password@),
        ensures
            ({
                let s = *final(self);
                let o = *old(self);
                match attempt {
                    None => {
                        &&& r matches Ok(t) && t is None
                        &&& s.username@ == Seq::<char>::empty()
                        &&& s.password@ == Seq::<char>::empty()
                        &&& s.repeat_password@ == Seq::<char>::empty()
                        &&& s.cursor == Cursor::Username
                        &&& s.error == Some(RegisterError::PasswordsDontMatch)
                    },
                    Some(outcome) => match outcome {
                        Ok(user) => (r matches Ok(t) && t matches Some(tr) && tr matches
                            Transition::Registered { user: u } && u == user) && s == o,
                        Err(e) => if e == storage::Error::UserAlreadyExists {
                            &&& r matches Ok(t) && t is None
                            &&& s.username@ == Seq::<char>::empty()
                            &&& s.password@ == Seq::<char>::empty()
                            &&& s.repeat_password@ == Seq::<char>::empty()
                            &&& s.cursor == Cursor::Username
                            &&& s.error == Some(RegisterError::RegisterFailed)
                        } else {
                            (r matches Err(re) && re == (RegisterError::Storage { source: e })) && s
                                == o
                        },
                    },
                }
            }),
    {
        match attempt {
            None => {
                *self = Register {
                    username: String::new(),
                    password: String::new(),
                    repeat_password: String::new(),
                    cursor: Cursor::Username,
                    error: Some(RegisterError::PasswordsDontMatch),
                };
                Ok(None)
            },
            Some(Ok(user)) => Ok(Some(Transition::Registered { user })),
            Some(Err(storage::Error::UserAlreadyExists)) => {
                *self = Register {
                    username: String::new(),
                    password: String::new(),
                    repeat_password: String::new(),
                    cursor: Cursor::Username,
                    error: Some(RegisterError::RegisterFailed),
                };
                Ok(None)
            },
            Some(Err(e)) => Err(RegisterError::Storage { source: e }),
        }
    }

    /// The whole submit step of the page loop: on a storage fault the page
    /// stays as it was, showing the fault inline.
    pub fn submit(&mut self, attempt: Option<Result<storage::User, storage::Error>>) -> (r: Option<
        Transition,
    >)
        requires
            (attempt is Some) == (old(self).password@ == old(self).repeat_password@),
        ensures
            ({
                let s = *final(self);
                let o = *old(self);
                match attempt {
                    Some(outcome) => match outcome {
                        Ok(user) => (r matches Some(tr) && tr matches Transition::Registered {
                            user: u,
                        } && u == user) && s == o,
                        Err(e) => if e == storage::Error::UserAlreadyExists {
                            r is None && s.error == Some(RegisterError::RegisterFailed)
                        } else {
                            &&& r is None
                            &&& s.username == o.username
                            &&& s.password == o.password
                            &&& s.repeat_password == o.repeat_password
                            &&& s.cursor == o.cursor
                            &&& s.error == Some(RegisterError::Storage { source: e })
                        },
                    },
                    None => r is None && s.error == Some(RegisterError::PasswordsDontMatch),
                }
            }),
    {
        match self.try_register(attempt) {
            Ok(v) => v,
            Err(e) => {
                self.error = Some(e);
                None
            },
        }
    }
}

} // verus!
