//! The view stack: push, pop, replace, the root-layer invariant, and the
//! login flow's effect on the stack.

use zettelkasten::login::{Login, LoginError, Transition};
use zettelkasten::storage::{Error, SystemConfig, User, UserMode, Zettel};
use zettelkasten::view::{
    alert_accepts, can_register, quit_after_error, route_login, View, ViewLayer, ViewReplace,
};
use zettelkasten::keys::Key;

fn user() -> User {
    User { id: 7, name: "ada".to_string(), password: "hash".to_string(), last_visited_zettel: None }
}

fn login_view() -> View {
    View { layers: vec![ViewLayer::Login(Login::default())] }
}

/// Pop on a single-element stack is detected and changes nothing.
#[test]
fn pop_on_root_is_a_violation() {
    let mut v = login_view();
    assert_eq!(v.depth(), 1);
    let ok = v.apply(ViewReplace::Pop);
    assert!(!ok);
    assert_eq!(v.depth(), 1);
}

/// Pop on two or more layers removes exactly the top, leaving the rest.
#[test]
fn pop_removes_exactly_the_top() {
    let mut v = login_view();
    assert!(v.apply(ViewReplace::Push(ViewLayer::Register(Default::default()))));
    assert_eq!(v.depth(), 2);
    assert!(matches!(v.top(), ViewLayer::Register(_)));
    assert!(v.apply(ViewReplace::Pop));
    assert_eq!(v.depth(), 1);
    assert!(matches!(v.top(), ViewLayer::Login(_)));
}

/// Push always grows the stack by exactly one, preserving the prior state.
#[test]
fn push_grows_by_one() {
    let mut v = login_view();
    assert!(v.apply(ViewReplace::Push(ViewLayer::Register(Default::default()))));
    assert!(v.apply(ViewReplace::Push(ViewLayer::Login(Login::default()))));
    assert_eq!(v.depth(), 3);
    assert!(matches!(v.layers[0], ViewLayer::Login(_)));
    assert!(matches!(v.layers[1], ViewLayer::Register(_)));
    assert!(matches!(v.layers[2], ViewLayer::Login(_)));
}

/// Replace always yields a one-element stack, whatever the prior depth.
#[test]
fn replace_yields_single_layer() {
    let mut v = login_view();
    assert!(v.apply(ViewReplace::Push(ViewLayer::Register(Default::default()))));
    assert!(v.apply(ViewReplace::Push(ViewLayer::Login(Login::default()))));
    assert!(v.apply(ViewReplace::Replace(ViewLayer::Register(Default::default()))));
    assert_eq!(v.depth(), 1);
    assert!(matches!(v.top(), ViewLayer::Register(_)));
}

/// A submit with correct credentials replaces the stack with a single note
/// viewer for the returned user.
#[test]
fn login_success_replaces_stack() {
    let mut v = login_view();
    let mut page = Login::default();
    let t = page.submit(Ok(Some(user())));
    let t = t.expect("expected a page transition");
    assert!(matches!(t, Transition::Login { .. }));
    let op = route_login(t, None).expect("expected a stack operation");
    assert!(v.apply(op));
    assert_eq!(v.depth(), 1);
    match v.top() {
        ViewLayer::Zettel(z) => {
            assert_eq!(z.user.id, 7);
            assert_eq!(z.zettel.path, "home");
        },
        _ => panic!("expected the note viewer on top"),
    }
}

/// A wrong password leaves the stack depth at one, marks the attempt failed
/// and clears the password field.
#[test]
fn login_failure_keeps_stack() {
    let mut v = login_view();
    let mut page = Login::default();
    page.username = "ada".to_string();
    page.password = "wrong".to_string();
    let t = page.submit(Ok(None));
    assert!(t.is_none());
    assert_eq!(v.depth(), 1);
    assert_eq!(page.password, "");
    assert!(matches!(page.error, Some(LoginError::LoginFailed)));
}

/// A storage fault during login stays on the page and shows the fault.
#[test]
fn login_fault_is_shown_inline() {
    let mut page = Login::default();
    page.username = "ada".to_string();
    page.password = "pw".to_string();
    let t = page.submit(Err(Error::Sqlx));
    assert!(t.is_none());
    assert_eq!(page.username, "ada");
    assert_eq!(page.password, "pw");
    assert!(matches!(page.error, Some(LoginError::Storage { source: Error::Sqlx })));
}

/// The initial layer: registration with no users, the login page otherwise,
/// the note viewer when auto-login succeeds.
#[test]
fn initial_layer_decision() {
    let manual = SystemConfig { user_mode: UserMode::SingleUserManualLogin, terminal_editor: None };
    let auto = SystemConfig { user_mode: UserMode::SingleUserAutoLogin, terminal_editor: None };

    let v = View::new(&manual, Ok(0), None, None);
    assert!(matches!(v.top(), ViewLayer::Register(_)));

    let v = View::new(&manual, Ok(3), None, None);
    assert!(matches!(v.top(), ViewLayer::Login(_)));

    let v = View::new(&auto, Ok(1), Some(Ok(user())), None);
    match v.top() {
        ViewLayer::Zettel(z) => assert_eq!(z.zettel.path, "home"),
        _ => panic!("expected the note viewer"),
    }

    let last = Zettel { id: 4, path: "work".to_string(), body: "b".to_string() };
    let v = View::new(&auto, Ok(1), Some(Ok(user())), Some(last));
    match v.top() {
        ViewLayer::Zettel(z) => assert_eq!(z.zettel.path, "work"),
        _ => panic!("expected the note viewer"),
    }

    let v = View::new(&auto, Ok(1), Some(Err(Error::SingleUserNotFound)), None);
    match v.top() {
        ViewLayer::Login(l) => {
            assert!(matches!(l.error, Some(LoginError::Storage { .. })));
        },
        _ => panic!("expected the login page"),
    }
}

/// Registration is open with multiple users, and otherwise only while no
/// user exists yet.
#[test]
fn can_register_decision() {
    assert!(can_register(&UserMode::MultiUser, None));
    assert!(can_register(&UserMode::SingleUserManualLogin, Some(0)));
    assert!(!can_register(&UserMode::SingleUserManualLogin, Some(2)));
    assert!(!can_register(&UserMode::SingleUserAutoLogin, Some(1)));
}

/// An alert only reacts to its offered action keys; `q` quits after a
/// fault's alert.
#[test]
fn alert_keys() {
    let actions = vec![Key::Char('q'), Key::Enter];
    assert!(alert_accepts(&actions, &Key::Char('q')));
    assert!(alert_accepts(&actions, &Key::Enter));
    assert!(!alert_accepts(&actions, &Key::Char('x')));
    assert!(quit_after_error(&Key::Char('q')));
    assert!(!quit_after_error(&Key::Enter));
}
