//! The layer state machines: login, registration, the note viewer with
//! link-follow mode, search, and configuration.

use zettelkasten::config::{Config, ConfigAction, FieldTy, Transition as ConfigTransition};
use zettelkasten::keys::Key;
use zettelkasten::logged_in::{LoggedIn, Transition as GreetTransition};
use zettelkasten::login::{Login, LoginAction};
use zettelkasten::not_logged_in::{Cursor as NliCursor, LoginAction as NliAction, NotLoggedIn};
use zettelkasten::register::{
    Cursor as RegCursor, Register, RegisterAction, RegisterError, Transition as RegTransition,
};
use zettelkasten::search::{Search, SearchAction};
use zettelkasten::storage::{Error, SystemConfig, User, UserMode, Zettel, ZettelHeader};
use zettelkasten::zettel::{
    resolve_last_visited, try_get_sys_page, zettel_for_path, SysPage,
    Transition as ZettelTransition, Zettel as ZettelPage,
};
use zettelkasten::view::Error as ViewError;

fn user() -> User {
    User { id: 1, name: "u".to_string(), password: "p".to_string(), last_visited_zettel: None }
}

/// Characters go to the focused login field; Enter advances and submits.
#[test]
fn login_key_flow() {
    let mut l = Login::default();
    assert_eq!(l.handle_key(Key::Char('a'), false), LoginAction::Continue);
    assert_eq!(l.username, "a");
    assert_eq!(l.handle_key(Key::Enter, false), LoginAction::Continue);
    assert_eq!(l.handle_key(Key::Char('x'), false), LoginAction::Continue);
    assert_eq!(l.password, "x");
    assert_eq!(l.handle_key(Key::Backspace, false), LoginAction::Continue);
    assert_eq!(l.password, "");
    assert_eq!(l.handle_key(Key::Enter, false), LoginAction::Submit);
    assert_eq!(l.handle_key(Key::Tab, false), LoginAction::Continue);
    assert_eq!(l.handle_key(Key::Tab, true), LoginAction::Register);
    assert_eq!(l.handle_key(Key::Esc, true), LoginAction::Exit);
}

/// Tab toggles focus on the standalone login page.
#[test]
fn not_logged_in_tab_toggles() {
    let mut l = NotLoggedIn::default();
    assert_eq!(l.cursor, NliCursor::Username);
    assert_eq!(l.handle_key(Key::Tab), NliAction::Continue);
    assert_eq!(l.cursor, NliCursor::Password);
    assert_eq!(l.handle_key(Key::Tab), NliAction::Continue);
    assert_eq!(l.cursor, NliCursor::Username);
    let t = l.try_login(Ok(Some(user()))).unwrap();
    assert!(t.is_some());
}

/// A password mismatch never reaches storage and resets the form.
#[test]
fn register_password_mismatch() {
    let mut r = Register::default();
    r.username = "u".to_string();
    r.password = "a".to_string();
    r.repeat_password = "b".to_string();
    assert!(!r.passwords_match());
    let t = r.submit(None);
    assert!(t.is_none());
    assert_eq!(r.username, "");
    assert!(matches!(r.error, Some(RegisterError::PasswordsDontMatch)));
}

/// A taken username is a retryable failure; other faults are shown inline;
/// success leaves the page for the new user's viewer.
#[test]
fn register_outcomes() {
    let mut r = Register::default();
    r.password = "a".to_string();
    r.repeat_password = "a".to_string();
    assert!(r.passwords_match());
    let t = r.submit(Some(Err(Error::UserAlreadyExists)));
    assert!(t.is_none());
    assert!(matches!(r.error, Some(RegisterError::RegisterFailed)));

    let mut r = Register::default();
    r.username = "u".to_string();
    let t = r.submit(Some(Err(Error::Sqlx)));
    assert!(t.is_none());
    assert_eq!(r.username, "u");
    assert!(matches!(r.error, Some(RegisterError::Storage { source: Error::Sqlx })));

    let mut r = Register::default();
    let t = r.submit(Some(Ok(user())));
    assert!(matches!(t, Some(RegTransition::Registered { .. })));
}

/// The registration page walks its three fields with Enter.
#[test]
fn register_cursor_walk() {
    let mut r = Register::default();
    assert_eq!(r.cursor, RegCursor::Username);
    assert_eq!(r.handle_key(Key::Enter), RegisterAction::Continue);
    assert_eq!(r.cursor, RegCursor::Password);
    assert_eq!(r.handle_key(Key::Enter), RegisterAction::Continue);
    assert_eq!(r.cursor, RegCursor::RepeatPassword);
    assert_eq!(r.handle_key(Key::Enter), RegisterAction::Submit);
    assert_eq!(r.handle_key(Key::Tab), RegisterAction::Login);
    assert_eq!(r.handle_key(Key::Esc), RegisterAction::Exit);
}

/// The greeting page: `l` logs out, `q` exits.
#[test]
fn greeting_keys() {
    let page = LoggedIn::from(user());
    assert!(matches!(page.handle_key(Key::Char('l')), Some(GreetTransition::Logout)));
    assert!(matches!(page.handle_key(Key::Char('q')), Some(GreetTransition::Exit)));
    assert!(page.handle_key(Key::Char('z')).is_none());
    assert!(page.handle_key(Key::Enter).is_none());
}

/// The note viewer's single-key shortcuts.
#[test]
fn zettel_shortcuts() {
    let mut z = ZettelPage::new_with_user(user(), None);
    let parsed = z.rendered().unwrap();
    assert!(matches!(
        z.handle_key(Key::Char('a'), &parsed),
        Some(ZettelTransition::ZettelList)
    ));
    assert!(matches!(
        z.handle_key(Key::Char('c'), &parsed),
        Some(ZettelTransition::OpenConfig)
    ));
    assert!(matches!(z.handle_key(Key::Char('e'), &parsed), Some(ZettelTransition::Edit)));
    assert!(matches!(z.handle_key(Key::Char('l'), &parsed), Some(ZettelTransition::Logout)));
    assert!(matches!(z.handle_key(Key::Char('q'), &parsed), Some(ZettelTransition::Exit)));
    assert!(matches!(z.handle_key(Key::Char('s'), &parsed), Some(ZettelTransition::Search)));
}

/// Typing a full code in link-follow mode navigates to its target; a miss
/// leaves the mode; backspace and escape edit or abort without effect.
#[test]
fn zettel_follow_mode() {
    let doc = Zettel {
        id: 2,
        path: "p".to_string(),
        body: "See [config](sys:config) and [home]".to_string(),
    };
    let mut z = ZettelPage::new_with_zettel(user(), doc);
    let parsed = z.rendered().unwrap();
    assert!(z.handle_key(Key::Char('f'), &parsed).is_none());
    assert!(z.link_input.is_some());
    // The viewer's reserved characters leave `b` as the first code.
    let parsed = z.rendered().unwrap();
    assert_eq!(parsed.link_char_size, 1);
    assert_eq!(parsed.links[0].code, "b");
    match z.handle_key(Key::Char('b'), &parsed) {
        Some(ZettelTransition::NavigateTo { path }) => assert_eq!(path, "sys:config"),
        _ => panic!("expected navigation"),
    }

    // A miss discards the input mode.
    let mut z2 = ZettelPage::new_with_zettel(
        user(),
        Zettel { id: 3, path: "p".to_string(), body: "[one]".to_string() },
    );
    let parsed2 = z2.rendered().unwrap();
    z2.handle_key(Key::Char('f'), &parsed2);
    let parsed2 = z2.rendered().unwrap();
    assert!(z2.handle_key(Key::Char('z'), &parsed2).is_none());
    assert!(z2.link_input.is_none());

    // Backspace edits the buffer, Esc aborts the mode.
    let mut z3 = ZettelPage::new_with_zettel(
        user(),
        Zettel { id: 4, path: "p".to_string(), body: "[one] [two]".to_string() },
    );
    let parsed3 = z3.rendered().unwrap();
    z3.handle_key(Key::Char('f'), &parsed3);
    let parsed3 = z3.rendered().unwrap();
    z3.handle_key(Key::Backspace, &parsed3);
    assert_eq!(z3.link_input.as_deref(), Some(""));
    z3.handle_key(Key::Esc, &parsed3);
    assert!(z3.link_input.is_none());
}

/// The welcome document appears when nothing was visited before.
#[test]
fn welcome_document() {
    let z = ZettelPage::new_with_user(user(), None);
    assert_eq!(z.zettel.id, 0);
    assert_eq!(z.zettel.path, "home");
    assert!(z.zettel.body.starts_with("Welcome to Zettelkasten"));

    let stored = Zettel { id: 9, path: "notes".to_string(), body: "text".to_string() };
    let z = ZettelPage::new_with_user(user(), Some(stored));
    assert_eq!(z.zettel.id, 9);
    assert_eq!(z.zettel.path, "notes");
}

/// `sys:` targets route to the configuration page or fail loudly; plain
/// paths pass through.
#[test]
fn sys_page_routing() {
    assert!(matches!(try_get_sys_page("sys:config"), Ok(Some(SysPage::Config))));
    assert!(matches!(try_get_sys_page("notes/today"), Ok(None)));
    match try_get_sys_page("sys:other") {
        Err(ViewError::UnknownSysPage { page }) => assert_eq!(page, "other"),
        _ => panic!("expected the reserved-prefix error"),
    }
}

/// Landing resolution: no recorded id means the welcome document, a good id
/// means the refetched note, a stale id is a propagated not-found error.
#[test]
fn landing_resolution() {
    let fresh = user();
    assert!(matches!(resolve_last_visited(&fresh, None), Ok(None)));

    let mut returning = user();
    returning.last_visited_zettel = Some(4);
    let doc = Zettel { id: 4, path: "p".to_string(), body: "b".to_string() };
    match resolve_last_visited(&returning, Some(Ok(doc))) {
        Ok(Some(z)) => assert_eq!(z.id, 4),
        _ => panic!("expected the refetched note"),
    }
    match resolve_last_visited(&returning, Some(Err(Error::Sqlx))) {
        Err(ViewError::ZettelIdNotFound { id }) => assert_eq!(id, 4),
        _ => panic!("expected the stale id to surface"),
    }
}

/// A followed path that storage does not know becomes a fresh unsaved note.
#[test]
fn follow_unknown_path() {
    let z = zettel_for_path("new/note".to_string(), None);
    assert_eq!(z.id, 0);
    assert_eq!(z.path, "new/note");
    assert_eq!(z.body, "");

    let stored = Zettel { id: 5, path: "new/note".to_string(), body: "b".to_string() };
    let z = zettel_for_path("new/note".to_string(), Some(stored));
    assert_eq!(z.id, 5);
}

/// An edited body replaces the note's body in place.
#[test]
fn edit_replaces_body() {
    let mut z = ZettelPage::new_with_user(user(), None);
    z.apply_edit("new body".to_string());
    assert_eq!(z.zettel.body, "new body");
    assert_eq!(z.zettel.path, "home");
}

/// The search page re-queries on every keystroke and clamps its selection.
#[test]
fn search_flow() {
    let mut s = Search::new(user());
    assert!(!s.wants_query());
    assert_eq!(s.handle_key(Key::Char('h')), SearchAction::QueryChanged);
    assert!(s.wants_query());
    let rows = vec![
        ZettelHeader { id: 1, path: "home".to_string(), highlight_text: None },
        ZettelHeader { id: 2, path: "house".to_string(), highlight_text: Some("h".to_string()) },
    ];
    s.update_search(rows);
    assert_eq!(s.results.len(), 2);
    assert_eq!(s.handle_key(Key::Down), SearchAction::Continue);
    assert_eq!(s.selected, 1);
    match s.handle_key(Key::Enter) {
        SearchAction::Open { id } => assert_eq!(id, 2),
        _ => panic!("expected to open the highlighted result"),
    }
    s.update_search(vec![ZettelHeader { id: 3, path: "h".to_string(), highlight_text: None }]);
    assert_eq!(s.selected, 0);
    assert_eq!(s.handle_key(Key::Backspace), SearchAction::QueryChanged);
    assert_eq!(s.handle_key(Key::Backspace), SearchAction::QueryChanged);
    assert!(!s.wants_query());
    s.clear_results();
    assert!(s.results.is_empty());
    assert_eq!(s.handle_key(Key::Esc), SearchAction::Pop);
}

/// The configuration page mirrors the settings and encodes them back.
#[test]
fn config_round_trip() {
    let sc = SystemConfig {
        user_mode: UserMode::MultiUser,
        terminal_editor: Some("/usr/bin/vi".to_string()),
    };
    let c = Config::new(&sc);
    let back = c.to_system_config();
    assert!(matches!(back.user_mode, UserMode::MultiUser));
    assert_eq!(back.terminal_editor.as_deref(), Some("/usr/bin/vi"));

    let sc = SystemConfig { user_mode: UserMode::SingleUserAutoLogin, terminal_editor: None };
    let c = Config::new(&sc);
    let back = c.to_system_config();
    assert!(matches!(back.user_mode, UserMode::SingleUserAutoLogin));
    assert!(back.terminal_editor.is_none());
}

/// Keys on the configuration page: arrows move and turn, text edits, Enter
/// saves, Esc leaves.
#[test]
fn config_keys() {
    let sc = SystemConfig { user_mode: UserMode::SingleUserManualLogin, terminal_editor: None };
    let mut c = Config::new(&sc);
    assert_eq!(c.form.active, 0);
    assert_eq!(c.handle_key(Key::Right), ConfigAction::Continue);
    let back = c.to_system_config();
    assert!(matches!(back.user_mode, UserMode::MultiUser));
    assert_eq!(c.handle_key(Key::Left), ConfigAction::Continue);
    assert_eq!(c.handle_key(Key::Left), ConfigAction::Continue);
    let back = c.to_system_config();
    assert!(matches!(back.user_mode, UserMode::SingleUserAutoLogin));

    assert_eq!(c.handle_key(Key::Down), ConfigAction::Continue);
    assert_eq!(c.form.active, 1);
    assert_eq!(c.handle_key(Key::Char('v')), ConfigAction::Continue);
    assert_eq!(c.handle_key(Key::Char('i')), ConfigAction::Continue);
    let back = c.to_system_config();
    assert_eq!(back.terminal_editor.as_deref(), Some("vi"));
    assert_eq!(c.handle_key(Key::Backspace), ConfigAction::Continue);
    assert_eq!(c.handle_key(Key::Backspace), ConfigAction::Continue);
    let back = c.to_system_config();
    assert!(back.terminal_editor.is_none());

    assert_eq!(c.handle_key(Key::Enter), ConfigAction::Save);
    assert!(matches!(c.handle_save_result(true), Some(ConfigTransition::Pop)));
    assert!(c.handle_save_result(false).is_none());
    assert_eq!(c.handle_key(Key::Esc), ConfigAction::Pop);
}

/// Field editing only touches the matching field kind.
#[test]
fn field_ty_behaviour() {
    let mut t = FieldTy::Text { value: String::new() };
    t.input('a');
    t.left();
    t.right();
    match &t {
        FieldTy::Text { value } => assert_eq!(value, "a"),
        _ => panic!("expected a text field"),
    }
    let mut m = FieldTy::MultipleOption { options: vec!["x", "y"], selected: 0 };
    m.input('a');
    m.right();
    match &m {
        FieldTy::MultipleOption { selected, .. } => assert_eq!(*selected, 1),
        _ => panic!("expected a choice field"),
    }
    m.right();
    match &m {
        FieldTy::MultipleOption { selected, .. } => assert_eq!(*selected, 1),
        _ => panic!("expected a choice field"),
    }
}

/// Search rows carry the marker, the path and the break-stripped excerpt.
#[test]
fn search_rows() {
    let mut s = Search::new(user());
    s.handle_key(Key::Char('h'));
    s.update_search(vec![
        ZettelHeader { id: 1, path: "home".to_string(), highlight_text: None },
        ZettelHeader {
            id: 2,
            path: "house".to_string(),
            highlight_text: Some("two\nlines".to_string()),
        },
    ]);
    let rows = s.draw();
    assert_eq!(rows.len(), 2);
    let first: Vec<&str> = rows[0].spans.iter().map(|x| x.text.as_str()).collect();
    assert_eq!(first, vec!["> ", "home"]);
    let second: Vec<&str> = rows[1].spans.iter().map(|x| x.text.as_str()).collect();
    assert_eq!(second, vec!["  ", "house", " ", "twolines"]);
}
