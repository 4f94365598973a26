//! The HTTP front end's session logic.

use zettelkasten::storage::{User, Zettel};
use zettelkasten::web::{default_zettel, User as WebUser};

fn user() -> User {
    User { id: 9, name: "u".to_string(), password: "p".to_string(), last_visited_zettel: Some(2) }
}

/// The default document greets a fresh session at `/home`.
#[test]
fn default_document() {
    let z = default_zettel();
    assert_eq!(z.id, 0);
    assert_eq!(z.path, "/home");
    assert!(z.body.starts_with("Welcome to zettelkasten"));
}

/// A returning user lands on the refetched note, or on the default document.
#[test]
fn landing_document() {
    let u = WebUser { user: user() };
    assert_eq!(u.id(), 9);
    let stored = Zettel { id: 2, path: "notes".to_string(), body: "b".to_string() };
    assert_eq!(u.load_last_visited_zettel(Some(stored)).path, "notes");
    assert_eq!(u.load_last_visited_zettel(None).path, "/home");
}
