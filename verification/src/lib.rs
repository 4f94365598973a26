//! Interactive navigation engine for a text-mode note-taking application.
//!
//! The engine owns a stack of presentation layers (login, registration, note
//! viewer, note list, search, configuration) and the hyperlink
//! encoding/decoding scheme that lets a user follow links inside free-form
//! note bodies by typing short mnemonic codes.
//!
//! Storage, terminal drawing and the external-editor round trip are outside
//! collaborators: the layer state machines here take their outcomes as plain
//! values and return transition decisions, so every rule of the engine is
//! stated in a contract and proved.

pub mod config;
pub mod keys;
pub mod links;
pub mod list;
pub mod logged_in;
pub mod login;
pub mod not_logged_in;
pub mod register;
pub mod search;
pub mod storage;
pub mod view;
pub mod web;
pub mod zettel;

mod text;
