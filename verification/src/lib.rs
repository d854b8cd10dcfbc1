//! A personal watch list. Films are filed as pending, promoted to completed,
//! and removed once completed; either list can be shown, a pending film can
//! be picked at random, and any film can be looked up by its identifier.
//!
//! A state is a value: every operation leaves the state it is given as it is
//! and returns the one that follows. Contracts are stated over the views of
//! the values involved, and `laws` holds what follows from them.
//!
//! - `film`: the record and the rules an entry must meet
//! - `fields`, `decimal`, `text`: reading the payload of a new entry
//! - `fingerprint`: the identifier, derived from a film's content
//! - `listing`, `state`: the two lists and the operations on them
//! - `command`: what each command does to a state
//! - `markdown`, `reply`: the message with which an outcome is answered
//! - `access`: which chat may use the list

pub mod access;
pub mod command;
pub mod decimal;
pub mod fields;
pub mod film;
pub mod fingerprint;
pub mod laws;
pub mod listing;
pub mod markdown;
pub mod reply;
pub mod state;
pub mod text;
