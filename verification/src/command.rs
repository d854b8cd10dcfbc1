//! The commands of the watch list and what each of them does to a state.

use vstd::prelude::*;
use vstd::string::*;
use crate::film::{parse_film, parsed, Film, FilmView, ValidationError};
use crate::fingerprint::fingerprint;
use crate::listing::{listing, Listing};
use crate::state::{State, StateView};

verus! {

/// What a user may ask for. Each argument is the text that followed the
/// command's name.
#[derive(Debug, PartialEq, Eq)]
pub enum Command {
    /// File a film as pending; the argument reads `title,,,year,,,url`.
    Add(String),
    /// Promote the pending film with this identifier to completed.
    Mv(String),
    /// Pick a pending film at random.
    Rnd,
    /// Remove the completed film with this identifier.
    Rm(String),
    /// List the pending films.
    Ls,
    /// List the completed films.
    La,
    /// Describe the film with this identifier.
    Who(String),
    /// Show the commands.
    Help,
}

/// What a command is, as plain values.
pub enum CommandView {
    Add(Seq<char>),
    Mv(Seq<char>),
    Rnd,
    Rm(Seq<char>),
    Ls,
    La,
    Who(Seq<char>),
    Help,
}

impl View for Command {
    type V = CommandView;

    open spec fn view(&self) -> CommandView {
        match self {
            Command::Add(payload) => CommandView::Add(payload@),
            Command::Mv(id) => CommandView::Mv(id@),
            Command::Rnd => CommandView::Rnd,
            Command::Rm(id) => CommandView::Rm(id@),
            Command::Ls => CommandView::Ls,
            Command::La => CommandView::La,
            Command::Who(id) => CommandView::Who(id@),
            Command::Help => CommandView::Help,
        }
    }
}

impl Clone for Command {
    fn clone(&self) -> (r: Self)
        ensures
            r@ == self@,
    {
        match self {
            Command::Add(payload) => Command::Add(payload.clone()),
            Command::Mv(id) => Command::Mv(id.clone()),
            Command::Rnd => Command::Rnd,
            Command::Rm(id) => Command::Rm(id.clone()),
            Command::Ls => Command::Ls,
            Command::La => Command::La,
            Command::Who(id) => Command::Who(id.clone()),
            Command::Help => Command::Help,
        }
    }
}

/// The commands that need an argument.
#[derive(Clone, Copy, Debug, PartialEq, Eq, Structural)]
pub enum Action {
    Add,
    Move,
    Remove,
    Info,
}

/// Where a command looked for a film.
#[derive(Clone, Copy, Debug, PartialEq, Eq, Structural)]
pub enum Place {
    /// Among the pending films, as a promotion does.
    Pending,
    /// Among the completed films, as a removal does.
    Completed,
    /// Among all films, as a description does.
    Anywhere,
}

/// How a command ended.
#[derive(Debug, PartialEq, Eq)]
pub enum Outcome {
    /// The film was filed as pending under this identifier.
    Added(String),
    /// The film was turned away, for this reason.
    Rejected(ValidationError),
    /// The film was promoted to completed.
    Moved,
    /// The film was removed.
    Removed,
    /// This pending film was picked.
    Picked(String, Film),
    /// Nothing is pending, so nothing was picked.
    Empty,
    /// The pending films.
    Pending(Vec<(String, Film)>),
    /// The completed films.
    Completed(Vec<(String, Film)>),
    /// The film with this identifier.
    Info(String, Film),
    /// No film with the given identifier is where the command looked.
    NotFound(Place),
    /// The command came without its argument.
    Usage(Action),
    /// The commands are to be shown.
    Help,
}

/// What an outcome is, as plain values.
pub enum OutcomeView {
    Added(Seq<char>),
    Rejected(ValidationError),
    Moved,
    Removed,
    Picked(Seq<char>, FilmView),
    Empty,
    Pending(Listing),
    Completed(Listing),
    Info(Seq<char>, FilmView),
    NotFound(Place),
    Usage(Action),
    Help,
}

impl View for Outcome {
    type V = OutcomeView;

    open spec fn view(&self) -> OutcomeView {
        match self {
            Outcome::Added(id) => OutcomeView::Added(id@),
            Outcome::Rejected(e) => OutcomeView::Rejected(*e),
            Outcome::Moved => OutcomeView::Moved,
            Outcome::Removed => OutcomeView::Removed,
            Outcome::Picked(id, film) => OutcomeView::Picked(id@, film@),
            Outcome::Empty => OutcomeView::Empty,
            Outcome::Pending(items) => OutcomeView::Pending(listing(items@)),
            Outcome::Completed(items) => OutcomeView::Completed(listing(items@)),
            Outcome::Info(id, film) => OutcomeView::Info(id@, film@),
            Outcome::NotFound(place) => OutcomeView::NotFound(*place),
            Outcome::Usage(action) => OutcomeView::Usage(*action),
            Outcome::Help => OutcomeView::Help,
        }
    }
}

/// The state that follows `s` under the command `c`, and how the command
/// ends. A command without its argument, a film that is turned away and an
/// identifier that is not found leave the state as it is; so do the commands
/// that only read. The number `r` decides what `Rnd` picks and nothing else.
pub open spec fn step(s: StateView, c: CommandView, r: u64) -> (StateView, OutcomeView) {
    match c {
        CommandView::Add(payload) => if payload.len() == 0 {
            (s, OutcomeView::Usage(Action::Add))
        } else {
            match parsed(payload) {
                Ok(film) => (
                    s.insert(fingerprint(film), film),
                    OutcomeView::Added(fingerprint(film)),
                ),
                Err(e) => (s, OutcomeView::Rejected(e)),
            }
        },
        CommandView::Mv(id) => if id.len() == 0 {
            (s, OutcomeView::Usage(Action::Move))
        } else {
            match s.promote(id) {
                Some(next) => (next, OutcomeView::Moved),
                None => (s, OutcomeView::NotFound(Place::Pending)),
            }
        },
        CommandView::Rnd => match s.pick(r) {
            Some(item) => (s, OutcomeView::Picked(item.0, item.1)),
            None => (s, OutcomeView::Empty),
        },
        CommandView::Rm(id) => if id.len() == 0 {
            (s, OutcomeView::Usage(Action::Remove))
        } else {
            match s.discard(id) {
                Some(next) => (next, OutcomeView::Removed),
                None => (s, OutcomeView::NotFound(Place::Completed)),
            }
        },
        CommandView::Ls => (s, OutcomeView::Pending(s.pending)),
        CommandView::La => (s, OutcomeView::Completed(s.completed)),
        CommandView::Who(id) => if id.len() == 0 {
            (s, OutcomeView::Usage(Action::Info))
        } else {
            match s.lookup(id) {
                Some(film) => (s, OutcomeView::Info(id, film)),
                None => (s, OutcomeView::NotFound(Place::Anywhere)),
            }
        },
        CommandView::Help => (s, OutcomeView::Help),
    }
}

impl OutcomeView {
    /// Whether this outcome comes with a new state: a film was filed,
    /// promoted or removed.
    pub open spec fn changes_state(self) -> bool {
        self is Added || self is Moved || self is Removed
    }
}

impl Outcome {
    /// Whether this outcome comes with a new state, which is then to be kept
    /// in place of the old one.
    pub fn changes_state(&self) -> (r: bool)
        ensures
            r == self@.changes_state(),
    {
        match self {
            Outcome::Added(_) => true,
            Outcome::Moved => true,
            Outcome::Removed => true,
            _ => false,
        }
    }
}

/// Carries out `command` on `state`, with `r` as the number that decides what
/// `Rnd` picks.
pub fn execute_with(state: State, command: Command, r: u64) -> (result: (State, Outcome))
    ensures
        (result.0@, result.1@) == step(state@, command@, r),
        result.0@.wf(),
{
    proof {
        use_type_invariant(&state);
    }
    match command {
        Command::Add(payload) => {
            if payload.as_str().is_empty() {
                (state, Outcome::Usage(Action::Add))
            } else {
                match parse_film(payload.as_str()) {
                    Ok(film) => {
                        let (next, id) = state.add(film);
                        (next, Outcome::Added(id))
                    },
                    Err(e) => (state, Outcome::Rejected(e)),
                }
            }
        },
        Command::Mv(id) => {
            if id.as_str().is_empty() {
                (state, Outcome::Usage(Action::Move))
            } else {
                match state.mv(id.as_str()) {
                    Some(next) => (next, Outcome::Moved),
                    None => (state, Outcome::NotFound(Place::Pending)),
                }
            }
        },
        Command::Rnd => {
            match state.pick(r) {
                Some(item) => {
                    let (id, film) = item;
                    (state, Outcome::Picked(id, film))
                },
                None => (state, Outcome::Empty),
            }
        },
        Command::Rm(id) => {
            if id.as_str().is_empty() {
                (state, Outcome::Usage(Action::Remove))
            } else {
                match state.rm(id.as_str()) {
                    Some(next) => (next, Outcome::Removed),
                    None => (state, Outcome::NotFound(Place::Completed)),
                }
            }
        },
        Command::Ls => {
            let items = state.pending();
            (state, Outcome::Pending(items))
        },
        Command::La => {
            let items = state.completed();
            (state, Outcome::Completed(items))
        },
        Command::Who(id) => {
            if id.as_str().is_empty() {
                (state, Outcome::Usage(Action::Info))
            } else {
                match state.lookup(id.as_str()) {
                    Some(film) => (state, Outcome::Info(id, film)),
                    None => (state, Outcome::NotFound(Place::Anywhere)),
                }
            }
        },
        Command::Help => (state, Outcome::Help),
    }
}

/// Carries out `command` on `state`. `Rnd` picks by fresh entropy, so that
/// two calls on one state may pick different films; every other command ends
/// in the one way that `step` gives.
pub fn execute(state: State, command: Command) -> (result: (State, Outcome))
    ensures
        exists|r: u64| (result.0@, result.1@) == step(state@, command@, r),
        !(command@ is Rnd) ==> (result.0@, result.1@) == step(state@, command@, 0),
        result.0@.wf(),
{
    let r: u64 = match command {
        Command::Rnd => crate::state::entropy(),
        _ => 0,
    };
    execute_with(state, command, r)
}

} // verus!
