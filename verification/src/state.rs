//! The watch list: films that are pending and films that are completed, each
//! under its identifier. A state is a value; every operation leaves it as it
//! is and returns the state that follows.

use vstd::prelude::*;
use vstd::string::*;
use std::collections::hash_map::DefaultHasher;
use std::collections::hash_map::RandomState;
use std::hash::BuildHasher;
use std::hash::Hasher;
use crate::film::{debug_text, describe, Film, FilmView};
use crate::fingerprint::{fingerprint, sha};
use crate::laws::{lemma_discard_wf, lemma_insert_wf, lemma_pick_is_pending, lemma_promote_wf};
use crate::listing::{
    all_valid,
    apart,
    as_map,
    copy,
    copy_without,
    distinct,
    find,
    holds,
    listing,
    position,
    without,
    Item,
    Listing,
};
use crate::markdown::{lines, render};

verus! {

/// What a state is, as plain values: the two listings, each in the order in
/// which its items arrived.
pub struct StateView {
    pub pending: Listing,
    pub completed: Listing,
}

impl StateView {
    /// The state that holds nothing.
    pub open spec fn empty() -> StateView {
        StateView { pending: Seq::empty(), completed: Seq::empty() }
    }

    /// What every state satisfies: no identifier occurs twice in a listing,
    /// none occurs in both listings, and every film is valid.
    pub open spec fn wf(self) -> bool {
        &&& distinct(self.pending)
        &&& distinct(self.completed)
        &&& apart(self.pending, self.completed)
        &&& all_valid(self.pending)
        &&& all_valid(self.completed)
    }

    /// The state after `film` is filed as pending under `id`. The last write
    /// wins: whatever either listing held under `id` is dropped, and the new
    /// item comes last among the pending ones.
    pub open spec fn insert(self, id: Seq<char>, film: FilmView) -> StateView {
        StateView {
            pending: without(self.pending, id).push((id, film)),
            completed: without(self.completed, id),
        }
    }

    /// The state after the pending film under `id` is promoted to completed,
    /// where it comes last; nothing where no pending film has that identifier.
    pub open spec fn promote(self, id: Seq<char>) -> Option<StateView> {
        match find(self.pending, id) {
            Some(film) => Some(
                StateView {
                    pending: without(self.pending, id),
                    completed: without(self.completed, id).push((id, film)),
                },
            ),
            None => None,
        }
    }

    /// The state after the completed film under `id` is removed; nothing
    /// where no completed film has that identifier.
    pub open spec fn discard(self, id: Seq<char>) -> Option<StateView> {
        if holds(self.completed, id) {
            Some(StateView { pending: self.pending, completed: without(self.completed, id) })
        } else {
            None
        }
    }

    /// The film under `id`, sought among the pending films first and then
    /// among the completed ones.
    pub open spec fn lookup(self, id: Seq<char>) -> Option<FilmView> {
        match find(self.pending, id) {
            Some(film) => Some(film),
            None => find(self.completed, id),
        }
    }

    /// The pending films as a map from identifiers to films.
    pub open spec fn pending_map(self) -> Map<Seq<char>, FilmView> {
        as_map(self.pending)
    }

    /// The completed films as a map from identifiers to films.
    pub open spec fn completed_map(self) -> Map<Seq<char>, FilmView> {
        as_map(self.completed)
    }

    /// The state after each of `items` is filed as pending, in their order.
    pub open spec fn file_all(self, items: Listing) -> StateView
        decreases items.len(),
    {
        if items.len() == 0 {
            self
        } else {
            self.file_all(items.drop_last()).insert(items.last().0, items.last().1)
        }
    }

    /// The state after each of `items` is filed and promoted at once, in
    /// their order.
    pub open spec fn complete_all(self, items: Listing) -> StateView
        decreases items.len(),
    {
        if items.len() == 0 {
            self
        } else {
            let before = self.complete_all(items.drop_last());
            let filed = before.insert(items.last().0, items.last().1);
            match filed.promote(items.last().0) {
                Some(next) => next,
                None => filed,
            }
        }
    }

    /// The state that is rebuilt from two listings: the completed items
    /// first, then the pending ones, so that a pending item wins where an
    /// identifier occurs in both, and a later item where one occurs twice.
    pub open spec fn restored(pending: Listing, completed: Listing) -> StateView {
        StateView::empty().complete_all(completed).file_all(pending)
    }

    /// The pending item that the number `r` selects: the one at position `r`
    /// modulo the number of pending items; nothing where none is pending.
    pub open spec fn pick(self, r: u64) -> Option<Item> {
        if self.pending.len() == 0 {
            None
        } else {
            Some(self.pending[r as int % self.pending.len() as int])
        }
    }
}

/// A watch list.
#[derive(Debug, PartialEq, Eq)]
pub struct State {
    pending: Vec<(String, Film)>,
    completed: Vec<(String, Film)>,
}

impl View for State {
    type V = StateView;

    closed spec fn view(&self) -> StateView {
        StateView { pending: listing(self.pending@), completed: listing(self.completed@) }
    }
}

/// Calls `RandomState::new`, which draws fresh keys for a hasher. Nothing is
/// promised of them.
#[verifier::external_body]
fn random_keys() -> (keys: RandomState) {
    RandomState::new()
}

/// Calls `BuildHasher::build_hasher` on a `RandomState`, which makes a hasher
/// with those keys. Nothing is promised of what it has been fed.
#[verifier::external_body]
fn keyed_hasher(keys: &RandomState) -> (hasher: DefaultHasher) {
    keys.build_hasher()
}

/// Sixty-four bits that differ from call to call: the digest of a hasher
/// under freshly drawn keys.
pub(crate) fn entropy() -> u64 {
    let keys = random_keys();
    let hasher = keyed_hasher(&keys);
    hasher.finish()
}

impl State {
    #[verifier::type_invariant]
    pub open spec fn well_formed(&self) -> bool {
        self@.wf()
    }

    /// The state that holds nothing.
    pub fn new() -> (state: State)
        ensures
            state@ == StateView::empty(),
            state@.wf(),
    {
        let state = State { pending: Vec::new(), completed: Vec::new() };
        proof {
            assert(state@.pending =~= Seq::empty());
            assert(state@.completed =~= Seq::empty());
        }
        state
    }

    /// Rebuilds a state from two listings, such as `pending` and `completed`
    /// once gave them. Whatever the listings hold, the result is well formed.
    pub fn restore(
        pending: &Vec<(String, Film)>,
        completed: &Vec<(String, Film)>,
    ) -> (state: State)
        ensures
            state@ == StateView::restored(listing(pending@), listing(completed@)),
            state@.wf(),
    {
        let mut state = State::new();
        let mut i: usize = 0;
        while i < completed.len()
            invariant
                i <= completed@.len(),
                state@.wf(),
                state@ == StateView::empty().complete_all(
                    listing(completed@).subrange(0, i as int),
                ),
            decreases completed@.len() - i,
        {
            proof {
                let upto = listing(completed@).subrange(0, i + 1);
                assert(upto.drop_last() =~= listing(completed@).subrange(0, i as int));
            }
            let filed = state.insert(completed[i].0.clone(), completed[i].1.clone());
            state = match filed.mv(completed[i].0.as_str()) {
                Some(next) => next,
                None => filed,
            };
            i = i + 1;
        }
        proof {
            assert(listing(completed@).subrange(0, i as int) =~= listing(completed@));
        }
        let ghost base = state@;
        let mut j: usize = 0;
        while j < pending.len()
            invariant
                j <= pending@.len(),
                state@.wf(),
                state@ == base.file_all(listing(pending@).subrange(0, j as int)),
            decreases pending@.len() - j,
        {
            proof {
                let upto = listing(pending@).subrange(0, j + 1);
                assert(upto.drop_last() =~= listing(pending@).subrange(0, j as int));
            }
            state = state.insert(pending[j].0.clone(), pending[j].1.clone());
            j = j + 1;
        }
        proof {
            assert(listing(pending@).subrange(0, j as int) =~= listing(pending@));
        }
        state
    }

    /// Files `film` as pending under `id`; the last write wins.
    pub fn insert(&self, id: String, film: Film) -> (next: State)
        ensures
            next@ == self@.insert(id@, film@),
            next@.wf(),
    {
        proof {
            use_type_invariant(self);
            use_type_invariant(&film);
            lemma_insert_wf(self@, id@, film@);
        }
        let mut pending = copy_without(&self.pending, &id);
        let completed = copy_without(&self.completed, &id);
        let item = (id, film);
        proof {
            assert(listing(pending@.push(item)) =~= listing(pending@).push((item.0@, item.1@)));
        }
        pending.push(item);
        State { pending, completed }
    }

    /// Files `film` as pending under its fingerprint, and returns the next
    /// state with that identifier.
    pub fn add(&self, film: Film) -> (r: (State, String))
        ensures
            r.1@ == fingerprint(film@),
            r.0@ == self@.insert(fingerprint(film@), film@),
            r.0@.wf(),
    {
        let id = sha(&film);
        let next = self.insert(id.clone(), film);
        (next, id)
    }

    /// Promotes the pending film under `id` to completed.
    pub fn mv(&self, id: &str) -> (r: Option<State>)
        ensures
            match r {
                Some(next) => self@.promote(id@) == Some(next@) && next@.wf(),
                None => self@.promote(id@) is None,
            },
    {
        proof {
            use_type_invariant(self);
            lemma_promote_wf(self@, id@);
        }
        let key = String::from_str(id);
        match position(&self.pending, &key) {
            None => None,
            Some(i) => {
                let film = self.pending[i].1.clone();
                let pending = copy_without(&self.pending, &key);
                let mut completed = copy_without(&self.completed, &key);
                let item = (key, film);
                proof {
                    assert(listing(completed@.push(item)) =~= listing(completed@).push(
                        (item.0@, item.1@),
                    ));
                }
                completed.push(item);
                Some(State { pending, completed })
            },
        }
    }

    /// Removes the completed film under `id`. A pending film is never
    /// removed.
    pub fn rm(&self, id: &str) -> (r: Option<State>)
        ensures
            match r {
                Some(next) => self@.discard(id@) == Some(next@) && next@.wf(),
                None => self@.discard(id@) is None,
            },
    {
        proof {
            use_type_invariant(self);
            lemma_discard_wf(self@, id@);
        }
        let key = String::from_str(id);
        match position(&self.completed, &key) {
            None => None,
            Some(_) => {
                let pending = copy(&self.pending);
                let completed = copy_without(&self.completed, &key);
                Some(State { pending, completed })
            },
        }
    }

    /// The film under `id`, pending or completed.
    pub fn lookup(&self, id: &str) -> (r: Option<Film>)
        ensures
            match r {
                Some(film) => self@.lookup(id@) == Some(film@),
                None => self@.lookup(id@) is None,
            },
    {
        let key = String::from_str(id);
        match position(&self.pending, &key) {
            Some(i) => Some(self.pending[i].1.clone()),
            None => match position(&self.completed, &key) {
                Some(i) => Some(self.completed[i].1.clone()),
                None => None,
            },
        }
    }

    /// A description of the film under `id`, pending or completed, in the
    /// formatter's pretty debug form.
    pub fn who(&self, id: &str) -> (r: Option<String>)
        ensures
            match self@.lookup(id@) {
                Some(film) => r matches Some(text) && text@ == debug_text(
                    film.title,
                    film.year,
                    film.url,
                ),
                None => r is None,
            },
    {
        match self.lookup(id) {
            Some(film) => Some(describe(&film)),
            None => None,
        }
    }

    /// The pending items, in the order in which they arrived.
    pub fn pending(&self) -> (items: Vec<(String, Film)>)
        ensures
            listing(items@) == self@.pending,
    {
        copy(&self.pending)
    }

    /// The completed items, in the order in which they arrived.
    pub fn completed(&self) -> (items: Vec<(String, Film)>)
        ensures
            listing(items@) == self@.completed,
    {
        copy(&self.completed)
    }

    /// The pending items as lines of text.
    pub fn ls(&self) -> (text: String)
        ensures
            text@ == lines(self@.pending),
    {
        render(&self.pending)
    }

    /// The completed items as lines of text.
    pub fn la(&self) -> (text: String)
        ensures
            text@ == lines(self@.completed),
    {
        render(&self.completed)
    }

    /// The pending item that the number `r` selects.
    pub fn pick(&self, r: u64) -> (picked: Option<(String, Film)>)
        ensures
            match picked {
                Some(item) => self@.pick(r) == Some((item.0@, item.1@)),
                None => self@.pick(r) is None,
            },
    {
        let n: usize = self.pending.len();
        if n == 0 {
            None
        } else {
            let i: usize = (r % (n as u64)) as usize;
            Some((self.pending[i].0.clone(), self.pending[i].1.clone()))
        }
    }

    /// A pending item chosen by fresh entropy: each call may choose another.
    /// Nothing comes back exactly when nothing is pending, and what comes
    /// back is a film as it is pending.
    pub fn rnd(&self) -> (picked: Option<(String, Film)>)
        ensures
            picked is None <==> self@.pending.len() == 0,
            picked matches Some(item) ==> {
                &&& exists|r: u64| self@.pick(r) == Some((item.0@, item.1@))
                &&& find(self@.pending, item.0@) == Some(item.1@)
            },
    {
        let r = entropy();
        proof {
            use_type_invariant(self);
            lemma_pick_is_pending(self@, r);
        }
        self.pick(r)
    }
}

impl Clone for State {
    fn clone(&self) -> (r: Self)
        ensures
            r@ == self@,
    {
        proof {
            use_type_invariant(self);
        }
        State { pending: copy(&self.pending), completed: copy(&self.completed) }
    }
}

impl Default for State {
    fn default() -> (state: State)
        ensures
            state@ == StateView::empty(),
            state@.wf(),
    {
        State::new()
    }
}

} // verus!
