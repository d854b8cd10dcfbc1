//! What holds of the watch list whatever is done with it.

use vstd::prelude::*;
use crate::command::{step, Action, CommandView, OutcomeView, Place};
use crate::decimal::decimal_u32;
use crate::fields::{fields, joined, lemma_fields_join, separator};
use crate::film::{lemma_parsed_valid, parsed, FilmView};
use crate::fingerprint::fingerprint;
use crate::listing::{
    apart,
    distinct,
    find,
    holds,
    ids,
    lemma_as_map,
    lemma_distinct_push,
    lemma_find,
    lemma_find_append,
    lemma_find_item,
    lemma_find_push,
    lemma_find_without,
    lemma_holds_longer,
    lemma_without_absent,
    lemma_without_keeps,
    without,
    Listing,
};
use crate::state::StateView;

verus! {

/// Films with the same content have the same identifier.
pub proof fn lemma_fingerprint_deterministic(a: FilmView, b: FilmView)
    requires
        a.title == b.title,
        a.year == b.year,
        a.url == b.url,
    ensures
        fingerprint(a) == fingerprint(b),
{
}

/// Whatever payload is accepted reads `title,,,year,,,url`, where the year is
/// a number in range and the address is secure; the film holds the title and
/// the address as they stand and the year as that number.
pub proof fn lemma_parsed_shape(payload: Seq<char>)
    ensures
        parsed(payload) matches Ok(film) ==> {
            let year_raw = fields(payload)[1];
            &&& payload == film.title + separator() + year_raw + separator() + film.url
            &&& decimal_u32(year_raw) == Some(film.year)
            &&& film.valid()
        },
{
    if let Ok(film) = parsed(payload) {
        let parts = fields(payload);
        lemma_fields_join(payload);
        let tail = parts.subrange(1, 3);
        assert(tail.subrange(1, 2) =~= seq![parts[2]]);
        assert(joined(tail.subrange(1, 2)) == parts[2]);
        assert(joined(tail) == parts[1] + separator() + parts[2]);
        assert(parts[0] + separator() + (parts[1] + separator() + parts[2]) =~= parts[0]
            + separator() + parts[1] + separator() + parts[2]);
    }
}

/// The state that holds nothing is well formed.
pub proof fn lemma_empty_wf()
    ensures
        StateView::empty().wf(),
{
}

/// Filing a valid film keeps a state well formed; in particular the two
/// listings still share no identifier.
pub proof fn lemma_insert_wf(s: StateView, id: Seq<char>, film: FilmView)
    requires
        s.wf(),
        film.valid(),
    ensures
        s.insert(id, film).wf(),
{
    let t = s.insert(id, film);
    let kept = without(s.pending, id);
    lemma_without_keeps(s.pending, id);
    lemma_without_keeps(s.completed, id);
    lemma_find_without(s.pending, id, id);
    lemma_distinct_push(kept, (id, film));
    assert forall|k: Seq<char>| !(#[trigger] holds(t.pending, k) && holds(t.completed, k)) by {
        lemma_find_push(kept, (id, film), k);
        lemma_find_without(s.pending, id, k);
        lemma_find_without(s.completed, id, k);
        if k != id {
            assert(!(holds(s.pending, k) && holds(s.completed, k)));
        }
    }
    assert forall|i: int| 0 <= i < t.pending.len() implies (#[trigger] t.pending[i]).1.valid() by {
        if i < kept.len() {
            assert(kept[i].1.valid());
        }
    }
}

/// Promoting a film keeps a state well formed.
pub proof fn lemma_promote_wf(s: StateView, id: Seq<char>)
    requires
        s.wf(),
    ensures
        s.promote(id) matches Some(t) ==> t.wf(),
{
    if let Some(t) = s.promote(id) {
        let film = find(s.pending, id)->0;
        let kept = without(s.completed, id);
        lemma_without_keeps(s.pending, id);
        lemma_without_keeps(s.completed, id);
        lemma_find_without(s.completed, id, id);
        lemma_distinct_push(kept, (id, film));
        lemma_find(s.pending, id);
        assert forall|k: Seq<char>| !(#[trigger] holds(t.pending, k) && holds(t.completed, k)) by {
            lemma_find_push(kept, (id, film), k);
            lemma_find_without(s.pending, id, k);
            lemma_find_without(s.completed, id, k);
            if k != id {
                assert(!(holds(s.pending, k) && holds(s.completed, k)));
            }
        }
        let i = choose|i: int| 0 <= i < s.pending.len() && #[trigger] s.pending[i] == (id, film);
        assert(s.pending[i].1.valid());
        assert forall|j: int| 0 <= j < t.completed.len() implies (
        #[trigger] t.completed[j]).1.valid() by {
            if j < kept.len() {
                assert(kept[j].1.valid());
            }
        }
    }
}

/// Removing a film keeps a state well formed.
pub proof fn lemma_discard_wf(s: StateView, id: Seq<char>)
    requires
        s.wf(),
    ensures
        s.discard(id) matches Some(t) ==> t.wf(),
{
    if let Some(t) = s.discard(id) {
        lemma_without_keeps(s.completed, id);
        assert forall|k: Seq<char>| !(#[trigger] holds(t.pending, k) && holds(t.completed, k)) by {
            lemma_find_without(s.completed, id, k);
            assert(!(holds(s.pending, k) && holds(s.completed, k)));
        }
    }
}

/// In a well-formed state no identifier is both pending and completed: the
/// two sets of identifiers have nothing in common.
pub proof fn lemma_disjoint(s: StateView)
    requires
        s.wf(),
    ensures
        ids(s.pending).disjoint(ids(s.completed)),
        s.pending_map().dom().disjoint(s.completed_map().dom()),
{
    assert forall|id: Seq<char>|
        !(ids(s.pending).contains(id) && ids(s.completed).contains(id)) by {
        assert(!(holds(s.pending, id) && holds(s.completed, id)));
    }
    assert(s.pending_map().dom() =~= ids(s.pending));
    assert(s.completed_map().dom() =~= ids(s.completed));
}

/// As maps, filing is an insertion among the pending films and a removal
/// among the completed ones.
pub proof fn lemma_insert_maps(s: StateView, id: Seq<char>, film: FilmView)
    ensures
        s.insert(id, film).pending_map() == s.pending_map().insert(id, film),
        s.insert(id, film).completed_map() == s.completed_map().remove(id),
{
    lemma_as_map(s.pending, id, film);
    lemma_as_map(s.completed, id, film);
}

/// As maps, a promotion is a removal among the pending films and an
/// insertion of the same film among the completed ones.
pub proof fn lemma_promote_maps(s: StateView, id: Seq<char>)
    ensures
        s.promote(id) is Some <==> s.pending_map().contains_key(id),
        s.promote(id) matches Some(t) ==> {
            &&& t.pending_map() == s.pending_map().remove(id)
            &&& t.completed_map() == s.completed_map().insert(id, s.pending_map()[id])
        },
{
    if let Some(t) = s.promote(id) {
        let film = find(s.pending, id)->0;
        lemma_as_map(s.pending, id, film);
        lemma_as_map(s.completed, id, film);
    }
}

/// As maps, a removal takes the identifier out of the completed films and
/// leaves the pending ones alone.
pub proof fn lemma_discard_maps(s: StateView, id: Seq<char>)
    ensures
        s.discard(id) is Some <==> s.completed_map().contains_key(id),
        s.discard(id) matches Some(t) ==> {
            &&& t.pending_map() == s.pending_map()
            &&& t.completed_map() == s.completed_map().remove(id)
        },
{
    if let Some(t) = s.discard(id) {
        let film = find(s.completed, id)->0;
        lemma_as_map(s.completed, id, film);
    }
}

/// Looking a film up is looking into the pending map and then into the
/// completed one.
pub proof fn lemma_lookup_maps(s: StateView, id: Seq<char>)
    ensures
        s.lookup(id) == if s.pending_map().contains_key(id) {
            Some(s.pending_map()[id])
        } else if s.completed_map().contains_key(id) {
            Some(s.completed_map()[id])
        } else {
            None
        },
{
}

/// A film that was just filed is found under the identifier it was filed
/// under, whatever the state held before.
pub proof fn lemma_insert_lookup(s: StateView, id: Seq<char>, film: FilmView)
    ensures
        s.insert(id, film).lookup(id) == Some(film),
        holds(s.insert(id, film).pending, id),
        !holds(s.insert(id, film).completed, id),
{
    lemma_find_push(without(s.pending, id), (id, film), id);
    lemma_find_without(s.completed, id, id);
}

/// A film filed under its fingerprint is found under its fingerprint.
pub proof fn lemma_add_lookup(s: StateView, film: FilmView)
    ensures
        s.insert(fingerprint(film), film).lookup(fingerprint(film)) == Some(film),
{
    lemma_insert_lookup(s, fingerprint(film), film);
}

/// Filing a film changes nothing under any other identifier.
pub proof fn lemma_insert_frame(s: StateView, id: Seq<char>, film: FilmView, other: Seq<char>)
    requires
        other != id,
    ensures
        find(s.insert(id, film).pending, other) == find(s.pending, other),
        find(s.insert(id, film).completed, other) == find(s.completed, other),
{
    lemma_find_push(without(s.pending, id), (id, film), other);
    lemma_find_without(s.pending, id, other);
    lemma_find_without(s.completed, id, other);
}

/// A promotion succeeds exactly when the identifier is pending. After it the
/// identifier is no longer pending, it is completed, and the film under it is
/// the one that was pending.
pub proof fn lemma_promote_moves(s: StateView, id: Seq<char>)
    ensures
        s.promote(id) is Some <==> holds(s.pending, id),
        s.promote(id) matches Some(t) ==> {
            &&& !holds(t.pending, id)
            &&& find(t.completed, id) == find(s.pending, id)
            &&& t.lookup(id) == s.lookup(id)
        },
{
    if let Some(t) = s.promote(id) {
        let film = find(s.pending, id)->0;
        lemma_find_without(s.pending, id, id);
        lemma_find_push(without(s.completed, id), (id, film), id);
    }
}

/// A promotion changes nothing under any other identifier.
pub proof fn lemma_promote_frame(s: StateView, id: Seq<char>, other: Seq<char>)
    requires
        other != id,
    ensures
        s.promote(id) matches Some(t) ==> {
            &&& find(t.pending, other) == find(s.pending, other)
            &&& find(t.completed, other) == find(s.completed, other)
        },
{
    if let Some(t) = s.promote(id) {
        let film = find(s.pending, id)->0;
        lemma_find_without(s.pending, id, other);
        lemma_find_without(s.completed, id, other);
        lemma_find_push(without(s.completed, id), (id, film), other);
    }
}

/// A removal succeeds exactly when the identifier is completed. It takes that
/// identifier out of the completed films and leaves the pending films as they
/// were.
pub proof fn lemma_discard_removes(s: StateView, id: Seq<char>)
    ensures
        s.discard(id) is Some <==> holds(s.completed, id),
        s.discard(id) matches Some(t) ==> {
            &&& !holds(t.completed, id)
            &&& t.pending == s.pending
        },
{
    lemma_find_without(s.completed, id, id);
}

/// A removal changes nothing under any other identifier.
pub proof fn lemma_discard_frame(s: StateView, id: Seq<char>, other: Seq<char>)
    requires
        other != id,
    ensures
        s.discard(id) matches Some(t) ==> find(t.completed, other) == find(s.completed, other),
{
    lemma_find_without(s.completed, id, other);
}

/// Removal never touches a pending film: on an identifier that is pending
/// and not completed it fails.
pub proof fn lemma_discard_pending_fails(s: StateView, id: Seq<char>)
    requires
        holds(s.pending, id),
        !holds(s.completed, id),
    ensures
        s.discard(id) is None,
{
}

/// In a well-formed state, removal fails on every pending identifier.
pub proof fn lemma_discard_spares_pending(s: StateView, id: Seq<char>)
    requires
        s.wf(),
        holds(s.pending, id),
    ensures
        s.discard(id) is None,
{
    assert(!(holds(s.pending, id) && holds(s.completed, id)));
}

/// After a film is filed, promoted and removed, its identifier is gone, and a
/// further promotion fails.
pub proof fn lemma_life_cycle(s: StateView, id: Seq<char>, film: FilmView)
    ensures
        ({
            let filed = s.insert(id, film);
            &&& filed.promote(id) matches Some(promoted)
            &&& promoted.discard(id) matches Some(removed)
            &&& removed.lookup(id) is None
            &&& removed.promote(id) is None
        }),
{
    let filed = s.insert(id, film);
    lemma_insert_lookup(s, id, film);
    lemma_promote_moves(filed, id);
    let promoted = filed.promote(id)->0;
    lemma_discard_removes(promoted, id);
}

/// Whatever number is handed in, the film that is picked is pending.
pub proof fn lemma_pick_is_pending(s: StateView, r: u64)
    requires
        s.wf(),
    ensures
        s.pick(r) is Some <==> s.pending.len() > 0,
        s.pick(r) matches Some(item) ==> find(s.pending, item.0) == Some(item.1),
{
    if s.pending.len() > 0 {
        lemma_find_item(s.pending, r as int % s.pending.len() as int);
    }
}

/// Every pending film is picked by some number: by its position, and by
/// every number that leaves its position as remainder.
pub proof fn lemma_pick_reaches(s: StateView, i: int, r: u64)
    requires
        0 <= i < s.pending.len(),
        r as int % s.pending.len() as int == i,
    ensures
        s.pick(r) == Some(s.pending[i]),
        i <= u64::MAX ==> s.pick(i as u64) == Some(s.pending[i]),
{
    if i <= u64::MAX {
        assert(i % s.pending.len() as int == i) by (nonlinear_arith)
            requires
                0 <= i < s.pending.len(),
        ;
    }
}

/// Filing the items of a listing without repeated identifiers, none of them
/// completed, appends the listing to the pending films and leaves the
/// completed ones alone.
pub proof fn lemma_file_all(s: StateView, items: Listing)
    requires
        distinct(items),
        apart(items, s.pending),
        apart(items, s.completed),
    ensures
        s.file_all(items) == (StateView {
            pending: s.pending + items,
            completed: s.completed,
        }),
    decreases items.len(),
{
    if items.len() == 0 {
        assert(s.pending + items =~= s.pending);
    } else {
        let rest = items.drop_last();
        let last = items.last();
        assert(rest.push(last) =~= items);
        lemma_distinct_push(rest, last);
        assert forall|k: Seq<char>| !(#[trigger] holds(rest, k) && holds(s.pending, k)) by {
            if holds(rest, k) {
                lemma_holds_longer(items, k);
            }
        }
        assert forall|k: Seq<char>| !(#[trigger] holds(rest, k) && holds(s.completed, k)) by {
            if holds(rest, k) {
                lemma_holds_longer(items, k);
            }
        }
        lemma_file_all(s, rest);
        assert(holds(items, last.0));
        lemma_find_append(s.pending, rest, last.0);
        lemma_without_absent(s.pending + rest, last.0);
        lemma_without_absent(s.completed, last.0);
        assert((s.pending + rest).push(last) =~= s.pending + items);
    }
}

/// Filing and promoting the items of a listing without repeated identifiers,
/// none of them pending or completed before, appends the listing to the
/// completed films and leaves the pending ones alone.
pub proof fn lemma_complete_all(s: StateView, items: Listing)
    requires
        distinct(items),
        apart(items, s.pending),
        apart(items, s.completed),
    ensures
        s.complete_all(items) == (StateView {
            pending: s.pending,
            completed: s.completed + items,
        }),
    decreases items.len(),
{
    if items.len() == 0 {
        assert(s.completed + items =~= s.completed);
    } else {
        let rest = items.drop_last();
        let last = items.last();
        assert(rest.push(last) =~= items);
        lemma_distinct_push(rest, last);
        assert forall|k: Seq<char>| !(#[trigger] holds(rest, k) && holds(s.pending, k)) by {
            if holds(rest, k) {
                lemma_holds_longer(items, k);
            }
        }
        assert forall|k: Seq<char>| !(#[trigger] holds(rest, k) && holds(s.completed, k)) by {
            if holds(rest, k) {
                lemma_holds_longer(items, k);
            }
        }
        lemma_complete_all(s, rest);
        let before = s.complete_all(rest);
        assert(holds(items, last.0));
        lemma_find_append(s.completed, rest, last.0);
        lemma_without_absent(s.pending, last.0);
        lemma_without_absent(s.completed + rest, last.0);
        let filed = before.insert(last.0, last.1);
        lemma_find_push(s.pending, last, last.0);
        assert(without(filed.pending, last.0) == s.pending) by {
            assert(filed.pending.drop_last() =~= s.pending);
        }
        assert((s.completed + rest).push(last) =~= s.completed + items);
    }
}

/// A well-formed state is rebuilt from its two listings as it was.
pub proof fn lemma_restore_round_trip(s: StateView)
    requires
        s.wf(),
    ensures
        StateView::restored(s.pending, s.completed) == s,
{
    let e = StateView::empty();
    lemma_complete_all(e, s.completed);
    assert(e.completed + s.completed =~= s.completed);
    let base = e.complete_all(s.completed);
    lemma_file_all(base, s.pending);
    assert(base.pending + s.pending =~= s.pending);
}

/// Every command keeps a state well formed: from the empty state no sequence
/// of commands reaches a state in which an identifier is both pending and
/// completed.
pub proof fn lemma_step_wf(s: StateView, c: CommandView, r: u64)
    requires
        s.wf(),
    ensures
        step(s, c, r).0.wf(),
{
    match c {
        CommandView::Add(payload) => {
            if let Ok(film) = parsed(payload) {
                lemma_parsed_valid(payload);
                lemma_insert_wf(s, fingerprint(film), film);
            }
        },
        CommandView::Mv(id) => {
            lemma_promote_wf(s, id);
        },
        CommandView::Rm(id) => {
            lemma_discard_wf(s, id);
        },
        _ => {},
    }
}

/// The state that a run of commands leads to from `s`, each command with the
/// number that decides what it picks.
pub open spec fn run(s: StateView, commands: Seq<(CommandView, u64)>) -> StateView
    decreases commands.len(),
{
    if commands.len() == 0 {
        s
    } else {
        step(run(s, commands.drop_last()), commands.last().0, commands.last().1).0
    }
}

/// Every state that commands can reach from the empty state is well formed,
/// so that in none of them an identifier is both pending and completed.
pub proof fn lemma_reachable_wf(commands: Seq<(CommandView, u64)>)
    ensures
        run(StateView::empty(), commands).wf(),
        ids(run(StateView::empty(), commands).pending).disjoint(
            ids(run(StateView::empty(), commands).completed),
        ),
    decreases commands.len(),
{
    if commands.len() > 0 {
        lemma_reachable_wf(commands.drop_last());
        lemma_step_wf(
            run(StateView::empty(), commands.drop_last()),
            commands.last().0,
            commands.last().1,
        );
    }
    lemma_disjoint(run(StateView::empty(), commands));
}

/// Each command ends in one of the ways that are its own.
pub proof fn lemma_step_outcomes(s: StateView, c: CommandView, r: u64)
    ensures
        ({
            let outcome = step(s, c, r).1;
            match c {
                CommandView::Add(_) => {
                    ||| outcome is Added
                    ||| outcome is Rejected
                    ||| outcome == OutcomeView::Usage(Action::Add)
                },
                CommandView::Mv(_) => {
                    ||| outcome is Moved
                    ||| outcome == OutcomeView::NotFound(Place::Pending)
                    ||| outcome == OutcomeView::Usage(Action::Move)
                },
                CommandView::Rnd => outcome is Picked || outcome is Empty,
                CommandView::Rm(_) => {
                    ||| outcome is Removed
                    ||| outcome == OutcomeView::NotFound(Place::Completed)
                    ||| outcome == OutcomeView::Usage(Action::Remove)
                },
                CommandView::Ls => outcome is Pending,
                CommandView::La => outcome is Completed,
                CommandView::Who(_) => {
                    ||| outcome is Info
                    ||| outcome == OutcomeView::NotFound(Place::Anywhere)
                    ||| outcome == OutcomeView::Usage(Action::Info)
                },
                CommandView::Help => outcome is Help,
            }
        }),
{
}

/// Only `Rnd` depends on the number that is handed in.
pub proof fn lemma_step_ignores_chance(s: StateView, c: CommandView, r1: u64, r2: u64)
    requires
        !(c is Rnd),
    ensures
        step(s, c, r1) == step(s, c, r2),
{
}

/// Only a film that was filed, promoted or removed changes the state: every
/// other outcome leaves it as it was.
pub proof fn lemma_step_unchanged(s: StateView, c: CommandView, r: u64)
    ensures
        ({
            let (next, outcome) = step(s, c, r);
            !outcome.changes_state() ==> next == s
        }),
{
}

/// Removing an identifier that is pending and not completed ends in
/// `NotFound` and leaves the state as it was.
pub proof fn lemma_remove_pending(s: StateView, id: Seq<char>, r: u64)
    requires
        holds(s.pending, id),
        !holds(s.completed, id),
        id.len() > 0,
    ensures
        step(s, CommandView::Rm(id), r) == (s, OutcomeView::NotFound(Place::Completed)),
{
}

} // verus!
