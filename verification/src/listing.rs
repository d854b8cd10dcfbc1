//! Listings: identifiers with the films filed under them, in the order of
//! filing. A listing in which no identifier occurs twice is a finite map that
//! also remembers an order.

use vstd::prelude::*;
use vstd::string::*;
use crate::film::{Film, FilmView};

verus! {

/// An identifier and the film filed under it.
pub type Item = (Seq<char>, FilmView);

/// Items in the order in which they were filed.
pub type Listing = Seq<Item>;

/// The film that `l` holds under `id`, looking at the latest item first.
pub open spec fn find(l: Listing, id: Seq<char>) -> Option<FilmView>
    decreases l.len(),
{
    if l.len() == 0 {
        None
    } else if l.last().0 == id {
        Some(l.last().1)
    } else {
        find(l.drop_last(), id)
    }
}

/// Whether `l` holds an item under `id`.
pub open spec fn holds(l: Listing, id: Seq<char>) -> bool {
    find(l, id) is Some
}

/// The items of `l` that are not filed under `id`, in their order.
pub open spec fn without(l: Listing, id: Seq<char>) -> Listing
    decreases l.len(),
{
    if l.len() == 0 {
        l
    } else if l.last().0 == id {
        without(l.drop_last(), id)
    } else {
        without(l.drop_last(), id).push(l.last())
    }
}

/// The identifiers under which `l` holds an item.
pub open spec fn ids(l: Listing) -> Set<Seq<char>> {
    Set::new(|id: Seq<char>| holds(l, id))
}

/// The listing as a map from identifiers to films, its order forgotten.
pub open spec fn as_map(l: Listing) -> Map<Seq<char>, FilmView> {
    Map::new(|id: Seq<char>| holds(l, id), |id: Seq<char>| find(l, id)->0)
}

/// Whether no identifier occurs twice in `l`.
pub open spec fn distinct(l: Listing) -> bool {
    forall|i: int, j: int| 0 <= i < j < l.len() ==> (#[trigger] l[i]).0 != (#[trigger] l[j]).0
}

/// Whether no identifier occurs in both `a` and `b`.
pub open spec fn apart(a: Listing, b: Listing) -> bool {
    forall|id: Seq<char>| !(#[trigger] holds(a, id) && holds(b, id))
}

/// Whether every film in `l` is valid.
pub open spec fn all_valid(l: Listing) -> bool {
    forall|i: int| 0 <= i < l.len() ==> (#[trigger] l[i]).1.valid()
}

/// What a vector of filed films holds, as plain values.
pub open spec fn listing(items: Seq<(String, Film)>) -> Listing {
    items.map_values(|item: (String, Film)| (item.0@, item.1@))
}

/// `find` returns an item of the listing, and nothing only where no item
/// carries the identifier.
pub proof fn lemma_find(l: Listing, id: Seq<char>)
    ensures
        match find(l, id) {
            Some(film) => exists|i: int| 0 <= i < l.len() && #[trigger] l[i] == (id, film),
            None => forall|i: int| 0 <= i < l.len() ==> (#[trigger] l[i]).0 != id,
        },
    decreases l.len(),
{
    if l.len() > 0 {
        if l.last().0 == id {
            assert(l[l.len() - 1] == (id, l.last().1));
        } else {
            lemma_find(l.drop_last(), id);
            match find(l.drop_last(), id) {
                Some(film) => {
                    let i = choose|i: int|
                        0 <= i < l.drop_last().len() && #[trigger] l.drop_last()[i] == (id, film);
                    assert(l[i] == (id, film));
                },
                None => {
                    assert forall|i: int| 0 <= i < l.len() implies (#[trigger] l[i]).0 != id by {
                        if i < l.len() - 1 {
                            assert(l.drop_last()[i] == l[i]);
                        }
                    }
                },
            }
        }
    }
}

/// In a listing without repeated identifiers, each item is found under its
/// own identifier.
pub proof fn lemma_find_item(l: Listing, i: int)
    requires
        distinct(l),
        0 <= i < l.len(),
    ensures
        find(l, l[i].0) == Some(l[i].1),
    decreases l.len(),
{
    if i < l.len() - 1 {
        assert(l[i].0 != l[l.len() - 1].0);
        assert(distinct(l.drop_last())) by {
            assert forall|a: int, b: int| 0 <= a < b < l.drop_last().len() implies (
            #[trigger] l.drop_last()[a]).0 != (#[trigger] l.drop_last()[b]).0 by {
                assert(l[a].0 != l[b].0);
            }
        }
        assert(l.drop_last()[i] == l[i]);
        lemma_find_item(l.drop_last(), i);
    }
}

/// A listing extended by one item has no repeated identifier exactly when the
/// listing had none and did not hold the new identifier.
pub proof fn lemma_distinct_push(l: Listing, item: Item)
    ensures
        distinct(l.push(item)) <==> distinct(l) && !holds(l, item.0),
{
    let longer = l.push(item);
    lemma_find(l, item.0);
    if distinct(l) && !holds(l, item.0) {
        assert forall|i: int, j: int| 0 <= i < j < longer.len() implies (#[trigger] longer[i]).0 != (
        #[trigger] longer[j]).0 by {
            if j < l.len() {
                assert(l[i].0 != l[j].0);
            } else {
                assert(l[i].0 != item.0);
            }
        }
    }
    if distinct(longer) {
        assert forall|i: int, j: int| 0 <= i < j < l.len() implies (#[trigger] l[i]).0 != (
        #[trigger] l[j]).0 by {
            assert(longer[i].0 != longer[j].0);
        }
        if holds(l, item.0) {
            let film = find(l, item.0)->0;
            let i = choose|i: int| 0 <= i < l.len() && #[trigger] l[i] == (item.0, film);
            assert(longer[i].0 != longer[l.len() as int].0);
        }
    }
}

/// What a listing holds once an item is appended: the new film under the new
/// identifier, and under every other identifier what it held before.
pub proof fn lemma_find_push(l: Listing, item: Item, id: Seq<char>)
    ensures
        find(l.push(item), id) == if id == item.0 {
            Some(item.1)
        } else {
            find(l, id)
        },
{
    assert(l.push(item).drop_last() =~= l);
}

/// What a listing holds once an identifier is struck out: nothing under that
/// identifier, and under every other identifier what it held before.
pub proof fn lemma_find_without(l: Listing, gone: Seq<char>, id: Seq<char>)
    ensures
        find(without(l, gone), id) == if id == gone {
            None
        } else {
            find(l, id)
        },
    decreases l.len(),
{
    if l.len() > 0 {
        lemma_find_without(l.drop_last(), gone, id);
        if l.last().0 != gone {
            lemma_find_push(without(l.drop_last(), gone), l.last(), id);
        }
    }
}

/// Striking an identifier out of a listing that does not hold it changes
/// nothing.
pub proof fn lemma_without_absent(l: Listing, gone: Seq<char>)
    requires
        !holds(l, gone),
    ensures
        without(l, gone) == l,
    decreases l.len(),
{
    if l.len() > 0 {
        lemma_without_absent(l.drop_last(), gone);
        assert(l.drop_last().push(l.last()) =~= l);
    }
}

/// Striking an identifier out keeps a listing free of repeated identifiers,
/// keeps its films valid, and removes exactly one item where the identifier
/// was held.
pub proof fn lemma_without_keeps(l: Listing, gone: Seq<char>)
    ensures
        distinct(l) ==> distinct(without(l, gone)),
        all_valid(l) ==> all_valid(without(l, gone)),
        without(l, gone).len() <= l.len(),
        distinct(l) && holds(l, gone) ==> without(l, gone).len() == l.len() - 1,
    decreases l.len(),
{
    if l.len() > 0 {
        let rest = l.drop_last();
        let kept = without(rest, gone);
        lemma_without_keeps(rest, gone);
        assert(rest.push(l.last()) =~= l);
        lemma_distinct_push(rest, l.last());
        if all_valid(l) {
            assert forall|i: int| 0 <= i < rest.len() implies (#[trigger] rest[i]).1.valid() by {
                assert(l[i].1.valid());
            }
            assert(l[l.len() - 1].1.valid());
        }
        if l.last().0 == gone {
            if distinct(l) {
                lemma_without_absent(rest, gone);
            }
        } else {
            lemma_find_without(rest, gone, l.last().0);
            lemma_distinct_push(kept, l.last());
            if all_valid(l) {
                assert forall|i: int| 0 <= i < kept.push(l.last()).len() implies (
                #[trigger] kept.push(l.last())[i]).1.valid() by {
                    if i < kept.len() {
                        assert(kept[i].1.valid());
                    }
                }
            }
        }
    }
}

/// As maps, appending an item is an insertion and striking an identifier out
/// is a removal.
pub proof fn lemma_as_map(l: Listing, id: Seq<char>, film: FilmView)
    ensures
        as_map(l.push((id, film))) == as_map(l).insert(id, film),
        as_map(without(l, id)) == as_map(l).remove(id),
        as_map(without(l, id).push((id, film))) == as_map(l).insert(id, film),
        as_map(l).dom() == ids(l),
{
    let pushed = l.push((id, film));
    let struck = without(l, id);
    let replaced = without(l, id).push((id, film));
    assert forall|k: Seq<char>| #[trigger] find(pushed, k) == (if k == id {
        Some(film)
    } else {
        find(l, k)
    }) by {
        lemma_find_push(l, (id, film), k);
    }
    assert forall|k: Seq<char>| #[trigger] find(struck, k) == (if k == id {
        None
    } else {
        find(l, k)
    }) by {
        lemma_find_without(l, id, k);
    }
    assert forall|k: Seq<char>| #[trigger] find(replaced, k) == (if k == id {
        Some(film)
    } else {
        find(l, k)
    }) by {
        lemma_find_without(l, id, k);
        lemma_find_push(struck, (id, film), k);
    }
    assert(as_map(l.push((id, film))) =~= as_map(l).insert(id, film));
    assert(as_map(without(l, id)) =~= as_map(l).remove(id));
    assert(as_map(without(l, id).push((id, film))) =~= as_map(l).insert(id, film));
    assert(as_map(l).dom() =~= ids(l));
}

/// What two listings put together hold under an identifier: what the second
/// holds, and otherwise what the first holds.
pub proof fn lemma_find_append(a: Listing, b: Listing, id: Seq<char>)
    ensures
        find(a + b, id) == match find(b, id) {
            Some(film) => Some(film),
            None => find(a, id),
        },
    decreases b.len(),
{
    if b.len() == 0 {
        assert(a + b =~= a);
    } else {
        assert((a + b).drop_last() =~= a + b.drop_last());
        assert((a + b).last() == b.last());
        lemma_find_append(a, b.drop_last(), id);
    }
}

/// What all but the last item hold, the whole listing holds too.
pub proof fn lemma_holds_longer(l: Listing, id: Seq<char>)
    requires
        l.len() > 0,
        holds(l.drop_last(), id),
    ensures
        holds(l, id),
{
}

/// A copy of `items`.
pub fn copy(items: &Vec<(String, Film)>) -> (out: Vec<(String, Film)>)
    ensures
        listing(out@) == listing(items@),
{
    let mut out: Vec<(String, Film)> = Vec::new();
    let n: usize = items.len();
    let mut i: usize = 0;
    while i < n
        invariant
            i <= n,
            n == items@.len(),
            out@.len() == i,
            listing(out@) == listing(items@).subrange(0, i as int),
        decreases n - i,
    {
        let item = (items[i].0.clone(), items[i].1.clone());
        out.push(item);
        i = i + 1;
    }
    out
}

/// A copy of `items` that leaves out what is filed under `id`.
pub fn copy_without(items: &Vec<(String, Film)>, id: &String) -> (out: Vec<(String, Film)>)
    ensures
        listing(out@) == without(listing(items@), id@),
{
    let mut out: Vec<(String, Film)> = Vec::new();
    let n: usize = items.len();
    let mut i: usize = 0;
    while i < n
        invariant
            i <= n,
            n == items@.len(),
            listing(out@) == without(listing(items@).subrange(0, i as int), id@),
        decreases n - i,
    {
        proof {
            let upto = listing(items@).subrange(0, i + 1);
            assert(upto.drop_last() =~= listing(items@).subrange(0, i as int));
        }
        if items[i].0 != *id {
            let item = (items[i].0.clone(), items[i].1.clone());
            out.push(item);
        }
        i = i + 1;
    }
    proof {
        assert(listing(items@).subrange(0, n as int) =~= listing(items@));
    }
    out
}

/// The position of the latest item filed under `id`, if there is one.
pub fn position(items: &Vec<(String, Film)>, id: &String) -> (at: Option<usize>)
    ensures
        match at {
            Some(i) => i < items@.len() && items@[i as int].0@ == id@ && find(
                listing(items@),
                id@,
            ) == Some(items@[i as int].1@),
            None => find(listing(items@), id@) is None,
        },
{
    let mut i: usize = items.len();
    proof {
        assert(listing(items@).subrange(0, i as int) =~= listing(items@));
    }
    while i > 0
        invariant
            i <= items@.len(),
            find(listing(items@), id@) == find(listing(items@).subrange(0, i as int), id@),
        decreases i,
    {
        i = i - 1;
        proof {
            let upto = listing(items@).subrange(0, i + 1);
            assert(upto.drop_last() =~= listing(items@).subrange(0, i as int));
        }
        if items[i].0 == *id {
            return Some(i);
        }
    }
    None
}

} // verus!
