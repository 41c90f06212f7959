//! The abstract table of persons that every repository keeps, and the laws
//! of its operations.

use vstd::prelude::*;
use crate::person::{PersonView, PersonNoIdView};

verus! {

/// Some stored person carries `id`.
pub open spec fn has_id(s: Seq<PersonView>, id: i32) -> bool {
    exists|i: int| 0 <= i < s.len() && #[trigger] s[i].id == id
}

/// No two stored persons share an identifier.
pub open spec fn ids_unique(s: Seq<PersonView>) -> bool {
    forall|i: int, j: int| 0 <= i < s.len() && 0 <= j < s.len() && i != j ==> #[trigger] s[i].id != #[trigger] s[j].id
}

/// The position of the first person with `id`, or -1 where there is none.
pub open spec fn index_of_id(s: Seq<PersonView>, id: i32) -> int
    decreases s.len(),
{
    if s.len() == 0 {
        -1
    } else {
        let k = index_of_id(s.drop_last(), id);
        if k >= 0 {
            k
        } else if s.last().id == id {
            s.len() - 1
        } else {
            -1
        }
    }
}

/// The first person with `id`, if any.
pub open spec fn lookup(s: Seq<PersonView>, id: i32) -> Option<PersonView> {
    let k = index_of_id(s, id);
    if k >= 0 {
        Some(s[k])
    } else {
        None
    }
}

/// The greatest identifier of a non-empty table.
pub open spec fn max_id(s: Seq<PersonView>) -> i32
    decreases s.len(),
{
    if s.len() <= 1 {
        s[0].id
    } else {
        let m = max_id(s.drop_last());
        if m < s.last().id {
            s.last().id
        } else {
            m
        }
    }
}

/// The identifier that the next created person gets: one more than the
/// greatest, or 1 in an empty table.
pub open spec fn next_id(s: Seq<PersonView>) -> int {
    if s.len() == 0 {
        1
    } else {
        max_id(s) + 1
    }
}

/// The next identifier fits in an `i32`.
pub open spec fn next_id_fits(s: Seq<PersonView>) -> bool {
    next_id(s) <= i32::MAX
}

/// The table without any person that carries `id`, in the same order.
pub open spec fn without_id(s: Seq<PersonView>, id: i32) -> Seq<PersonView> {
    s.filter(|p: PersonView| p.id != id)
}

/// The table after `person` replaced the first stored person with its id.
pub open spec fn replaced(s: Seq<PersonView>, person: PersonView) -> Seq<PersonView> {
    s.update(index_of_id(s, person.id), person)
}

/// What `index_of_id` finds: `-1` exactly when no person carries `id`,
/// otherwise the first position that does.
pub proof fn lemma_index_of_id(s: Seq<PersonView>, id: i32)
    ensures
        -1 <= index_of_id(s, id) < s.len(),
        index_of_id(s, id) == -1 <==> !has_id(s, id),
        index_of_id(s, id) >= 0 ==> s[index_of_id(s, id)].id == id,
        forall|j: int| 0 <= j < index_of_id(s, id) ==> #[trigger] s[j].id != id,
        index_of_id(s, id) == -1 ==> forall|j: int| 0 <= j < s.len() ==> #[trigger] s[j].id != id,
    decreases s.len(),
{
    if s.len() > 0 {
        let t = s.drop_last();
        lemma_index_of_id(t, id);
        assert forall|j: int| 0 <= j < t.len() implies #[trigger] t[j] == s[j] by {}
        if has_id(s, id) && index_of_id(s, id) == -1 {
            let i = choose|i: int| 0 <= i < s.len() && #[trigger] s[i].id == id;
            if i < t.len() {
                assert(t[i].id == id);
            }
        }
        if index_of_id(t, id) >= 0 {
            let k = index_of_id(t, id);
            assert(s[k].id == id);
            assert forall|j: int| 0 <= j < index_of_id(s, id) implies #[trigger] s[j].id != id by {
                assert(t[j].id != id);
            }
        } else {
            assert forall|j: int| 0 <= j < t.len() implies #[trigger] s[j].id != id by {
                assert(t[j].id != id);
            }
        }
    }
}

/// Searching a prefix: when the first `k` persons hold no `id` and the
/// person at `k` does, `k` is where `id` is found.
pub proof fn lemma_index_of_id_prefix(s: Seq<PersonView>, id: i32, k: int)
    requires
        0 <= k <= s.len(),
        index_of_id(s.take(k), id) >= 0,
    ensures
        index_of_id(s, id) == index_of_id(s.take(k), id),
    decreases s.len(),
{
    if k < s.len() {
        assert(s.drop_last().take(k) =~= s.take(k));
        lemma_index_of_id_prefix(s.drop_last(), id, k);
    } else {
        assert(s.take(k) =~= s);
    }
}

/// `max_id` is the identifier of some stored person and no smaller than any.
pub proof fn lemma_max_id(s: Seq<PersonView>)
    requires
        s.len() >= 1,
    ensures
        forall|i: int| 0 <= i < s.len() ==> #[trigger] s[i].id <= max_id(s),
        exists|i: int| 0 <= i < s.len() && #[trigger] s[i].id == max_id(s),
    decreases s.len(),
{
    if s.len() > 1 {
        let t = s.drop_last();
        lemma_max_id(t);
        assert forall|i: int| 0 <= i < s.len() implies #[trigger] s[i].id <= max_id(s) by {
            if i < t.len() {
                assert(t[i] == s[i]);
            }
        }
        if max_id(s) == s.last().id {
            assert(s[s.len() - 1].id == max_id(s));
        } else {
            let i = choose|i: int| 0 <= i < t.len() && #[trigger] t[i].id == max_id(t);
            assert(s[i].id == max_id(s));
        }
    } else {
        assert(s[0].id == max_id(s));
    }
}

/// The next identifier is carried by no stored person.
pub proof fn lemma_next_id_is_fresh(s: Seq<PersonView>)
    requires
        next_id_fits(s),
    ensures
        !has_id(s, next_id(s) as i32),
{
    if s.len() > 0 {
        lemma_max_id(s);
    }
}

/// Looking up a person appended with a fresh identifier finds exactly that
/// person; every other identifier finds what it found before.
pub proof fn lemma_lookup_after_push(s: Seq<PersonView>, person: PersonView, id: i32)
    requires
        !has_id(s, person.id),
    ensures
        lookup(s.push(person), person.id) == Some(person),
        id != person.id ==> lookup(s.push(person), id) == lookup(s, id),
{
    let t = s.push(person);
    assert(t.drop_last() =~= s);
    lemma_index_of_id(s, person.id);
    lemma_index_of_id(s, id);
}

/// Reading back a created person: after creating `person` under a fresh
/// `id`, looking `id` up gives that person, and every other identifier
/// gives what it gave before.
pub proof fn law_read_after_create(s: Seq<PersonView>, person: PersonNoIdView, id: i32, other: i32)
    requires
        !has_id(s, id),
    ensures
        lookup(s.push(person.with_id(id)), id) == Some(person.with_id(id)),
        other != id ==> lookup(s.push(person.with_id(id)), other) == lookup(s, other),
{
    lemma_lookup_after_push(s, person.with_id(id), other);
}

/// Creating a person with a fresh identifier keeps identifiers unique.
pub proof fn law_create_keeps_ids_unique(s: Seq<PersonView>, person: PersonView)
    requires
        ids_unique(s),
        !has_id(s, person.id),
    ensures
        ids_unique(s.push(person)),
{
    let t = s.push(person);
    assert forall|i: int, j: int| 0 <= i < t.len() && 0 <= j < t.len() && i != j implies #[trigger] t[i].id != #[trigger] t[j].id by {
        if i < s.len() && j < s.len() {
            assert(s[i].id != s[j].id);
        } else if i < s.len() {
            assert(s[i].id != person.id);
        } else if j < s.len() {
            assert(s[j].id != person.id);
        }
    }
}


/// Deleting `id` leaves no person with it and keeps what every other
/// identifier finds.
pub proof fn law_read_after_delete(s: Seq<PersonView>, id: i32, other: i32)
    ensures
        lookup(without_id(s, id), id) is None,
        other != id ==> lookup(without_id(s, id), other) == lookup(s, other),
    decreases s.len(),
{
    let pred = |p: PersonView| p.id != id;
    if s.len() == 0 {
        reveal(Seq::filter);
    } else {
        let t = s.drop_last();
        law_read_after_delete(t, id, other);
        assert(t.push(s.last()) =~= s);
        t.lemma_filter_push(s.last(), pred);
        let ft = without_id(t, id);
        let fs = without_id(s, id);
        lemma_index_of_id(ft, id);
        lemma_index_of_id(fs, id);
        lemma_index_of_id(ft, other);
        lemma_index_of_id(t, other);
        if pred(s.last()) {
            assert(fs.drop_last() =~= ft);
        } else {
            assert(fs == ft);
        }
    }
}

/// Deleting an identifier that no person carries changes nothing.
pub proof fn law_delete_absent_is_noop(s: Seq<PersonView>, id: i32)
    requires
        !has_id(s, id),
    ensures
        without_id(s, id) == s,
    decreases s.len(),
{
    let pred = |p: PersonView| p.id != id;
    if s.len() == 0 {
        reveal(Seq::filter);
    } else {
        let t = s.drop_last();
        assert(!has_id(t, id)) by {
            if has_id(t, id) {
                let i = choose|i: int| 0 <= i < t.len() && #[trigger] t[i].id == id;
                assert(s[i].id == id);
            }
        }
        law_delete_absent_is_noop(t, id);
        assert(s[s.len() - 1].id != id);
        t.lemma_filter_push(s.last(), pred);
        assert(t.push(s.last()) =~= s);
    }
}

/// Deleting keeps the order of the persons that stay and carries no `id`;
/// deleting twice is deleting once.
pub proof fn law_delete_is_idempotent(s: Seq<PersonView>, id: i32)
    ensures
        !has_id(without_id(s, id), id),
        without_id(without_id(s, id), id) == without_id(s, id),
{
    law_read_after_delete(s, id, id);
    lemma_index_of_id(without_id(s, id), id);
    law_delete_absent_is_noop(without_id(s, id), id);
}

/// Deleting keeps identifiers unique.
pub proof fn law_delete_keeps_ids_unique(s: Seq<PersonView>, id: i32)
    requires
        ids_unique(s),
    ensures
        ids_unique(without_id(s, id)),
    decreases s.len(),
{
    let pred = |p: PersonView| p.id != id;
    if s.len() == 0 {
        reveal(Seq::filter);
    } else {
        let t = s.drop_last();
        assert(ids_unique(t)) by {
            assert forall|i: int, j: int| 0 <= i < t.len() && 0 <= j < t.len() && i != j implies #[trigger] t[i].id != #[trigger] t[j].id by {
                assert(s[i].id != s[j].id);
            }
        }
        law_delete_keeps_ids_unique(t, id);
        t.lemma_filter_push(s.last(), pred);
        assert(t.push(s.last()) =~= s);
        if pred(s.last()) {
            let ft = without_id(t, id);
            assert(!has_id(ft, s.last().id)) by {
                if has_id(ft, s.last().id) {
                    law_read_after_delete(t, id, s.last().id);
                    lemma_index_of_id(ft, s.last().id);
                    lemma_index_of_id(t, s.last().id);
                    let k = index_of_id(t, s.last().id);
                    assert(s[k].id == s[s.len() - 1].id);
                }
            }
            law_create_keeps_ids_unique(ft, s.last());
        }
    }
}

/// Updating the person with `person.id` makes lookups of that id give
/// `person`, and keeps what every other identifier finds.
pub proof fn law_read_after_update(s: Seq<PersonView>, person: PersonView, other: i32)
    requires
        has_id(s, person.id),
    ensures
        lookup(replaced(s, person), person.id) == Some(person),
        other != person.id ==> lookup(replaced(s, person), other) == lookup(s, other),
        replaced(s, person).len() == s.len(),
{
    let k = index_of_id(s, person.id);
    let r = replaced(s, person);
    lemma_index_of_id(s, person.id);
    lemma_index_of_id(r, person.id);
    lemma_index_of_id(s, other);
    lemma_index_of_id(r, other);
    assert(r[k].id == person.id);
    if index_of_id(r, person.id) < k {
        let j = index_of_id(r, person.id);
        assert(s[j].id == r[j].id);
    }
    if other != person.id {
        assert forall|j: int| 0 <= j < s.len() implies #[trigger] r[j].id == other <==> s[j].id == other by {}
        if index_of_id(s, other) >= 0 && index_of_id(r, other) >= 0 {
            let a = index_of_id(s, other);
            let b = index_of_id(r, other);
            assert(r[a].id == other);
            assert(s[b].id == other);
        } else if index_of_id(s, other) >= 0 {
            let a = index_of_id(s, other);
            assert(r[a].id == other);
        } else if index_of_id(r, other) >= 0 {
            let b = index_of_id(r, other);
            assert(s[b].id == other);
        }
    }
}

/// Updating keeps every position: the table keeps its length and the
/// identifier at each position; the first person with `person.id` becomes
/// `person`, and every other position keeps the person it held.
pub proof fn law_update_keeps_positions(s: Seq<PersonView>, person: PersonView)
    requires
        has_id(s, person.id),
    ensures
        replaced(s, person).len() == s.len(),
        forall|j: int| 0 <= j < s.len() ==> #[trigger] replaced(s, person)[j].id == s[j].id,
        forall|j: int| 0 <= j < s.len() && s[j].id != person.id ==> #[trigger] replaced(s, person)[j] == s[j],
        exists|k: int| 0 <= k < s.len() && s[k].id == person.id
            && (forall|j: int| 0 <= j < k ==> #[trigger] s[j].id != person.id)
            && #[trigger] replaced(s, person)[k] == person
            && (forall|j: int| 0 <= j < s.len() && j != k ==> #[trigger] replaced(s, person)[j] == s[j]),
{
    lemma_index_of_id(s, person.id);
    let k = index_of_id(s, person.id);
    let r = replaced(s, person);
    assert(r[k] == person);
    assert(forall|j: int| 0 <= j < s.len() && j != k ==> #[trigger] r[j] == s[j]);
}

/// Updating a person keeps identifiers unique.
pub proof fn law_update_keeps_ids_unique(s: Seq<PersonView>, person: PersonView)
    requires
        ids_unique(s),
        has_id(s, person.id),
    ensures
        ids_unique(replaced(s, person)),
{
    lemma_index_of_id(s, person.id);
    let r = replaced(s, person);
    let k = index_of_id(s, person.id);
    assert forall|i: int, j: int| 0 <= i < r.len() && 0 <= j < r.len() && i != j implies #[trigger] r[i].id != #[trigger] r[j].id by {
        assert(s[i].id != s[j].id);
        if i == k {
            assert(s[k].id == person.id);
        }
        if j == k {
            assert(s[k].id == person.id);
        }
    }
}

/// The next identifier depends only on which persons are stored, not on
/// their order: two tables that hold the same persons, each as often, give
/// the same next identifier.
pub proof fn law_next_id_ignores_order(s1: Seq<PersonView>, s2: Seq<PersonView>)
    requires
        s1.to_multiset() == s2.to_multiset(),
    ensures
        next_id(s1) == next_id(s2),
{
    s1.to_multiset_ensures();
    s2.to_multiset_ensures();
    assert(s1.len() == s2.len());
    if s1.len() > 0 {
        lemma_max_id(s1);
        lemma_max_id(s2);
        let i = choose|i: int| 0 <= i < s1.len() && #[trigger] s1[i].id == max_id(s1);
        let j = choose|j: int| 0 <= j < s2.len() && #[trigger] s2[j].id == max_id(s2);
        assert(s1.contains(s1[i]));
        assert(s2.to_multiset().count(s1[i]) > 0);
        let j2 = choose|k: int| 0 <= k < s2.len() && s2[k] == s1[i];
        assert(s2[j2].id <= max_id(s2));
        assert(s2.contains(s2[j]));
        assert(s1.to_multiset().count(s2[j]) > 0);
        let i2 = choose|k: int| 0 <= k < s1.len() && s1[k] == s2[j];
        assert(s1[i2].id <= max_id(s1));
    }
}

} // verus!
