//! The list of character names kept for one account.
//!
//! The list stands for a set. Its canonical form is ascending and therefore
//! without repeats; adding names always produces that form, whatever the
//! store handed back, and removing names keeps it.

use crate::order::{
    lemma_precedes_asymmetric, lemma_precedes_irreflexive, lemma_precedes_total,
    lemma_precedes_transitive, name_precedes, precedes,
};
use vstd::prelude::*;

verus! {

/// Every name comes strictly before all the names after it.
pub open spec fn ascending(names: Seq<Seq<char>>) -> bool {
    forall|i: int, j: int|
        0 <= i < j < names.len() ==> precedes(#[trigger] names[i], #[trigger] names[j])
}

/// `result` is the canonical list of the names that are in `stored` or in
/// `added`: ascending, with every such name and no other.
pub open spec fn is_union(
    result: Seq<Seq<char>>,
    stored: Seq<Seq<char>>,
    added: Seq<Seq<char>>,
) -> bool {
    &&& ascending(result)
    &&& forall|name: Seq<char>|
        result.contains(name) <==> stored.contains(name) || added.contains(name)
}

/// The names of `stored` that are not in `removed`, in the order of `stored`.
pub open spec fn without(stored: Seq<Seq<char>>, removed: Seq<Seq<char>>) -> Seq<Seq<char>> {
    stored.filter(not_in(removed))
}

/// The test that a name is none of `removed`.
pub open spec fn not_in(removed: Seq<Seq<char>>) -> spec_fn(Seq<char>) -> bool {
    |name: Seq<char>| !removed.contains(name)
}

/// An ascending list holds no name twice.
pub proof fn lemma_ascending_no_duplicates(names: Seq<Seq<char>>)
    requires
        ascending(names),
    ensures
        names.no_duplicates(),
{
    assert forall|i: int, j: int| 0 <= i < names.len() && 0 <= j < names.len() && i != j implies
        names[i] != names[j] by {
        lemma_precedes_irreflexive(names[i]);
        if i < j {
            assert(precedes(names[i], names[j]));
        } else {
            assert(precedes(names[j], names[i]));
        }
    }
}

/// Two ascending lists with the same names are the same list.
pub proof fn lemma_ascending_unique(a: Seq<Seq<char>>, b: Seq<Seq<char>>)
    requires
        ascending(a),
        ascending(b),
        forall|name: Seq<char>| a.contains(name) <==> b.contains(name),
    ensures
        a == b,
    decreases a.len(),
{
    if a.len() == 0 {
        if b.len() > 0 {
            assert(b.contains(b[0]));
            assert(a.contains(b[0]));
        }
        assert(a =~= b);
    } else if b.len() == 0 {
        assert(a.contains(a[0]));
        assert(b.contains(a[0]));
    } else {
        // The first names agree: each is the least of the common names.
        assert(a.contains(a[0]));
        assert(b.contains(a[0]));
        let k = choose|k: int| 0 <= k < b.len() && b[k] == a[0];
        assert(b.contains(b[0]));
        assert(a.contains(b[0]));
        let m = choose|m: int| 0 <= m < a.len() && a[m] == b[0];
        lemma_precedes_asymmetric(a[0], b[0]);
        if k > 0 {
            assert(precedes(b[0], b[k]));
            if m > 0 {
                assert(precedes(a[0], a[m]));
            }
            lemma_precedes_irreflexive(a[0]);
        }
        assert(a[0] == b[0]);
        let ta = a.drop_first();
        let tb = b.drop_first();
        assert forall|name: Seq<char>| ta.contains(name) <==> tb.contains(name) by {
            lemma_precedes_irreflexive(a[0]);
            if ta.contains(name) {
                let i = choose|i: int| 0 <= i < ta.len() && ta[i] == name;
                assert(a[i + 1] == name);
                assert(precedes(a[0], a[i + 1]));
                assert(a.contains(name));
                let j = choose|j: int| 0 <= j < b.len() && b[j] == name;
                assert(tb[j - 1] == name);
            }
            if tb.contains(name) {
                let i = choose|i: int| 0 <= i < tb.len() && tb[i] == name;
                assert(b[i + 1] == name);
                assert(precedes(b[0], b[i + 1]));
                assert(b.contains(name));
                let j = choose|j: int| 0 <= j < a.len() && a[j] == name;
                assert(ta[j - 1] == name);
            }
        }
        assert(ascending(ta)) by {
            assert forall|i: int, j: int| 0 <= i < j < ta.len() implies precedes(
                #[trigger] ta[i],
                #[trigger] ta[j],
            ) by {
                assert(precedes(a[i + 1], a[j + 1]));
            }
        }
        assert(ascending(tb)) by {
            assert forall|i: int, j: int| 0 <= i < j < tb.len() implies precedes(
                #[trigger] tb[i],
                #[trigger] tb[j],
            ) by {
                assert(precedes(b[i + 1], b[j + 1]));
            }
        }
        lemma_ascending_unique(ta, tb);
        assert(a =~= seq![a[0]] + ta);
        assert(b =~= seq![b[0]] + tb);
    }
}

/// Whether `name` is one of `names`.
pub fn contains_name(names: &Vec<String>, name: &String) -> (found: bool)
    ensures
        found == names.deep_view().contains(name@),
{
    let mut i: usize = 0;
    while i < names.len()
        invariant
            i <= names.len(),
            forall|k: int| 0 <= k < i ==> names.deep_view()[k] != name@,
        decreases names.len() - i,
    {
        if names[i] == *name {
            assert(names.deep_view()[i as int] == name@);
            return true;
        }
        i += 1;
    }
    false
}

/// Puts `name` into an ascending list, at its place, unless it is there.
pub(crate) fn insert_name(names: &mut Vec<String>, name: String)
    requires
        ascending(old(names).deep_view()),
    ensures
        ascending(final(names).deep_view()),
        forall|other: Seq<char>|
            final(names).deep_view().contains(other) <==> other == name@ || old(
                names,
            ).deep_view().contains(other),
        old(names).deep_view().contains(name@) ==> final(names).deep_view() == old(
            names,
        ).deep_view(),
        !old(names).deep_view().contains(name@) ==> final(names).len() == old(names).len() + 1,
{
    let ghost before = names.deep_view();
    // Binary search for the first name that does not come before `name`.
    let mut low: usize = 0;
    let mut high: usize = names.len();
    while low < high
        invariant
            low <= high <= names.len(),
            names.deep_view() == before,
            ascending(before),
            forall|k: int| 0 <= k < low ==> precedes(#[trigger] before[k], name@),
            forall|k: int| high <= k < before.len() ==> !precedes(#[trigger] before[k], name@),
        decreases high - low,
    {
        let mid = low + (high - low) / 2;
        if name_precedes(names[mid].as_str(), name.as_str()) {
            assert forall|k: int| 0 <= k < mid + 1 implies precedes(
                #[trigger] before[k],
                name@,
            ) by {
                if k < mid {
                    lemma_precedes_transitive(before[k], before[mid as int], name@);
                }
            }
            low = mid + 1;
        } else {
            assert forall|k: int| mid <= k < before.len() implies !precedes(
                #[trigger] before[k],
                name@,
            ) by {
                if k > mid && precedes(before[k], name@) {
                    lemma_precedes_transitive(before[mid as int], before[k], name@);
                }
            }
            high = mid;
        }
    }
    proof {
        assert forall|k: int| 0 <= k < low implies before[k] != name@ by {
            lemma_precedes_irreflexive(name@);
        }
    }
    if low < names.len() && names[low] == name {
        assert(before[low as int] == name@);
        assert(before.contains(name@));
    } else {
        proof {
            assert forall|k: int| low <= k < before.len() implies precedes(
                name@,
                #[trigger] before[k],
            ) by {
                lemma_precedes_total(name@, before[low as int]);
                if k > low {
                    lemma_precedes_transitive(name@, before[low as int], before[k]);
                }
            }
            assert forall|k: int| low <= k < before.len() implies before[k] != name@ by {
                lemma_precedes_irreflexive(name@);
            }
        }
        names.insert(low, name);
        proof {
            let after = names.deep_view();
            assert(after =~= before.insert(low as int, name@));
            assert(after[low as int] == name@);
            assert forall|other: Seq<char>|
                after.contains(other) <==> other == name@ || before.contains(other) by {
                if after.contains(other) {
                    let k = choose|k: int| 0 <= k < after.len() && after[k] == other;
                    if k < low {
                        assert(before[k] == other);
                    } else if k > low {
                        assert(before[k - 1] == other);
                    }
                }
                if before.contains(other) {
                    let k = choose|k: int| 0 <= k < before.len() && before[k] == other;
                    if k < low {
                        assert(after[k] == other);
                    } else {
                        assert(after[k + 1] == other);
                    }
                }
            }
            assert forall|i: int, j: int| 0 <= i < j < after.len() implies precedes(
                #[trigger] after[i],
                #[trigger] after[j],
            ) by {
                let bi = if i < low { i } else { i - 1 };
                let bj = if j < low { j } else { j - 1 };
                if i != low && j != low {
                    assert(precedes(before[bi], before[bj]));
                }
            }
        }
    }
}

/// The canonical list of the names in `stored` or in `added`.
pub fn merge_names(stored: Vec<String>, added: &Vec<String>) -> (merged: Vec<String>)
    ensures
        is_union(merged.deep_view(), stored.deep_view(), added.deep_view()),
{
    let ghost before = stored.deep_view();
    let mut pending = stored;
    let mut merged: Vec<String> = Vec::new();
    while pending.len() > 0
        invariant
            ascending(merged.deep_view()),
            forall|name: Seq<char>|
                before.contains(name) <==> merged.deep_view().contains(name)
                    || pending.deep_view().contains(name),
        decreases pending.len(),
    {
        let ghost rest = pending.deep_view();
        let name = pending.pop().unwrap();
        proof {
            assert(rest =~= pending.deep_view().push(name@));
            assert forall|other: Seq<char>|
                rest.contains(other) <==> other == name@ || pending.deep_view().contains(other) by {
                lemma_push_contains(pending.deep_view(), name@, other);
            }
        }
        let ghost merged_before = merged.deep_view();
        insert_name(&mut merged, name);
        proof {
            assert forall|other: Seq<char>|
                before.contains(other) <==> merged.deep_view().contains(other)
                    || pending.deep_view().contains(other) by {
                assert(before.contains(other) <==> merged_before.contains(other) || rest.contains(
                    other,
                ));
            }
        }
    }
    proof {
        assert(pending.deep_view() =~= Seq::<Seq<char>>::empty());
        assert forall|other: Seq<char>|
            merged.deep_view().contains(other) <==> before.contains(other)
                || added.deep_view().take(0).contains(other) by {
            assert(before.contains(other) <==> merged.deep_view().contains(other)
                || pending.deep_view().contains(other));
        }
    }
    let mut j: usize = 0;
    while j < added.len()
        invariant
            j <= added.len(),
            ascending(merged.deep_view()),
            forall|name: Seq<char>|
                merged.deep_view().contains(name) <==> before.contains(name)
                    || added.deep_view().take(j as int).contains(name),
        decreases added.len() - j,
    {
        let ghost seen = added.deep_view().take(j as int);
        let ghost merged_before = merged.deep_view();
        let name = added[j].clone();
        insert_name(&mut merged, name);
        proof {
            let next = added.deep_view().take(j + 1);
            assert(next =~= seen.push(name@));
            assert forall|other: Seq<char>|
                merged.deep_view().contains(other) <==> before.contains(other) || next.contains(
                    other,
                ) by {
                lemma_push_contains(seen, name@, other);
                assert(merged_before.contains(other) <==> before.contains(other) || seen.contains(
                    other,
                ));
            }
        }
        j += 1;
    }
    proof {
        assert(added.deep_view().take(added.len() as int) =~= added.deep_view());
        assert forall|other: Seq<char>|
            merged.deep_view().contains(other) <==> before.contains(other)
                || added.deep_view().contains(other) by {
            assert(merged.deep_view().contains(other) <==> before.contains(other)
                || added.deep_view().take(j as int).contains(other));
        }
        assert(is_union(merged.deep_view(), before, added.deep_view()));
    }
    merged
}

/// The names of `stored` that are not in `removed`, in their order.
pub fn remove_names(stored: Vec<String>, removed: &Vec<String>) -> (kept: Vec<String>)
    ensures
        kept.deep_view() == without(stored.deep_view(), removed.deep_view()),
{
    let ghost before = stored.deep_view();
    let ghost wanted = not_in(removed.deep_view());
    let mut kept: Vec<String> = Vec::new();
    assert(before.take(0) =~= Seq::<Seq<char>>::empty());
    assert(kept.deep_view() =~= Seq::<Seq<char>>::empty());
    for name in it: stored
        invariant
            wanted == not_in(removed.deep_view()),
            it.seq().len() == before.len(),
            forall|k: int| 0 <= k < before.len() ==> (#[trigger] it.seq()[k])@ == before[k],
            kept.deep_view() == before.take(it.index() as int).filter(wanted),
    {
        let ghost seen = before.take(it.index() as int);
        let ghost kept_before = kept.deep_view();
        proof {
            assert(before.take(it.index() + 1) =~= seen.push(name@));
            seen.lemma_filter_push(name@, wanted);
        }
        if !contains_name(removed, &name) {
            kept.push(name);
            assert(kept.deep_view() =~= kept_before.push(name@));
        }
    }
    assert(before.take(before.len() as int) =~= before);
    kept
}

/// Adding the same names a second time changes nothing: if `once` is the
/// list after adding `added` to `stored`, and `twice` the list after adding
/// `added` to `once`, the two are the same list.
pub proof fn lemma_add_twice_is_add_once(
    stored: Seq<Seq<char>>,
    added: Seq<Seq<char>>,
    once: Seq<Seq<char>>,
    twice: Seq<Seq<char>>,
)
    requires
        is_union(once, stored, added),
        is_union(twice, once, added),
    ensures
        twice == once,
{
    lemma_ascending_unique(twice, once);
}

/// What adding gives depends only on which names are stored and added, not
/// on their order nor on how often each occurs.
pub proof fn lemma_union_unique(
    stored1: Seq<Seq<char>>,
    added1: Seq<Seq<char>>,
    result1: Seq<Seq<char>>,
    stored2: Seq<Seq<char>>,
    added2: Seq<Seq<char>>,
    result2: Seq<Seq<char>>,
)
    requires
        is_union(result1, stored1, added1),
        is_union(result2, stored2, added2),
        forall|name: Seq<char>|
            stored1.contains(name) || added1.contains(name) <==> stored2.contains(name)
                || added2.contains(name),
    ensures
        result1 == result2,
{
    lemma_ascending_unique(result1, result2);
}

/// After any run of adds the list is ascending, holds no name twice, and
/// holds exactly the names stored at first or added since. `lists[0]` is
/// what was stored at first, and `lists[i + 1]` the list after adding
/// `added[i]` to `lists[i]`.
pub proof fn lemma_adds_keep_set(lists: Seq<Seq<Seq<char>>>, added: Seq<Seq<Seq<char>>>)
    requires
        added.len() >= 1,
        lists.len() == added.len() + 1,
        forall|i: int| 0 <= i < added.len() ==> is_union(#[trigger] lists[i + 1], lists[i], added[i]),
    ensures
        ascending(lists.last()),
        lists.last().no_duplicates(),
        forall|name: Seq<char>|
            lists.last().contains(name) <==> lists[0].contains(name) || exists|i: int|
                0 <= i < added.len() && (#[trigger] added[i]).contains(name),
    decreases added.len(),
{
    let n = added.len() as int;
    assert(is_union(lists[(n - 1) + 1], lists[n - 1], added[n - 1]));
    lemma_ascending_no_duplicates(lists.last());
    if n == 1 {
        assert forall|name: Seq<char>|
            lists.last().contains(name) <==> lists[0].contains(name) || exists|i: int|
                0 <= i < added.len() && (#[trigger] added[i]).contains(name) by {
            if added[0].contains(name) {
            }
        }
    } else {
        let lists0 = lists.drop_last();
        let added0 = added.drop_last();
        assert forall|i: int| 0 <= i < added0.len() implies is_union(
            #[trigger] lists0[i + 1],
            lists0[i],
            added0[i],
        ) by {
            assert(is_union(lists[i + 1], lists[i], added[i]));
        }
        lemma_adds_keep_set(lists0, added0);
        assert(lists0.last() == lists[n - 1]);
        assert forall|name: Seq<char>|
            lists.last().contains(name) <==> lists[0].contains(name) || exists|i: int|
                0 <= i < added.len() && (#[trigger] added[i]).contains(name) by {
            if lists.last().contains(name) {
                if added[n - 1].contains(name) {
                } else {
                    assert(lists0.last().contains(name));
                    if !lists0[0].contains(name) {
                        let i = choose|i: int|
                            0 <= i < added0.len() && (#[trigger] added0[i]).contains(name);
                        assert(added[i].contains(name));
                    }
                }
            }
            if exists|i: int| 0 <= i < added.len() && (#[trigger] added[i]).contains(name) {
                let i = choose|i: int| 0 <= i < added.len() && (#[trigger] added[i]).contains(name);
                if i < n - 1 {
                    assert(added0[i].contains(name));
                }
            }
        }
    }
}

/// Deleting leaves exactly the stored names that were not to be deleted.
pub proof fn lemma_without_contains(
    stored: Seq<Seq<char>>,
    removed: Seq<Seq<char>>,
    name: Seq<char>,
)
    ensures
        without(stored, removed).contains(name) <==> stored.contains(name) && !removed.contains(
            name,
        ),
{
    let wanted = not_in(removed);
    let kept = without(stored, removed);
    if kept.contains(name) {
        let k = choose|k: int| 0 <= k < kept.len() && kept[k] == name;
        stored.lemma_filter_pred(wanted, k);
        stored.lemma_filter_contains_rev(wanted, name);
    }
    if stored.contains(name) && !removed.contains(name) {
        let k = choose|k: int| 0 <= k < stored.len() && stored[k] == name;
        stored.lemma_filter_contains(wanted, k);
    }
}

/// Deleting names of which none is stored leaves the list as it is.
pub proof fn lemma_without_absent(stored: Seq<Seq<char>>, removed: Seq<Seq<char>>)
    requires
        forall|name: Seq<char>| removed.contains(name) ==> !stored.contains(name),
    ensures
        without(stored, removed) == stored,
    decreases stored.len(),
{
    let wanted = not_in(removed);
    reveal(Seq::filter);
    if stored.len() > 0 {
        let front = stored.drop_last();
        assert forall|name: Seq<char>| removed.contains(name) implies !front.contains(name) by {
            if front.contains(name) {
                let k = choose|k: int| 0 <= k < front.len() && front[k] == name;
                assert(stored[k] == name);
            }
        }
        lemma_without_absent(front, removed);
        assert(stored.contains(stored.last()));
        assert(stored =~= front.push(stored.last()));
    }
}

/// Deleting keeps an ascending list ascending.
pub proof fn lemma_without_ascending(stored: Seq<Seq<char>>, removed: Seq<Seq<char>>)
    requires
        ascending(stored),
    ensures
        ascending(without(stored, removed)),
    decreases stored.len(),
{
    let wanted = not_in(removed);
    reveal(Seq::filter);
    if stored.len() > 0 {
        let front = stored.drop_last();
        assert(ascending(front)) by {
            assert forall|i: int, j: int| 0 <= i < j < front.len() implies precedes(
                #[trigger] front[i],
                #[trigger] front[j],
            ) by {
                assert(precedes(stored[i], stored[j]));
            }
        }
        lemma_without_ascending(front, removed);
        let kept = without(front, removed);
        if wanted(stored.last()) {
            let all = kept.push(stored.last());
            assert forall|i: int, j: int| 0 <= i < j < all.len() implies precedes(
                #[trigger] all[i],
                #[trigger] all[j],
            ) by {
                if j == kept.len() {
                    assert(kept.contains(kept[i]));
                    front.lemma_filter_contains_rev(wanted, kept[i]);
                    let k = choose|k: int| 0 <= k < front.len() && front[k] == kept[i];
                    assert(precedes(stored[k], stored[stored.len() - 1]));
                } else {
                    assert(precedes(kept[i], kept[j]));
                }
            }
        }
    }
}

/// A list with one more name at its end holds that name and what it held.
proof fn lemma_push_contains(names: Seq<Seq<char>>, last: Seq<char>, other: Seq<char>)
    ensures
        names.push(last).contains(other) <==> other == last || names.contains(other),
{
    let longer = names.push(last);
    if longer.contains(other) {
        let k = choose|k: int| 0 <= k < longer.len() && longer[k] == other;
        if k < names.len() {
            assert(names[k] == other);
        }
    }
    if names.contains(other) {
        let k = choose|k: int| 0 <= k < names.len() && names[k] == other;
        assert(longer[k] == other);
    }
    assert(longer[names.len() as int] == last);
}

} // verus!
