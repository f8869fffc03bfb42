//! Sequences: what they hold, and where a value stands first.

use vstd::prelude::*;

verus! {

/// A sequence with one more value holds what it held before, and that value.
pub proof fn lemma_contains_push<A>(items: Seq<A>, last: A, wanted: A)
    ensures
        items.push(last).contains(wanted) <==> items.contains(wanted) || wanted == last,
{
    let longer = items.push(last);
    if longer.contains(wanted) {
        let at = choose|at: int| 0 <= at < longer.len() && longer[at] == wanted;
        if at < items.len() {
            assert(items[at] == wanted);
        }
    }
    if items.contains(wanted) {
        let at = choose|at: int| 0 <= at < items.len() && items[at] == wanted;
        assert(longer[at] == wanted);
    }
    if wanted == last {
        assert(longer[items.len() as int] == wanted);
    }
}

/// Two sequences, one after the other, hold what either of them holds.
pub proof fn lemma_contains_concat<A>(first: Seq<A>, second: Seq<A>, wanted: A)
    ensures
        (first + second).contains(wanted) <==> first.contains(wanted) || second.contains(wanted),
{
    let both = first + second;
    if both.contains(wanted) {
        let at = choose|at: int| 0 <= at < both.len() && both[at] == wanted;
        if at < first.len() {
            assert(first[at] == wanted);
        } else {
            assert(second[at - first.len()] == wanted);
        }
    }
    if first.contains(wanted) {
        let at = choose|at: int| 0 <= at < first.len() && first[at] == wanted;
        assert(both[at] == wanted);
    }
    if second.contains(wanted) {
        let at = choose|at: int| 0 <= at < second.len() && second[at] == wanted;
        assert(both[first.len() + at] == wanted);
    }
}

/// No value stands at two places.
pub open spec fn distinct<A>(items: Seq<A>) -> bool {
    forall|r: int, s: int| 0 <= r < s < items.len() ==> items[r] != items[s]
}

/// Where no value stands twice, the last value does not stand before the
/// last place, and what stands before the last place has no value twice.
pub proof fn lemma_distinct_drop_last<A>(items: Seq<A>)
    requires
        distinct(items),
        items.len() > 0,
    ensures
        distinct(items.drop_last()),
        !items.drop_last().contains(items.last()),
{
    let before = items.drop_last();
    assert forall|r: int, s: int| 0 <= r < s < before.len() implies before[r] != before[s] by {
        assert(before[r] == items[r] && before[s] == items[s]);
    }
    if before.contains(items.last()) {
        let at = choose|at: int| 0 <= at < before.len() && before[at] == items.last();
        assert(items[at] == items[items.len() - 1]);
    }
}

/// A sequence without a value twice stays so with one more value that it
/// does not hold yet.
pub proof fn lemma_distinct_push<A>(items: Seq<A>, last: A)
    requires
        distinct(items),
        !items.contains(last),
    ensures
        distinct(items.push(last)),
{
    let longer = items.push(last);
    assert forall|r: int, s: int| 0 <= r < s < longer.len() implies longer[r] != longer[s] by {
        assert(longer[r] == items[r]);
        if s < items.len() {
            assert(longer[s] == items[s]);
        } else {
            assert(items.contains(items[r]));
        }
    }
}

/// The first place at which `wanted` stands in `items`, or the length of
/// `items` where it stands nowhere.
pub open spec fn first_place<A>(items: Seq<A>, wanted: A) -> nat
    decreases items.len(),
{
    if items.len() == 0 || items[0] == wanted {
        0
    } else {
        1 + first_place(items.skip(1), wanted)
    }
}

/// The first place of a value is a place of the value, with no place of the
/// value before it; it is the length where the value stands nowhere.
pub proof fn lemma_first_place<A>(items: Seq<A>, wanted: A)
    ensures
        first_place(items, wanted) <= items.len(),
        first_place(items, wanted) < items.len() ==> items[first_place(items, wanted) as int]
            == wanted,
        forall|j: int| 0 <= j < first_place(items, wanted) ==> items[j] != wanted,
        first_place(items, wanted) < items.len() <==> items.contains(wanted),
    decreases items.len(),
{
    if items.len() > 0 && items[0] != wanted {
        let rest = items.skip(1);
        lemma_first_place(rest, wanted);
        let place = first_place(items, wanted);
        assert forall|j: int| 0 <= j < place implies items[j] != wanted by {
            if j > 0 {
                assert(rest[j - 1] == items[j]);
            }
        }
    }
}

/// A place of a value with no place of the value before it is its first, and
/// so is the length where the value stands nowhere.
pub proof fn lemma_first_place_is<A>(items: Seq<A>, wanted: A, place: int)
    requires
        0 <= place <= items.len(),
        forall|j: int| 0 <= j < place ==> items[j] != wanted,
        place < items.len() ==> items[place] == wanted,
    ensures
        first_place(items, wanted) == place,
{
    lemma_first_place(items, wanted);
}

} // verus!
