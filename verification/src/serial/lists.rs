//! Facts about lists that stand for sets and maps: where an item is first
//! found, and lists without repetition.

use vstd::prelude::*;

verus! {

/// Position of the first occurrence of `item`, or the length of the list
/// where it does not occur.
pub open spec fn position_of<T>(items: Seq<T>, item: T) -> int
    decreases items.len(),
{
    if items.len() == 0 {
        0
    } else if items.first() == item {
        0
    } else {
        1 + position_of(items.drop_first(), item)
    }
}

/// Whether no entry occurs twice.
pub open spec fn distinct<T>(items: Seq<T>) -> bool {
    forall|i: int, j: int| 0 <= i < j < items.len() ==> items[i] != items[j]
}

/// An index that holds the item, with nothing before it that does, is its
/// position; so is the length, where nothing holds it.
pub proof fn lemma_position_of<T>(items: Seq<T>, item: T, at: int)
    requires
        0 <= at <= items.len(),
        forall|j: int| 0 <= j < at ==> items[j] != item,
        at < items.len() ==> items[at] == item,
    ensures
        position_of(items, item) == at,
    decreases at,
{
    if at > 0 {
        let rest = items.drop_first();
        assert forall|j: int| 0 <= j < at - 1 implies rest[j] != item by {
            assert(rest[j] == items[j + 1]);
        }
        lemma_position_of(rest, item, at - 1);
    }
}

/// The position lies within the list or at its end; within, it holds the
/// item; nothing before it does; and it lies within exactly when the list
/// contains the item.
pub proof fn lemma_position_of_bounds<T>(items: Seq<T>, item: T)
    ensures
        0 <= position_of(items, item) <= items.len(),
        position_of(items, item) < items.len() ==> items[position_of(items, item)] == item,
        forall|j: int| 0 <= j < position_of(items, item) ==> items[j] != item,
        position_of(items, item) < items.len() <==> items.contains(item),
    decreases items.len(),
{
    if items.len() > 0 {
        let rest = items.drop_first();
        lemma_position_of_bounds(rest, item);
        if items.first() != item {
            let at = position_of(rest, item);
            assert forall|j: int| 0 <= j < at + 1 implies items[j] != item by {
                if j > 0 {
                    assert(rest[j - 1] == items[j]);
                }
            }
            if at < rest.len() {
                assert(rest[at] == items[at + 1]);
            }
            if items.contains(item) {
                let k = choose|k: int| 0 <= k < items.len() && items[k] == item;
                assert(rest[k - 1] == item);
            }
        }
    }
}

/// A list with one more item contains what it contained before, and the
/// new item.
pub proof fn lemma_push_contains<T>(items: Seq<T>, item: T, other: T)
    ensures
        items.push(item).contains(other) <==> items.contains(other) || item == other,
{
    let longer = items.push(item);
    if longer.contains(other) {
        let k = choose|k: int| 0 <= k < longer.len() && longer[k] == other;
        if k < items.len() {
            assert(items[k] == other);
        }
    }
    if items.contains(other) {
        let k = choose|k: int| 0 <= k < items.len() && items[k] == other;
        assert(longer[k] == other);
    }
    if item == other {
        assert(longer[items.len() as int] == other);
    }
}

/// A list that is not empty contains what its front part contains, and its
/// last item.
pub proof fn lemma_last_contains<T>(items: Seq<T>, other: T)
    requires
        items.len() > 0,
    ensures
        items.contains(other) <==> items.drop_last().contains(other) || items.last() == other,
{
    assert(items =~= items.drop_last().push(items.last()));
    lemma_push_contains(items.drop_last(), items.last(), other);
}

/// What a list contains, the list followed by another contains; and so for
/// the other.
pub proof fn lemma_concat_contains<T>(front: Seq<T>, back: Seq<T>, other: T)
    ensures
        (front + back).contains(other) <==> front.contains(other) || back.contains(other),
{
    let all = front + back;
    if all.contains(other) {
        let k = choose|k: int| 0 <= k < all.len() && all[k] == other;
        if k < front.len() {
            assert(front[k] == other);
        } else {
            assert(back[k - front.len()] == other);
        }
    }
    if front.contains(other) {
        let k = choose|k: int| 0 <= k < front.len() && front[k] == other;
        assert(all[k] == other);
    }
    if back.contains(other) {
        let k = choose|k: int| 0 <= k < back.len() && back[k] == other;
        assert(all[k + front.len()] == other);
    }
}

/// A list stays free of repetitions when an item it does not hold is added.
pub proof fn lemma_distinct_push<T>(items: Seq<T>, item: T)
    requires
        distinct(items),
        !items.contains(item),
    ensures
        distinct(items.push(item)),
{
    let longer = items.push(item);
    assert forall|i: int, j: int| 0 <= i < j < longer.len() implies longer[i] != longer[j] by {
        if j == items.len() {
            assert(items[i] == longer[i]);
            assert(items.contains(longer[i]));
        }
    }
}

/// A list stays free of repetitions when an entry is taken out.
pub proof fn lemma_distinct_remove<T>(items: Seq<T>, at: int)
    requires
        distinct(items),
        0 <= at < items.len(),
    ensures
        distinct(items.remove(at)),
        !items.remove(at).contains(items[at]),
{
    let shorter = items.remove(at);
    assert forall|i: int, j: int| 0 <= i < j < shorter.len() implies shorter[i] != shorter[j] by {
        let i0 = if i < at { i } else { i + 1 };
        let j0 = if j < at { j } else { j + 1 };
        assert(shorter[i] == items[i0]);
        assert(shorter[j] == items[j0]);
    }
    if shorter.contains(items[at]) {
        let k = choose|k: int| 0 <= k < shorter.len() && shorter[k] == items[at];
        let k0 = if k < at { k } else { k + 1 };
        assert(shorter[k] == items[k0]);
        if k0 < at {
            assert(items[k0] != items[at]);
        } else {
            assert(items[at] != items[k0]);
        }
    }
}

/// The texts of a list, each as a character sequence.
pub open spec fn names_of(list: Seq<String>) -> Seq<Seq<char>> {
    list.map_values(|name: String| name@)
}

/// Position of a text in a list of texts.
pub fn find_name(list: &Vec<String>, name: &String) -> (at: usize)
    ensures
        at == position_of(names_of(list@), name@),
        at <= list@.len(),
{
    let ghost names = names_of(list@);
    let mut i: usize = 0;
    while i < list.len()
        invariant
            i <= list@.len(),
            names == names_of(list@),
            forall|j: int| 0 <= j < i ==> names[j] != name@,
        decreases list@.len() - i,
    {
        if list[i] == *name {
            proof {
                lemma_position_of(names, name@, i as int);
            }
            return i;
        }
        i += 1;
    }
    proof {
        lemma_position_of(names, name@, i as int);
    }
    i
}

} // verus!
