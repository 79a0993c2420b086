//! Lists of results: chaining them, and the first or last that is there.

use vstd::prelude::*;

verus! {

/// The lists `parts`, one after the other.
pub open spec fn chained<T>(parts: Seq<Seq<T>>) -> Seq<T>
    decreases parts.len(),
{
    if parts.len() == 0 {
        Seq::empty()
    } else {
        chained(parts.drop_last()) + parts.last()
    }
}

/// `value`, or `current` if it is not there.
pub open spec fn last_set<T>(current: Option<T>, value: Option<T>) -> Option<T> {
    match value {
        Some(value) => Some(value),
        None => current,
    }
}

/// The last value that is there.
pub open spec fn last_some<T>(values: Seq<Option<T>>) -> Option<T>
    decreases values.len(),
{
    if values.len() == 0 {
        None
    } else {
        last_set(last_some(values.drop_last()), values.last())
    }
}

/// The last value that is there is the one after which none is there.
pub proof fn last_some_is<T>(values: Seq<Option<T>>, i: int)
    requires
        0 <= i < values.len(),
        values[i] is Some,
        forall|j: int| i < j < values.len() ==> (#[trigger] values[j]) is None,
    ensures
        last_some(values) == values[i],
    decreases values.len(),
{
    if i < values.len() - 1 {
        assert(values[values.len() - 1] is None);
        last_some_is(values.drop_last(), i);
    }
}

/// The first value that is there.
pub open spec fn first_some<T>(values: Seq<Option<T>>) -> Option<T>
    decreases values.len(),
{
    if values.len() == 0 {
        None
    } else {
        last_set(values.last(), first_some(values.drop_last()))
    }
}

/// The first value that is there is the one before which none is there.
pub proof fn first_some_is<T>(values: Seq<Option<T>>, i: int)
    requires
        0 <= i < values.len(),
        values[i] is Some,
        forall|j: int| 0 <= j < i ==> (#[trigger] values[j]) is None,
    ensures
        first_some(values) == values[i],
    decreases values.len(),
{
    if i < values.len() - 1 {
        first_some_is(values.drop_last(), i);
    } else {
        first_some_none(values.drop_last());
    }
}

/// There is no first value exactly if no value is there.
pub proof fn first_some_none<T>(values: Seq<Option<T>>)
    ensures
        first_some(values) is None <==> (forall|i: int|
            0 <= i < values.len() ==> (#[trigger] values[i]) is None),
    decreases values.len(),
{
    if values.len() > 0 {
        let before = values.drop_last();
        first_some_none(before);
        if first_some(values) is None {
            assert forall|i: int| 0 <= i < values.len() implies (#[trigger] values[i]) is None by {
                if i < before.len() {
                    assert(before[i] is None);
                }
            }
        }
        if forall|i: int| 0 <= i < values.len() ==> (#[trigger] values[i]) is None {
            assert forall|i: int| 0 <= i < before.len() implies (#[trigger] before[i]) is None by {
                assert(values[i] is None);
            }
            assert(values[values.len() - 1] is None);
        }
    }
}

/// What is in one of the lists is in all of them together.
pub proof fn chained_holds_its_parts<T>(parts: Seq<Seq<T>>, i: int, item: T)
    requires
        0 <= i < parts.len(),
        parts[i].contains(item),
    ensures
        chained(parts).contains(item),
    decreases parts.len(),
{
    let before = chained(parts.drop_last());
    let last = parts.last();
    if i < parts.len() - 1 {
        chained_holds_its_parts(parts.drop_last(), i, item);
        let k = choose|k: int| 0 <= k < before.len() && before[k] == item;
        assert(chained(parts)[k] == item);
    } else {
        let k = choose|k: int| 0 <= k < last.len() && last[k] == item;
        assert(chained(parts)[before.len() + k] == item);
    }
}

/// The lists of two groups together are those of the first, then those of the second.
pub proof fn chained_of_both<T>(a: Seq<Seq<T>>, b: Seq<Seq<T>>)
    ensures
        chained(a + b) == chained(a) + chained(b),
    decreases b.len(),
{
    if b.len() == 0 {
        assert(a + b =~= a);
        assert(chained(a) + chained(b) =~= chained(a));
    } else {
        chained_of_both(a, b.drop_last());
        assert((a + b).drop_last() =~= a + b.drop_last());
        assert((a + b).last() == b.last());
        assert(chained(a + b) =~= chained(a) + chained(b));
    }
}

/// One list on its own is itself.
pub proof fn chained_of_one<T>(part: Seq<T>)
    ensures
        chained(seq![part]) == part,
        chained(Seq::<Seq<T>>::empty()) == Seq::<T>::empty(),
{
    let parts = seq![part];
    assert(parts.drop_last() =~= Seq::<Seq<T>>::empty());
    assert(chained(parts.drop_last()) =~= Seq::<T>::empty());
    assert(chained(parts) =~= part);
}

} // verus!
