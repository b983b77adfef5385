//! Strictly increasing lists of identifiers.

use vstd::prelude::*;

verus! {

/// Each element is below every later one.
pub open spec fn strictly_increasing(s: Seq<u32>) -> bool {
    forall|i: int, j: int| 0 <= i < j < s.len() ==> s[i] < s[j]
}

/// `s` lists the members of `members` in increasing order, each once.
pub open spec fn lists_in_order(s: Seq<u32>, members: Set<u32>) -> bool {
    &&& strictly_increasing(s)
    &&& forall|x: u32| s.contains(x) <==> members.contains(x)
}

/// A set has at most one increasing listing.
pub proof fn law_increasing_listing_is_unique(a: Seq<u32>, b: Seq<u32>, members: Set<u32>)
    requires
        lists_in_order(a, members),
        lists_in_order(b, members),
    ensures
        a == b,
    decreases a.len(),
{
    if a.len() == 0 {
        if b.len() > 0 {
            assert(b.contains(b[0]));
            assert(a.contains(b[0]));
        }
        assert(a =~= b);
    } else {
        assert(a.contains(a.last()));
        assert(b.contains(a.last()));
        assert(b.contains(b.last()));
        assert(a.contains(b.last()));
        let i = choose|i: int| 0 <= i < a.len() && a[i] == b.last();
        let j = choose|j: int| 0 <= j < b.len() && b[j] == a.last();
        assert(a.last() == b.last());
        let rest = members.remove(a.last());
        assert forall|x: u32| a.drop_last().contains(x) <==> rest.contains(x) by {
            if a.drop_last().contains(x) {
                let k = choose|k: int| 0 <= k < a.drop_last().len() && a.drop_last()[k] == x;
                assert(a[k] == x && a.contains(x));
            }
            if rest.contains(x) {
                assert(a.contains(x));
                let k = choose|k: int| 0 <= k < a.len() && a[k] == x;
                assert(a.drop_last()[k] == x);
            }
        }
        assert forall|x: u32| b.drop_last().contains(x) <==> rest.contains(x) by {
            if b.drop_last().contains(x) {
                let k = choose|k: int| 0 <= k < b.drop_last().len() && b.drop_last()[k] == x;
                assert(b[k] == x && b.contains(x));
            }
            if rest.contains(x) {
                assert(b.contains(x));
                let k = choose|k: int| 0 <= k < b.len() && b[k] == x;
                assert(b.drop_last()[k] == x);
            }
        }
        law_increasing_listing_is_unique(a.drop_last(), b.drop_last(), rest);
        assert(a =~= a.drop_last().push(a.last()));
        assert(b =~= b.drop_last().push(b.last()));
    }
}

/// Inserts `value` at its place; a value already listed stays once.
pub fn insert_in_order(list: &mut Vec<u32>, value: u32)
    requires
        strictly_increasing(old(list)@),
    ensures
        strictly_increasing(final(list)@),
        forall|x: u32| final(list)@.contains(x) <==> old(list)@.contains(x) || x == value,
{
    let mut place: usize = 0;
    while place < list.len() && list[place] < value
        invariant
            place <= list@.len(),
            list@ == old(list)@,
            forall|i: int| 0 <= i < place ==> list@[i] < value,
        decreases list@.len() - place,
    {
        place += 1;
    }
    if place < list.len() && list[place] == value {
        assert(list@.contains(value));
        return;
    }
    list.insert(place, value);
    assert forall|x: u32| list@.contains(x) <==> old(list)@.contains(x) || x == value by {
        assert(list@[place as int] == value);
        if old(list)@.contains(x) {
            let i = choose|i: int| 0 <= i < old(list)@.len() && old(list)@[i] == x;
            if i < place {
                assert(list@[i] == x);
            } else {
                assert(list@[i + 1] == x);
            }
        }
        if list@.contains(x) && x != value {
            let i = choose|i: int| 0 <= i < list@.len() && list@[i] == x;
            if i < place {
                assert(old(list)@[i] == x);
            } else {
                assert(old(list)@[i - 1] == x);
            }
        }
    }
}

/// Inserting a number keeps the list in order and every number in it once: it grows by one
/// exactly where the number is new.
pub proof fn law_inserted_number_stands_once(list: &mut Vec<u32>, value: u32)
    requires
        strictly_increasing(old(list)@),
        call_ensures(insert_in_order, (list, value), ()),
    ensures
        final(list)@.contains(value),
        forall|i: int, j: int|
            0 <= i < j < final(list)@.len() ==> (#[trigger] final(list)@[i]) < (
            #[trigger] final(list)@[j]),
        forall|i: int|
            0 <= i < old(list)@.len() ==> final(list)@.contains(#[trigger] old(list)@[i]),
        forall|i: int|
            0 <= i < final(list)@.len() ==> (#[trigger] final(list)@[i]) == value || old(list)@.contains(final(list)@[i]),
{
    assert forall|i: int| 0 <= i < old(list)@.len() implies final(list)@.contains(
        #[trigger] old(list)@[i],
    ) by {
        assert(old(list)@.contains(old(list)@[i]));
    }
    assert forall|i: int| 0 <= i < final(list)@.len() implies (#[trigger] final(list)@[i])
        == value || old(list)@.contains(final(list)@[i]) by {
        assert(final(list)@.contains(final(list)@[i]));
    }
}

} // verus!
