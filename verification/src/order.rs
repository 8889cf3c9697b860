//! The order in which a JSON object hands out its keys.

use vstd::prelude::*;

verus! {

/// Whether the first text comes before the second in the dictionary order of characters.
pub open spec fn comes_before(left: Seq<char>, right: Seq<char>) -> bool
    decreases left.len(),
{
    if right.len() == 0 {
        false
    } else if left.len() == 0 {
        true
    } else if left[0] != right[0] {
        left[0] < right[0]
    } else {
        comes_before(left.drop_first(), right.drop_first())
    }
}

/// Whether the list holds exactly the keys, each once, in dictionary order.
pub open spec fn is_listing(list: Seq<Seq<char>>, keys: Set<Seq<char>>) -> bool {
    &&& forall|key: Seq<char>| #[trigger] list.contains(key) <==> keys.contains(key)
    &&& forall|i: int, j: int|
        0 <= i < j < list.len() ==> comes_before(#[trigger] list[i], #[trigger] list[j])
}

/// The keys in the order in which an object hands them out.
pub open spec fn key_order(keys: Set<Seq<char>>) -> Seq<Seq<char>> {
    choose|list: Seq<Seq<char>>| is_listing(list, keys)
}

proof fn lemma_comes_before_asymmetric(left: Seq<char>, right: Seq<char>)
    requires
        comes_before(left, right),
    ensures
        !comes_before(right, left),
    decreases left.len(),
{
    if left.len() > 0 && left[0] == right[0] {
        lemma_comes_before_asymmetric(left.drop_first(), right.drop_first());
    }
}

proof fn lemma_listing_unique(left: Seq<Seq<char>>, right: Seq<Seq<char>>, keys: Set<Seq<char>>)
    requires
        is_listing(left, keys),
        is_listing(right, keys),
    ensures
        left == right,
    decreases left.len(),
{
    if left.len() == 0 {
        if right.len() > 0 {
            assert(right.contains(right[0]));
            assert(left.contains(right[0]));
        }
        assert(left =~= right);
    } else {
        assert(left.contains(left[0]));
        assert(right.contains(left[0]));
        let j = choose|j: int| 0 <= j < right.len() && right[j] == left[0];
        assert(right.contains(right[0]));
        assert(left.contains(right[0]));
        let k = choose|k: int| 0 <= k < left.len() && left[k] == right[0];
        if j > 0 {
            assert(comes_before(right[0], right[j]));
            lemma_comes_before_asymmetric(right[0], right[j]);
            if k > 0 {
                assert(comes_before(left[0], left[k]));
            }
        }
        lemma_listing_rest(left, keys);
        lemma_listing_rest(right, keys);
        lemma_listing_unique(left.drop_first(), right.drop_first(), keys.remove(left[0]));
        assert(left =~= seq![left[0]] + left.drop_first());
        assert(right =~= seq![right[0]] + right.drop_first());
    }
}

proof fn lemma_listing_rest(list: Seq<Seq<char>>, keys: Set<Seq<char>>)
    requires
        is_listing(list, keys),
        list.len() > 0,
    ensures
        is_listing(list.drop_first(), keys.remove(list[0])),
{
    let rest = list.drop_first();
    assert forall|key: Seq<char>| #[trigger] rest.contains(key) <==> keys.remove(
        list[0],
    ).contains(key) by {
        if rest.contains(key) {
            let i = choose|i: int| 0 <= i < rest.len() && rest[i] == key;
            assert(list[i + 1] == key);
            assert(list.contains(key));
            assert(comes_before(list[0], list[i + 1]));
            if key == list[0] {
                lemma_comes_before_asymmetric(list[0], list[0]);
            }
        }
        if keys.remove(list[0]).contains(key) {
            assert(list.contains(key));
            let i = choose|i: int| 0 <= i < list.len() && list[i] == key;
            assert(rest[i - 1] == key);
        }
    }
    assert forall|i: int, j: int| 0 <= i < j < rest.len() implies comes_before(
        #[trigger] rest[i],
        #[trigger] rest[j],
    ) by {
        assert(comes_before(list[i + 1], list[j + 1]));
    }
}

proof fn lemma_comes_before_total(left: Seq<char>, right: Seq<char>)
    requires
        left != right,
    ensures
        comes_before(left, right) || comes_before(right, left),
    decreases left.len(),
{
    if left.len() == 0 || right.len() == 0 {
        if left.len() == 0 && right.len() == 0 {
            assert(left =~= right);
        }
    } else if left[0] == right[0] {
        if left.drop_first() == right.drop_first() {
            assert(left =~= seq![left[0]] + left.drop_first());
            assert(right =~= seq![right[0]] + right.drop_first());
        }
        lemma_comes_before_total(left.drop_first(), right.drop_first());
    }
}

proof fn lemma_comes_before_transitive(left: Seq<char>, middle: Seq<char>, right: Seq<char>)
    requires
        comes_before(left, middle),
        comes_before(middle, right),
    ensures
        comes_before(left, right),
    decreases left.len(),
{
    if left.len() > 0 && left[0] == middle[0] && middle[0] == right[0] {
        lemma_comes_before_transitive(
            left.drop_first(),
            middle.drop_first(),
            right.drop_first(),
        );
    }
}

proof fn lemma_listing_with(list: Seq<Seq<char>>, keys: Set<Seq<char>>, key: Seq<char>) -> (longer:
    Seq<Seq<char>>)
    requires
        is_listing(list, keys),
        !keys.contains(key),
    ensures
        is_listing(longer, keys.insert(key)),
    decreases list.len(),
{
    if list.len() == 0 {
        let longer = seq![key];
        assert forall|other: Seq<char>| #[trigger] longer.contains(other) <==> keys.insert(
            key,
        ).contains(other) by {
            assert(longer[0] == key);
            if keys.contains(other) {
                assert(list.contains(other));
            }
        }
        longer
    } else {
        let last = list.last();
        let shorter = list.drop_last();
        assert(list[list.len() - 1] == last);
        assert(list.contains(last));
        assert(last != key);
        if comes_before(last, key) {
            let longer = list.push(key);
            assert forall|i: int, j: int| 0 <= i < j < longer.len() implies comes_before(
                #[trigger] longer[i],
                #[trigger] longer[j],
            ) by {
                if j == list.len() && i < list.len() - 1 {
                    assert(comes_before(list[i], list[list.len() - 1]));
                    lemma_comes_before_transitive(list[i], last, key);
                } else if j < list.len() {
                    assert(comes_before(list[i], list[j]));
                }
            }
            assert forall|other: Seq<char>| #[trigger] longer.contains(other) <==> keys.insert(
                key,
            ).contains(other) by {
                assert(longer[list.len() as int] == key);
                if longer.contains(other) {
                    let i = choose|i: int| 0 <= i < longer.len() && longer[i] == other;
                    if i < list.len() {
                        assert(list[i] == other);
                        assert(list.contains(other));
                    }
                }
                if keys.contains(other) {
                    assert(list.contains(other));
                    let i = choose|i: int| 0 <= i < list.len() && list[i] == other;
                    assert(longer[i] == other);
                }
            }
            longer
        } else {
            lemma_comes_before_total(last, key);
            let shorter_keys = keys.remove(last);
            assert forall|other: Seq<char>| #[trigger] shorter.contains(other)
                <==> shorter_keys.contains(other) by {
                if shorter.contains(other) {
                    let i = choose|i: int| 0 <= i < shorter.len() && shorter[i] == other;
                    assert(list[i] == other);
                    assert(list.contains(other));
                    assert(comes_before(list[i], list[list.len() - 1]));
                    if other == last {
                        lemma_comes_before_asymmetric(last, last);
                    }
                }
                if shorter_keys.contains(other) {
                    assert(list.contains(other));
                    let i = choose|i: int| 0 <= i < list.len() && list[i] == other;
                    assert(shorter[i] == other);
                }
            }
            assert forall|i: int, j: int| 0 <= i < j < shorter.len() implies comes_before(
                #[trigger] shorter[i],
                #[trigger] shorter[j],
            ) by {
                assert(comes_before(list[i], list[j]));
            }
            let inner = lemma_listing_with(shorter, shorter_keys, key);
            let longer = inner.push(last);
            assert forall|i: int, j: int| 0 <= i < j < longer.len() implies comes_before(
                #[trigger] longer[i],
                #[trigger] longer[j],
            ) by {
                if j == inner.len() {
                    assert(inner.contains(inner[i]));
                    if inner[i] != key {
                        assert(shorter.contains(inner[i]));
                        let k = choose|k: int| 0 <= k < shorter.len() && shorter[k] == inner[i];
                        assert(comes_before(list[k], list[list.len() - 1]));
                    }
                } else {
                    assert(comes_before(inner[i], inner[j]));
                }
            }
            assert forall|other: Seq<char>| #[trigger] longer.contains(other) <==> keys.insert(
                key,
            ).contains(other) by {
                assert(longer[inner.len() as int] == last);
                if longer.contains(other) {
                    let i = choose|i: int| 0 <= i < longer.len() && longer[i] == other;
                    if i < inner.len() {
                        assert(inner[i] == other);
                        assert(inner.contains(other));
                    }
                }
                if keys.insert(key).contains(other) && other != last {
                    assert(inner.contains(other));
                    let i = choose|i: int| 0 <= i < inner.len() && inner[i] == other;
                    assert(longer[i] == other);
                }
            }
            longer
        }
    }
}

proof fn lemma_some_listing(keys: Set<Seq<char>>) -> (list: Seq<Seq<char>>)
    requires
        keys.finite(),
    ensures
        is_listing(list, keys),
    decreases keys.len(),
{
    if keys.len() == 0 {
        keys.lemma_len0_is_empty();
        let list = Seq::<Seq<char>>::empty();
        assert(is_listing(list, keys));
        list
    } else {
        let key = keys.choose();
        let rest = keys.remove(key);
        let shorter = lemma_some_listing(rest);
        let list = lemma_listing_with(shorter, rest, key);
        assert(rest.insert(key) =~= keys);
        list
    }
}

/// A list of the keys in dictionary order holds each key once.
pub proof fn lemma_listing_has_no_duplicates(list: Seq<Seq<char>>, keys: Set<Seq<char>>)
    requires
        is_listing(list, keys),
    ensures
        list.no_duplicates(),
{
    assert forall|i: int, j: int| 0 <= i < j < list.len() implies #[trigger] list[i]
        != #[trigger] list[j] by {
        assert(comes_before(list[i], list[j]));
        if list[i] == list[j] {
            lemma_comes_before_asymmetric(list[i], list[j]);
        }
    }
}

/// Keys that can be listed are finitely many.
pub proof fn lemma_listing_is_finite(list: Seq<Seq<char>>, keys: Set<Seq<char>>)
    requires
        is_listing(list, keys),
    ensures
        keys.finite(),
{
    vstd::seq_lib::seq_to_set_is_finite(list);
    assert(keys =~= list.to_set());
}

/// An object hands out exactly its keys.
pub proof fn lemma_key_order_is_listing(keys: Set<Seq<char>>)
    requires
        keys.finite(),
    ensures
        is_listing(key_order(keys), keys),
{
    let list = lemma_some_listing(keys);
    lemma_key_order(list, keys);
}

/// A list of the keys in dictionary order is the order in which an object hands them out.
pub proof fn lemma_key_order(list: Seq<Seq<char>>, keys: Set<Seq<char>>)
    requires
        is_listing(list, keys),
    ensures
        key_order(keys) == list,
{
    lemma_listing_unique(key_order(keys), list, keys);
}

} // verus!
