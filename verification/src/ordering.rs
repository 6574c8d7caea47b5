//! Stable sorting of window lists by a pair of texts, in the order of
//! `Ord for String`.

use vstd::prelude::*;

use crate::text::{compare_chars, lemma_char_code_injective, text_less};

verus! {

/// A sort key: a primary and a secondary text.
pub type TextKey = (Seq<char>, Seq<char>);

/// The order of keys: by primary text, then by secondary text.
pub open spec fn key_less(a: TextKey, b: TextKey) -> bool {
    text_less(a.0, b.0) || (a.0 == b.0 && text_less(a.1, b.1))
}

/// `items` are in non-decreasing key order.
pub open spec fn sorted_by<T>(items: Seq<T>, key_of: spec_fn(T) -> TextKey) -> bool {
    forall|i: int, j: int| 0 <= i < j < items.len() ==> !key_less(key_of(#[trigger] items[j]), key_of(#[trigger] items[i]))
}

/// The items whose key is `key`, in order.
pub open spec fn having_key<T>(items: Seq<T>, key_of: spec_fn(T) -> TextKey, key: TextKey) -> Seq<T>
    decreases items.len(),
{
    if items.len() == 0 {
        Seq::empty()
    } else {
        let earlier = having_key(items.drop_last(), key_of, key);
        if key_of(items.last()) == key {
            earlier.push(items.last())
        } else {
            earlier
        }
    }
}

/// `sorted` holds the items of `items` in key order, items with equal keys
/// in their original order: for every key, the items with that key are the
/// same, in the same order.
pub open spec fn stably_sorted<T>(sorted: Seq<T>, items: Seq<T>, key_of: spec_fn(T) -> TextKey) -> bool {
    &&& sorted_by(sorted, key_of)
    &&& forall|key: TextKey| #[trigger] having_key(sorted, key_of, key) == having_key(items, key_of, key)
}

/// `text_less` is irreflexive and asymmetric.
pub proof fn lemma_text_less_asymmetric(a: Seq<char>, b: Seq<char>)
    ensures
        !(text_less(a, b) && text_less(b, a)),
        !text_less(a, a),
    decreases a.len(),
{
    if a.len() > 0 && b.len() > 0 && a[0] == b[0] {
        lemma_text_less_asymmetric(a.drop_first(), b.drop_first());
    }
    if a.len() > 0 {
        lemma_text_less_asymmetric(a.drop_first(), a.drop_first());
    }
}

/// `text_less` is transitive.
pub proof fn lemma_text_less_transitive(a: Seq<char>, b: Seq<char>, c: Seq<char>)
    requires
        text_less(a, b),
        text_less(b, c),
    ensures
        text_less(a, c),
    decreases a.len(),
{
    if a.len() > 0 && b.len() > 0 && c.len() > 0 {
        if a[0] == b[0] && b[0] == c[0] {
            lemma_text_less_transitive(a.drop_first(), b.drop_first(), c.drop_first());
        } else if a[0] != c[0] {
        } else {
            assert(a[0] == c[0]);
            if a[0] == b[0] {
            } else {
                assert((a[0] as u32) < (b[0] as u32));
                assert(b[0] != c[0]);
                assert((b[0] as u32) < (c[0] as u32));
            }
        }
    }
}

/// Distinct texts are ordered one way or the other.
pub proof fn lemma_text_less_total(a: Seq<char>, b: Seq<char>)
    requires
        a != b,
    ensures
        text_less(a, b) || text_less(b, a),
    decreases a.len(),
{
    if a.len() > 0 && b.len() > 0 {
        if a[0] == b[0] {
            assert(a.drop_first() != b.drop_first()) by {
                if a.drop_first() == b.drop_first() {
                    assert(a =~= seq![a[0]] + a.drop_first());
                    assert(b =~= seq![b[0]] + b.drop_first());
                }
            }
            lemma_text_less_total(a.drop_first(), b.drop_first());
        } else {
            if (a[0] as u32) == (b[0] as u32) {
                lemma_char_code_injective(a[0], b[0]);
            }
        }
    } else if a.len() == 0 && b.len() == 0 {
        assert(a =~= b);
    }
}

/// `key_less` is a strict total order.
pub proof fn lemma_key_order(a: TextKey, b: TextKey, c: TextKey)
    ensures
        !key_less(a, a),
        !(key_less(a, b) && key_less(b, a)),
        key_less(a, b) && key_less(b, c) ==> key_less(a, c),
        a != b ==> key_less(a, b) || key_less(b, a),
{
    lemma_text_less_asymmetric(a.0, b.0);
    lemma_text_less_asymmetric(a.1, b.1);
    if key_less(a, b) && key_less(b, c) {
        if text_less(a.0, b.0) && text_less(b.0, c.0) {
            lemma_text_less_transitive(a.0, b.0, c.0);
        } else if a.0 == b.0 && b.0 == c.0 {
            lemma_text_less_transitive(a.1, b.1, c.1);
        }
    }
    if a != b {
        if a.0 != b.0 {
            lemma_text_less_total(a.0, b.0);
        } else {
            assert(a.1 != b.1);
            lemma_text_less_total(a.1, b.1);
        }
    }
}

/// Items with a given key split over a concatenation.
proof fn lemma_having_key_append<T>(a: Seq<T>, b: Seq<T>, key_of: spec_fn(T) -> TextKey, key: TextKey)
    ensures
        having_key(a + b, key_of, key) == having_key(a, key_of, key) + having_key(b, key_of, key),
    decreases b.len(),
{
    if b.len() == 0 {
        assert(a + b =~= a);
        assert(having_key(b, key_of, key) =~= Seq::<T>::empty());
        assert(having_key(a, key_of, key) + Seq::<T>::empty() =~= having_key(a, key_of, key));
    } else {
        lemma_having_key_append(a, b.drop_last(), key_of, key);
        assert((a + b).drop_last() =~= a + b.drop_last());
        assert((a + b).last() == b.last());
        let left = having_key(a, key_of, key);
        let right = having_key(b.drop_last(), key_of, key);
        if key_of(b.last()) == key {
            assert(left + right.push(b.last()) =~= (left + right).push(b.last()));
        }
    }
}

/// A sequence none of whose keys is `key` has no item with that key.
proof fn lemma_having_key_none<T>(items: Seq<T>, key_of: spec_fn(T) -> TextKey, key: TextKey)
    requires
        forall|i: int| 0 <= i < items.len() ==> key_of(#[trigger] items[i]) != key,
    ensures
        having_key(items, key_of, key) == Seq::<T>::empty(),
    decreases items.len(),
{
    if items.len() > 0 {
        lemma_having_key_none(items.drop_last(), key_of, key);
        assert(key_of(items[items.len() - 1]) != key);
    }
}

/// Inserting `item` into a sorted sequence before the first item with a
/// greater key keeps it sorted and adds `item` last among the items with
/// its key.
proof fn lemma_insert_sorted<T>(items: Seq<T>, key_of: spec_fn(T) -> TextKey, item: T, pos: int)
    requires
        sorted_by(items, key_of),
        0 <= pos <= items.len(),
        forall|i: int| 0 <= i < pos ==> !key_less(key_of(item), key_of(#[trigger] items[i])),
        forall|i: int| pos <= i < items.len() ==> key_less(key_of(item), key_of(#[trigger] items[i])),
    ensures
        sorted_by(items.insert(pos, item), key_of),
        forall|key: TextKey| #[trigger] having_key(items.insert(pos, item), key_of, key) == if key_of(item)
            == key {
            having_key(items, key_of, key).push(item)
        } else {
            having_key(items, key_of, key)
        },
{
    let result = items.insert(pos, item);
    let kx = key_of(item);
    assert forall|i: int, j: int| 0 <= i < j < result.len() implies !key_less(
        key_of(#[trigger] result[j]),
        key_of(#[trigger] result[i]),
    ) by {
        let ki = key_of(result[i]);
        let kj = key_of(result[j]);
        lemma_key_order(ki, kj, kx);
        lemma_key_order(kj, kx, ki);
        lemma_key_order(kx, kj, ki);
        lemma_key_order(kj, ki, kx);
        if i < pos && j > pos {
            assert(result[i] == items[i]);
            assert(result[j] == items[j - 1]);
            assert(!key_less(kx, ki));
            assert(key_less(kx, kj));
        } else if i < pos && j == pos {
            assert(result[i] == items[i]);
        } else if i == pos {
            assert(result[j] == items[j - 1]);
        } else if j < pos {
            assert(result[i] == items[i] && result[j] == items[j]);
        } else {
            assert(result[i] == items[i - 1] && result[j] == items[j - 1]);
        }
    }
    let before = items.take(pos);
    let after = items.skip(pos);
    assert(items =~= before + after);
    assert(result =~= before + seq![item] + after);
    assert forall|key: TextKey| #[trigger] having_key(result, key_of, key) == if kx == key {
        having_key(items, key_of, key).push(item)
    } else {
        having_key(items, key_of, key)
    } by {
        lemma_having_key_append(before, after, key_of, key);
        lemma_having_key_append(before + seq![item], after, key_of, key);
        lemma_having_key_append(before, seq![item], key_of, key);
        assert(seq![item].drop_last() =~= Seq::<T>::empty());
        assert(seq![item].last() == item);
        let hb = having_key(before, key_of, key);
        let ha = having_key(after, key_of, key);
        let hi = having_key(seq![item], key_of, key);
        assert(having_key(Seq::<T>::empty(), key_of, key) == Seq::<T>::empty());
        assert(having_key(items, key_of, key) == hb + ha);
        assert(having_key(result, key_of, key) == (hb + hi) + ha);
        if kx == key {
            assert forall|i: int| 0 <= i < after.len() implies key_of(#[trigger] after[i]) != key by {
                assert(after[i] == items[pos + i]);
                lemma_key_order(kx, kx, kx);
            }
            lemma_having_key_none(after, key_of, key);
            assert(hi =~= seq![item]);
            assert((hb + hi) + ha =~= hb.push(item));
            assert(hb + ha =~= hb);
        } else {
            assert(hi =~= Seq::<T>::empty());
            assert((hb + hi) + ha =~= hb + ha);
        }
    }
}

/// Sorts `items` stably by the keys `keys`, where `keys[i]` holds the
/// characters of the key of `items[i]`.
pub(crate) fn stable_sort<T>(
    items: Vec<T>,
    keys: Vec<(Vec<char>, Vec<char>)>,
    key_of: Ghost<spec_fn(T) -> TextKey>,
) -> (sorted: Vec<T>)
    requires
        keys@.len() == items@.len(),
        forall|i: int| 0 <= i < items@.len() ==> key_of@(#[trigger] items@[i]) == (keys@[i].0@, keys@[i].1@),
    ensures
        stably_sorted(sorted@, items@, key_of@),
{
    let ghost all = items@;
    let ghost key_fn = key_of@;
    let mut sorted: Vec<T> = Vec::new();
    let mut sorted_keys: Vec<(Vec<char>, Vec<char>)> = Vec::new();
    let mut index: usize = 0;
    let count = items.len();
    for item in it: items.into_iter()
        invariant
            it.seq() == all,
            count == all.len(),
            index == it.index(),
            keys@.len() == all.len(),
            forall|i: int| 0 <= i < all.len() ==> key_fn(#[trigger] all[i]) == (keys@[i].0@, keys@[i].1@),
            sorted_keys@.len() == sorted@.len(),
            forall|i: int| 0 <= i < sorted@.len() ==> key_fn(#[trigger] sorted@[i]) == (sorted_keys@[i].0@, sorted_keys@[i].1@),
            sorted_by(sorted@, key_fn),
            forall|key: TextKey| #[trigger] having_key(sorted@, key_fn, key) == having_key(all.take(index as int), key_fn, key),
    {
        proof {
            assert(all[index as int] == item);
        }
        let ghost kx = key_fn(item);
        let key = &keys[index];
        let mut pos: usize = 0;
        let mut placed = false;
        while pos < sorted_keys.len()
            invariant_except_break
                !placed,
            invariant
                pos <= sorted@.len(),
                sorted_keys@.len() == sorted@.len(),
                kx == (key.0@, key.1@),
                forall|i: int| 0 <= i < sorted@.len() ==> key_fn(#[trigger] sorted@[i]) == (sorted_keys@[i].0@, sorted_keys@[i].1@),
                forall|i: int| 0 <= i < pos ==> !key_less(kx, key_fn(#[trigger] sorted@[i])),
            ensures
                pos <= sorted@.len(),
                forall|i: int| 0 <= i < pos ==> !key_less(kx, key_fn(#[trigger] sorted@[i])),
                placed ==> key_less(kx, key_fn(sorted@[pos as int])),
                !placed ==> pos == sorted@.len(),
            decreases sorted@.len() - pos,
        {
            let first = compare_chars(key.0.as_slice(), sorted_keys[pos].0.as_slice());
            let greater = if first == -1 {
                true
            } else if first == 0 {
                compare_chars(key.1.as_slice(), sorted_keys[pos].1.as_slice()) == -1
            } else {
                false
            };
            if greater {
                placed = true;
                break;
            }
            pos = pos + 1;
        }
        proof {
            if placed {
                assert forall|i: int| pos <= i < sorted@.len() implies key_less(kx, key_fn(#[trigger] sorted@[i])) by {
                    if i > pos {
                        let kp = key_fn(sorted@[pos as int]);
                        let ki = key_fn(sorted@[i]);
                        lemma_key_order(kx, kp, ki);
                        lemma_key_order(ki, kp, kx);
                        if ki != kp {
                            assert(!key_less(ki, kp));
                        }
                    }
                }
            }
            lemma_insert_sorted(sorted@, key_fn, item, pos as int);
            assert(all.take(index + 1).drop_last() =~= all.take(index as int));
            assert(all.take(index + 1).last() == item);
        }
        let key_copy = (clone_chars(&key.0), clone_chars(&key.1));
        sorted.insert(pos, item);
        sorted_keys.insert(pos, key_copy);
        assert(forall|i: int|
            0 <= i < sorted@.len() ==> key_fn(#[trigger] sorted@[i]) == (
                sorted_keys@[i].0@,
                sorted_keys@[i].1@,
            ));
        index = index + 1;
    }
    proof {
        assert(all.take(all.len() as int) =~= all);
    }
    sorted
}

fn clone_chars(chars: &Vec<char>) -> (copy: Vec<char>)
    ensures
        copy@ == chars@,
{
    let mut copy: Vec<char> = Vec::new();
    let mut i: usize = 0;
    while i < chars.len()
        invariant
            i <= chars@.len(),
            copy@ == chars@.take(i as int),
        decreases chars@.len() - i,
    {
        copy.push(chars[i]);
        proof {
            assert(copy@ =~= chars@.take(i + 1));
        }
        i = i + 1;
    }
    proof {
        assert(chars@.take(chars@.len() as int) =~= chars@);
    }
    copy
}

} // verus!
