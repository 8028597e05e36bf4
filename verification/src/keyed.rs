//! Merging lists of items that have a key.

use vstd::prelude::*;

use crate::text::{
    lemma_text_less_asymmetric, lemma_text_less_irreflexive, lemma_text_less_total,
    lemma_text_less_transitive, text_less,
};

verus! {

/// The key of an item: three texts.
pub type Key = (Seq<char>, Seq<char>, Seq<char>);

/// Keys by their first text, then by their second, then by their third.
pub open spec fn key_less(a: Key, b: Key) -> bool {
    if a.0 != b.0 {
        text_less(a.0, b.0)
    } else if a.1 != b.1 {
        text_less(a.1, b.1)
    } else {
        text_less(a.2, b.2)
    }
}

/// An item that has a key.
pub trait Keyed: Sized {
    /// The key of the item.
    spec fn key(&self) -> Key;

    /// Whether the key of one item comes before that of another.
    fn key_before(&self, other: &Self) -> (res: bool)
        ensures
            res == key_less(self.key(), other.key()),
    ;

    /// Whether two items have the same key.
    fn same_key(&self, other: &Self) -> (res: bool)
        ensures
            res == (self.key() == other.key()),
    ;
}

/// Whether the keys of a list ascend strictly.
pub open spec fn keys_ascend<T: Keyed>(list: Seq<T>) -> bool {
    forall|i: int, j: int|
        0 <= i < j < list.len() ==> key_less((#[trigger] list[i]).key(), (#[trigger] list[j]).key())
}

/// Whether the item at `i` is the last of a list with its key.
pub open spec fn last_of_key<T: Keyed>(list: Seq<T>, i: int) -> bool {
    &&& 0 <= i < list.len()
    &&& forall|j: int| i < j < list.len() ==> (#[trigger] list[j]).key() != list[i].key()
}

/// Whether an item is the last of a list with its key.
pub open spec fn is_last<T: Keyed>(list: Seq<T>, x: T) -> bool {
    exists|i: int| #[trigger] last_of_key(list, i) && list[i] == x
}

/// Whether an item of a list has a key.
pub open spec fn has_key<T: Keyed>(list: Seq<T>, key: Key) -> bool {
    exists|j: int| 0 <= j < list.len() && (#[trigger] list[j]).key() == key
}

/// Whether `merged` holds of each key in `list` the last item with it, in the order of keys.
pub open spec fn is_merge<T: Keyed>(list: Seq<T>, merged: Seq<T>) -> bool {
    &&& keys_ascend(merged)
    &&& forall|j: int| 0 <= j < merged.len() ==> #[trigger] is_last(list, merged[j])
    &&& forall|i: int| 0 <= i < list.len() ==> #[trigger] has_key(merged, list[i].key())
}

/// The order of keys is strict and total.
pub proof fn lemma_key_order(a: Key, b: Key, c: Key)
    ensures
        !key_less(a, a),
        key_less(a, b) ==> !key_less(b, a),
        key_less(a, b) && key_less(b, c) ==> key_less(a, c),
        key_less(a, b) || key_less(b, a) || a == b,
{
    lemma_text_facts(a.0, b.0, c.0);
    lemma_text_facts(a.1, b.1, c.1);
    lemma_text_facts(a.2, b.2, c.2);
}

proof fn lemma_text_facts(a: Seq<char>, b: Seq<char>, c: Seq<char>)
    ensures
        !text_less(a, a),
        text_less(a, b) ==> !text_less(b, a),
        text_less(a, b) && text_less(b, c) ==> text_less(a, c),
        text_less(a, b) || text_less(b, a) || a == b,
        a == c && text_less(a, b) ==> !text_less(b, c),
{
    lemma_text_less_irreflexive(a);
    lemma_text_less_total(a, b);
    if text_less(a, b) {
        lemma_text_less_asymmetric(a, b);
        if text_less(b, c) {
            lemma_text_less_transitive(a, b, c);
        }
    }
}

/// Puts an item at its place in a list in the order of keys, unless its key is there.
fn insert_absent<T: Keyed>(list: &mut Vec<T>, item: T)
    requires
        keys_ascend(old(list)@),
    ensures
        keys_ascend(final(list)@),
        forall|x: T| #[trigger]
            final(list)@.contains(x) <==> old(list)@.contains(x) || (x == item && forall|j: int|
                0 <= j < old(list)@.len() ==> (#[trigger] old(list)@[j]).key() != item.key()),
{
    let ghost before = list@;
    let mut p: usize = list.len();
    while p > 0 && item.key_before(&list[p - 1])
        invariant
            p <= list@.len(),
            list@ == before,
            forall|j: int|
                p <= j < before.len() ==> key_less(item.key(), (#[trigger] before[j]).key()),
        decreases p,
    {
        p -= 1;
    }
    if p > 0 && item.same_key(&list[p - 1]) {
        assert(before[p - 1].key() == item.key());
        return;
    }
    proof {
        if p > 0 {
            lemma_key_order(item.key(), before[p - 1].key(), item.key());
            assert(key_less(before[p - 1].key(), item.key()));
        }
        assert forall|j: int| 0 <= j < p implies key_less(
            (#[trigger] before[j]).key(),
            item.key(),
        ) by {
            if j < p - 1 {
                assert(key_less(before[j].key(), before[p - 1].key()));
                lemma_key_order(before[j].key(), before[p - 1].key(), item.key());
            }
        }
        assert forall|j: int| 0 <= j < before.len() implies (#[trigger] before[j]).key()
            != item.key() by {
            lemma_key_order(before[j].key(), item.key(), item.key());
            lemma_key_order(item.key(), before[j].key(), item.key());
        }
    }
    let ghost added = item;
    list.insert(p, item);
    proof {
        let after = list@;
        assert(after =~= before.insert(p as int, added));
        assert forall|i: int, j: int| 0 <= i < j < after.len() implies key_less(
            (#[trigger] after[i]).key(),
            (#[trigger] after[j]).key(),
        ) by {
            let a = if i < p { i } else { i - 1 };
            let b = if j < p { j } else { j - 1 };
            if i == p {
                assert(key_less(added.key(), before[b].key()));
            } else if j == p {
                assert(key_less(before[a].key(), added.key()));
            } else {
                assert(key_less(before[a].key(), before[b].key()));
            }
        }
        assert forall|x: T| #[trigger]
            after.contains(x) <==> before.contains(x) || x == added by {
            if before.contains(x) {
                let i = choose|i: int| 0 <= i < before.len() && before[i] == x;
                let k = if i < p { i } else { i + 1 };
                assert(after[k] == x);
            }
            if x == added {
                assert(after[p as int] == x);
            }
            if after.contains(x) {
                let i = choose|i: int| 0 <= i < after.len() && after[i] == x;
                if i != p {
                    let k = if i < p { i } else { i - 1 };
                    assert(before[k] == x);
                }
            }
        }
    }
}

/// Whether `merged` is the merge of the items of `list` from `from` on.
spec fn merges_from<T: Keyed>(list: Seq<T>, from: int, merged: Seq<T>) -> bool {
    &&& keys_ascend(merged)
    &&& forall|x: T| #[trigger]
        merged.contains(x) <==> exists|i: int|
            from <= i && #[trigger] last_of_key(list, i) && list[i] == x
    &&& forall|i: int| from <= i < list.len() ==> #[trigger] has_key(merged, list[i].key())
}

proof fn lemma_merge_step<T: Keyed>(list: Seq<T>, from: int, before: Seq<T>, after: Seq<T>)
    requires
        0 < from <= list.len(),
        merges_from(list, from, before),
        keys_ascend(after),
        forall|x: T| #[trigger]
            after.contains(x) <==> before.contains(x) || (x == list[from - 1] && forall|j: int|
                0 <= j < before.len() ==> (#[trigger] before[j]).key() != list[from - 1].key()),
    ensures
        merges_from(list, from - 1, after),
{
    let at = from - 1;
    let item = list[at];
    let absent = forall|j: int| 0 <= j < before.len() ==> (#[trigger] before[j]).key() != item.key();
    assert(absent <==> last_of_key(list, at)) by {
        if absent {
            assert forall|j: int| at < j < list.len() implies (#[trigger] list[j]).key()
                != list[at].key() by {
                assert(has_key(before, list[j].key()));
                let k = choose|k: int|
                    0 <= k < before.len() && (#[trigger] before[k]).key() == list[j].key();
                assert(before[k].key() != item.key());
            }
        }
        if last_of_key(list, at) {
            assert forall|j: int| 0 <= j < before.len() implies (#[trigger] before[j]).key()
                != item.key() by {
                assert(before.contains(before[j]));
                let i = choose|i: int|
                    from <= i && #[trigger] last_of_key(list, i) && list[i] == before[j];
                assert(list[i].key() != list[at].key());
            }
        }
    }
    assert forall|x: T| #[trigger]
        after.contains(x) <==> exists|i: int|
            at <= i && #[trigger] last_of_key(list, i) && list[i] == x by {
        if before.contains(x) {
            let i = choose|i: int| from <= i && #[trigger] last_of_key(list, i) && list[i] == x;
            assert(last_of_key(list, i));
        }
        if x == item && absent {
            assert(last_of_key(list, at));
        }
        if exists|i: int| at <= i && #[trigger] last_of_key(list, i) && list[i] == x {
            let i = choose|i: int| at <= i && #[trigger] last_of_key(list, i) && list[i] == x;
            if i != at {
                assert(before.contains(x));
            }
        }
    }
    assert forall|i: int| at <= i < list.len() implies #[trigger] has_key(
        after,
        list[i].key(),
    ) by {
        if i == at && absent {
            assert(after.contains(item));
            let j = choose|j: int| 0 <= j < after.len() && after[j] == item;
            assert(after[j].key() == list[i].key());
        } else {
            if i != at {
                assert(has_key(before, list[i].key()));
            }
            let k = if i == at {
                choose|k: int| 0 <= k < before.len() && (#[trigger] before[k]).key() == item.key()
            } else {
                choose|k: int| 0 <= k < before.len() && (#[trigger] before[k]).key() == list[i].key()
            };
            assert(before.contains(before[k]));
            assert(after.contains(before[k]));
            let j = choose|j: int| 0 <= j < after.len() && after[j] == before[k];
            assert(after[j].key() == list[i].key());
        }
    }
}

/// The items of two lists by key; of the items with one key the last counts.
pub fn merge_by_key<T: Keyed>(first: Vec<T>, second: Vec<T>) -> (res: Vec<T>)
    ensures
        is_merge(first@ + second@, res@),
{
    let ghost all = first@ + second@;
    let mut first = first;
    let mut second = second;
    let ghost head = first@;
    let mut merged: Vec<T> = Vec::new();
    assert(all.take(head.len() as int) =~= head);
    assert(all.skip(head.len() as int) =~= second@);
    while second.len() > 0
        invariant
            all.len() == head.len() + all.skip(head.len() as int).len(),
            first@ == head,
            head.len() + second@.len() <= all.len(),
            all.subrange(head.len() as int, (head.len() + second@.len()) as int) == second@,
            merges_from(all, (head.len() + second@.len()) as int, merged@),
        decreases second@.len(),
    {
        let ghost from = head.len() + second@.len();
        let ghost before = merged@;
        let ghost whole = second@;
        assert(whole[whole.len() - 1] == all[from - 1]);
        match second.pop() {
            Some(item) => {
                assert(item == all[from - 1]);
                insert_absent(&mut merged, item);
                proof {
                    lemma_merge_step(all, from as int, before, merged@);
                }
            },
            None => {},
        }
        assert(second@ =~= whole.drop_last());
        assert(all.subrange(head.len() as int, (head.len() + second@.len()) as int) =~= second@);
    }
    while first.len() > 0
        invariant
            first@.len() <= all.len(),
            all.take(first@.len() as int) == first@,
            merges_from(all, first@.len() as int, merged@),
        decreases first@.len(),
    {
        let ghost from = first@.len();
        let ghost before = merged@;
        let ghost whole = first@;
        assert(whole[whole.len() - 1] == all[from - 1]);
        match first.pop() {
            Some(item) => {
                assert(item == all[from - 1]);
                insert_absent(&mut merged, item);
                proof {
                    lemma_merge_step(all, from as int, before, merged@);
                }
            },
            None => {},
        }
        assert(first@ =~= whole.drop_last());
        assert(all.take(first@.len() as int) =~= first@);
    }
    proof {
        assert forall|j: int| 0 <= j < merged@.len() implies #[trigger] is_last(
            all,
            merged@[j],
        ) by {
            assert(merged@.contains(merged@[j]));
        }
        assert forall|i: int| 0 <= i < all.len() implies #[trigger] has_key(
            merged@,
            all[i].key(),
        ) by {}
    }
    merged
}

/// A list has one merge.
pub proof fn law_merge_unique<T: Keyed>(list: Seq<T>, a: Seq<T>, b: Seq<T>)
    requires
        is_merge(list, a),
        is_merge(list, b),
    ensures
        a == b,
{
    assert forall|k: int| 0 <= k < a.len() implies k < b.len() && #[trigger] a[k] == b[k] by {
        lemma_merge_prefix(list, a, b, k);
    }
    if a.len() < b.len() {
        lemma_merge_prefix(list, b, a, a.len() as int);
    }
    if b.len() < a.len() {
        lemma_merge_prefix(list, a, b, b.len() as int);
    }
    assert(a =~= b);
}

/// Items of two merges of one list that have the same key are the same.
proof fn lemma_same_key_same_item<T: Keyed>(list: Seq<T>, a: Seq<T>, b: Seq<T>, i: int, j: int)
    requires
        is_merge(list, a),
        is_merge(list, b),
        0 <= i < a.len(),
        0 <= j < b.len(),
        a[i].key() == b[j].key(),
    ensures
        a[i] == b[j],
{
    assert(is_last(list, a[i]));
    assert(is_last(list, b[j]));
    let p = choose|p: int| #[trigger] last_of_key(list, p) && list[p] == a[i];
    let q = choose|q: int| #[trigger] last_of_key(list, q) && list[q] == b[j];
    if p < q {
        assert(list[q].key() != list[p].key());
    }
    if q < p {
        assert(list[p].key() != list[q].key());
    }
}

proof fn lemma_merge_prefix<T: Keyed>(list: Seq<T>, a: Seq<T>, b: Seq<T>, k: int)
    requires
        is_merge(list, a),
        is_merge(list, b),
        0 <= k < a.len(),
    ensures
        k < b.len(),
        a[k] == b[k],
    decreases k,
{
    if k > 0 {
        lemma_merge_prefix(list, a, b, k - 1);
    }
    // The key of a[k] is in b, behind the first k keys.
    assert(is_last(list, a[k]));
    let p = choose|p: int| #[trigger] last_of_key(list, p) && list[p] == a[k];
    assert(has_key(b, list[p].key()));
    let j = choose|j: int| 0 <= j < b.len() && (#[trigger] b[j]).key() == list[p].key();
    assert(b[j].key() == a[k].key());
    if j < k {
        lemma_merge_prefix(list, a, b, j);
        assert(key_less(a[j].key(), a[k].key()));
        lemma_key_order(a[j].key(), a[k].key(), a[k].key());
    }
    assert(k < b.len());
    // The key of b[k] is in a, and not before position k.
    assert(is_last(list, b[k]));
    let q = choose|q: int| #[trigger] last_of_key(list, q) && list[q] == b[k];
    assert(has_key(a, list[q].key()));
    let i = choose|i: int| 0 <= i < a.len() && (#[trigger] a[i]).key() == list[q].key();
    assert(a[i].key() == b[k].key());
    if i < k {
        lemma_merge_prefix(list, a, b, i);
        assert(key_less(b[i].key(), b[k].key()));
        lemma_key_order(b[i].key(), b[k].key(), b[k].key());
    }
    if j > k {
        assert(key_less(b[k].key(), b[j].key()));
        if i > k {
            assert(key_less(a[k].key(), a[i].key()));
        }
        lemma_key_order(a[k].key(), b[k].key(), a[k].key());
        lemma_key_order(b[k].key(), a[k].key(), b[k].key());
        lemma_key_order(a[k].key(), a[k].key(), a[k].key());
    }
    lemma_same_key_same_item(list, a, b, k, k);
}

/// Merging replaces an item by a later one with the same key: the last item of each key is
/// in the merge.
pub proof fn law_last_item_wins<T: Keyed>(list: Seq<T>, merged: Seq<T>, i: int)
    requires
        is_merge(list, merged),
        last_of_key(list, i),
    ensures
        merged.contains(list[i]),
{
    assert(has_key(merged, list[i].key()));
    let j = choose|j: int| 0 <= j < merged.len() && (#[trigger] merged[j]).key() == list[i].key();
    assert(is_last(list, merged[j]));
    let p = choose|p: int| #[trigger] last_of_key(list, p) && list[p] == merged[j];
    if p < i {
        assert(list[i].key() != list[p].key());
    }
    if i < p {
        assert(list[p].key() != list[i].key());
    }
    assert(merged[j] == list[i]);
}

/// A merge merges to itself.
pub proof fn law_merge_idempotent<T: Keyed>(list: Seq<T>, merged: Seq<T>)
    requires
        is_merge(list, merged),
    ensures
        is_merge(merged, merged),
{
    assert forall|j: int| 0 <= j < merged.len() implies #[trigger] is_last(merged, merged[j]) by {
        assert forall|k: int| j < k < merged.len() implies (#[trigger] merged[k]).key()
            != merged[j].key() by {
            assert(key_less(merged[j].key(), merged[k].key()));
            lemma_key_order(merged[j].key(), merged[k].key(), merged[j].key());
        }
        assert(last_of_key(merged, j));
    }
    assert forall|i: int| 0 <= i < merged.len() implies #[trigger] has_key(
        merged,
        merged[i].key(),
    ) by {}
}

/// Keys are in the order of their first texts; where these agree, of their second; where these
/// agree too, of their third.
pub proof fn law_keys_in_order(a: Key, b: Key)
    ensures
        key_less(a, b) <==> text_less(a.0, b.0) || (a.0 == b.0 && text_less(a.1, b.1)) || (a.0 == b.0
            && a.1 == b.1 && text_less(a.2, b.2)),
{
    crate::text::lemma_text_less_irreflexive(a.0);
    crate::text::lemma_text_less_irreflexive(a.1);
}

} // verus!
