//! A stable insertion sort for items that carry a sort key.

use vstd::prelude::*;

verus! {

/// An item that is sorted by a key. Keys are totally ordered by `key_before`.
pub trait Keyed: Sized {
    /// What the item is sorted by.
    type Key;

    spec fn key(self) -> Self::Key;

    /// `a` comes strictly before `b`.
    spec fn key_before(a: Self::Key, b: Self::Key) -> bool;

    proof fn key_irreflexive(a: Self::Key)
        ensures
            !Self::key_before(a, a),
    ;

    proof fn key_transitive(a: Self::Key, b: Self::Key, c: Self::Key)
        requires
            Self::key_before(a, b),
            Self::key_before(b, c),
        ensures
            Self::key_before(a, c),
    ;

    proof fn key_total(a: Self::Key, b: Self::Key)
        requires
            a != b,
        ensures
            Self::key_before(a, b) || Self::key_before(b, a),
    ;

    /// Does this item's key come strictly before the other's?
    fn goes_before(&self, other: &Self) -> (r: bool)
        ensures
            r == Self::key_before(self.key(), other.key()),
    ;
}

/// No item comes before one that stands ahead of it.
pub open spec fn in_key_order<T: Keyed>(s: Seq<T>) -> bool {
    forall|i: int, j: int|
        #![trigger s[i], s[j]]
        0 <= i < j < s.len() ==> !T::key_before(s[j].key(), s[i].key())
}

/// The items of `s` with the key `k`, in their order.
pub open spec fn with_key<T: Keyed>(s: Seq<T>, k: T::Key) -> Seq<T> {
    s.filter(|x: T| x.key() == k)
}

/// `output` holds the items of `input` in key order; items with equal keys
/// keep their order. There is exactly one such sequence.
pub open spec fn stably_sorted<T: Keyed>(input: Seq<T>, output: Seq<T>) -> bool {
    &&& in_key_order(output)
    &&& forall|k: T::Key| #[trigger] with_key(output, k) == with_key(input, k)
}

/// Putting `item` in front of everything that does not come before it keeps
/// the order, and puts it first among the items with its key.
proof fn insert_keeps_order<T: Keyed>(out: Seq<T>, pos: int, item: T)
    requires
        in_key_order(out),
        0 <= pos <= out.len(),
        forall|i: int| 0 <= i < pos ==> T::key_before((#[trigger] out[i]).key(), item.key()),
        pos < out.len() ==> !T::key_before(out[pos].key(), item.key()),
    ensures
        in_key_order(out.insert(pos, item)),
        forall|k: T::Key| #[trigger]
            with_key(out.insert(pos, item), k) == with_key(seq![item] + out, k),
{
    let new = out.insert(pos, item);
    assert forall|i: int, j: int| #![trigger new[i], new[j]] 0 <= i < j < new.len() implies
        !T::key_before(new[j].key(), new[i].key()) by {
        if i < pos && j < pos {
            assert(new[i] == out[i] && new[j] == out[j]);
        } else if i < pos && j == pos {
            assert(new[i] == out[i]);
            if T::key_before(item.key(), out[i].key()) {
                T::key_transitive(item.key(), out[i].key(), item.key());
                T::key_irreflexive(item.key());
            }
        } else if i < pos {
            assert(new[i] == out[i] && new[j] == out[j - 1]);
        } else if i == pos {
            assert(new[j] == out[j - 1]);
            if T::key_before(out[j - 1].key(), item.key()) {
                if j - 1 > pos {
                    assert(!T::key_before(out[j - 1].key(), out[pos].key()));
                    if out[pos].key() != out[j - 1].key() {
                        T::key_total(out[pos].key(), out[j - 1].key());
                        T::key_transitive(out[pos].key(), out[j - 1].key(), item.key());
                    }
                }
            }
        } else {
            assert(new[i] == out[i - 1] && new[j] == out[j - 1]);
        }
    }
    assert forall|k: T::Key| #[trigger]
        with_key(new, k) == with_key(seq![item] + out, k) by {
        let p = |x: T| x.key() == k;
        let front = out.take(pos);
        let back = out.skip(pos);
        assert(new =~= front + (seq![item] + back));
        assert(seq![item] + out =~= seq![item] + (front + back));
        assert(front + back =~= out);
        Seq::filter_distributes_over_add(front, seq![item] + back, p);
        Seq::filter_distributes_over_add(seq![item], back, p);
        Seq::filter_distributes_over_add(front, back, p);
        Seq::filter_distributes_over_add(seq![item], front + back, p);
        if k == item.key() {
            assert forall|i: int| 0 <= i < front.len() implies !p(#[trigger] front[i]) by {
                assert(out[i] == front[i]);
                T::key_irreflexive(item.key());
            }
            front.lemma_all_neg_filter_empty(p);
            assert(front.filter(p) =~= Seq::<T>::empty());
            assert(front.filter(p) + seq![item].filter(p) =~= seq![item].filter(p) + front.filter(p));
        } else {
            assert(seq![item].filter(p) =~= Seq::<T>::empty()) by {
                reveal_with_fuel(Seq::filter, 2);
            }
        }
        assert(new.filter(p) =~= (seq![item] + out).filter(p));
    }
}

/// Sorts by key; items with equal keys keep their order.
pub fn stable_sort<T: Keyed>(items: Vec<T>) -> (out: Vec<T>)
    ensures
        stably_sorted(items@, out@),
        out@.len() == items@.len(),
{
    let mut rest: Vec<T> = items;
    let mut out: Vec<T> = Vec::new();
    assert(rest@.skip(rest@.len() as int) =~= out@);
    while rest.len() > 0
        invariant
            rest@.len() <= items@.len(),
            rest@ == items@.take(rest@.len() as int),
            stably_sorted(items@.skip(rest@.len() as int), out@),
            out@.len() == items@.len() - rest@.len(),
        decreases rest@.len(),
    {
        let ghost before = rest@;
        let ghost sorted = out@;
        match rest.pop() {
            Some(item) => {
                let mut pos: usize = 0;
                while pos < out.len() && out[pos].goes_before(&item)
                    invariant
                        pos <= out@.len(),
                        forall|i: int|
                            0 <= i < pos ==> T::key_before((#[trigger] out@[i]).key(), item.key()),
                    decreases out@.len() - pos,
                {
                    pos = pos + 1;
                }
                proof {
                    insert_keeps_order(sorted, pos as int, item);
                    let done = items@.skip(before.len() as int);
                    assert(items@.skip(rest@.len() as int) =~= seq![item] + done);
                    assert forall|k: T::Key| #[trigger]
                        with_key(sorted.insert(pos as int, item), k) == with_key(
                            seq![item] + done,
                            k,
                        ) by {
                        let p = |x: T| x.key() == k;
                        assert(with_key(sorted, k) == with_key(done, k));
                        Seq::filter_distributes_over_add(seq![item], sorted, p);
                        Seq::filter_distributes_over_add(seq![item], done, p);
                    }
                }
                out.insert(pos, item);
            },
            None => {},
        }
    }
    assert(items@.skip(0) =~= items@);
    out
}

/// Sorting keeps the items: what is in the one sequence is in the other.
pub proof fn sorting_keeps_the_items<T: Keyed>(input: Seq<T>, output: Seq<T>)
    requires
        stably_sorted(input, output),
    ensures
        forall|x: T| #[trigger] input.contains(x) <==> output.contains(x),
{
    assert forall|x: T| #[trigger] input.contains(x) <==> output.contains(x) by {
        let p = |y: T| y.key() == x.key();
        assert(with_key(output, x.key()) == with_key(input, x.key()));
        if input.contains(x) {
            let i = choose|i: int| 0 <= i < input.len() && input[i] == x;
            input.lemma_filter_contains(p, i);
            output.lemma_filter_contains_rev(p, x);
        }
        if output.contains(x) {
            let i = choose|i: int| 0 <= i < output.len() && output[i] == x;
            output.lemma_filter_contains(p, i);
            input.lemma_filter_contains_rev(p, x);
        }
    }
}

/// A sequence in key order begins with the first of the items with its key.
proof fn first_with_its_key<T: Keyed>(s: Seq<T>)
    requires
        s.len() > 0,
    ensures
        with_key(s, s[0].key()).len() > 0,
        with_key(s, s[0].key())[0] == s[0],
        forall|k: T::Key| #[trigger]
            with_key(s, k) == with_key(seq![s[0]], k) + with_key(s.drop_first(), k),
{
    assert(s =~= seq![s[0]] + s.drop_first());
    assert forall|k: T::Key| #[trigger]
        with_key(s, k) == with_key(seq![s[0]], k) + with_key(s.drop_first(), k) by {
        Seq::filter_distributes_over_add(seq![s[0]], s.drop_first(), |x: T| x.key() == k);
    }
    let k = s[0].key();
    assert(with_key(s, k) == with_key(seq![s[0]], k) + with_key(s.drop_first(), k));
    reveal_with_fuel(Seq::filter, 2);
    assert(with_key(seq![s[0]], k) =~= seq![s[0]]);
}

/// Only one sequence is the stable sort of another.
pub proof fn stable_sort_is_unique<T: Keyed>(input: Seq<T>, a: Seq<T>, b: Seq<T>)
    requires
        stably_sorted(input, a),
        stably_sorted(input, b),
    ensures
        a == b,
{
    assert forall|k: T::Key| #[trigger] with_key(a, k) == with_key(b, k) by {
        assert(with_key(a, k) == with_key(input, k));
        assert(with_key(b, k) == with_key(input, k));
    }
    same_order_same_items(a, b);
}

/// Two sequences in key order that agree on the items of every key are equal.
proof fn same_order_same_items<T: Keyed>(a: Seq<T>, b: Seq<T>)
    requires
        in_key_order(a),
        in_key_order(b),
        forall|k: T::Key| #[trigger] with_key(a, k) == with_key(b, k),
    ensures
        a == b,
    decreases a.len(),
{
    if a.len() == 0 {
        if b.len() > 0 {
            first_with_its_key(b);
            assert(with_key(a, b[0].key()) == with_key(b, b[0].key()));
            a.lemma_filter_len(|x: T| x.key() == b[0].key());
        }
        assert(a =~= b);
    } else {
        first_with_its_key(a);
        assert(with_key(a, a[0].key()) == with_key(b, a[0].key()));
        b.lemma_filter_len(|x: T| x.key() == a[0].key());
        first_with_its_key(b);
        assert(with_key(a, b[0].key()) == with_key(b, b[0].key()));
        assert(stably_sorted(a, b));
        sorting_keeps_the_items(a, b);
        assert(a.contains(a[0]));
        assert(b.contains(a[0]));
        assert(b.contains(b[0]));
        assert(a.contains(b[0]));
        let i = choose|i: int| 0 <= i < b.len() && b[i] == a[0];
        let j = choose|j: int| 0 <= j < a.len() && a[j] == b[0];
        assert(a[0].key() == b[0].key()) by {
            if a[0].key() != b[0].key() {
                T::key_total(a[0].key(), b[0].key());
                assert(!T::key_before(b[i].key(), b[0].key()));
                assert(!T::key_before(a[j].key(), a[0].key()));
            }
        }
        assert(a[0] == b[0]);
        let ra = a.drop_first();
        let rb = b.drop_first();
        assert(in_key_order(ra)) by {
            assert forall|i: int, j: int| #![trigger ra[i], ra[j]] 0 <= i < j < ra.len() implies
                !T::key_before(ra[j].key(), ra[i].key()) by {
                assert(ra[i] == a[i + 1] && ra[j] == a[j + 1]);
            }
        }
        assert(in_key_order(rb)) by {
            assert forall|i: int, j: int| #![trigger rb[i], rb[j]] 0 <= i < j < rb.len() implies
                !T::key_before(rb[j].key(), rb[i].key()) by {
                assert(rb[i] == b[i + 1] && rb[j] == b[j + 1]);
            }
        }
        assert forall|k: T::Key| #[trigger] with_key(ra, k) == with_key(rb, k) by {
            let head = with_key(seq![a[0]], k);
            assert(with_key(a, k) == head + with_key(ra, k));
            assert(with_key(b, k) == head + with_key(rb, k));
            assert((head + with_key(ra, k)).skip(head.len() as int) =~= with_key(ra, k));
            assert((head + with_key(rb, k)).skip(head.len() as int) =~= with_key(rb, k));
        }
        same_order_same_items(ra, rb);
        assert(a =~= seq![a[0]] + ra);
        assert(b =~= seq![b[0]] + rb);
    }
}

} // verus!
