//! The order of strings (by character, which for UTF-8 text is the order
//! of `str`'s byte-wise comparison) and a stable sort by string keys.
use vstd::prelude::*;

verus! {

/// Whether `a` comes strictly before `b`, character by character, a
/// proper prefix first.
pub open spec fn seq_less(a: Seq<char>, b: Seq<char>) -> bool
    decreases a.len(),
{
    if a.len() == 0 {
        b.len() > 0
    } else if b.len() == 0 {
        false
    } else if (a[0] as u32) < (b[0] as u32) {
        true
    } else if a[0] == b[0] {
        seq_less(a.drop_first(), b.drop_first())
    } else {
        false
    }
}

pub proof fn lemma_less_irreflexive(a: Seq<char>)
    ensures
        !seq_less(a, a),
    decreases a.len(),
{
    if a.len() > 0 {
        lemma_less_irreflexive(a.drop_first());
    }
}

pub proof fn lemma_less_asymmetric(a: Seq<char>, b: Seq<char>)
    ensures
        !(seq_less(a, b) && seq_less(b, a)),
    decreases a.len(),
{
    if a.len() > 0 && b.len() > 0 && a[0] == b[0] {
        lemma_less_asymmetric(a.drop_first(), b.drop_first());
    }
}

pub proof fn lemma_less_transitive(a: Seq<char>, b: Seq<char>, c: Seq<char>)
    requires
        seq_less(a, b),
        seq_less(b, c),
    ensures
        seq_less(a, c),
    decreases a.len(),
{
    if a.len() > 0 && b.len() > 0 && c.len() > 0 && a[0] == b[0] && b[0] == c[0] {
        lemma_less_transitive(a.drop_first(), b.drop_first(), c.drop_first());
    }
}

pub proof fn lemma_less_total(a: Seq<char>, b: Seq<char>)
    ensures
        a == b || seq_less(a, b) || seq_less(b, a),
    decreases a.len(),
{
    if a.len() > 0 && b.len() > 0 {
        if a[0] == b[0] {
            lemma_less_total(a.drop_first(), b.drop_first());
            if a.drop_first() == b.drop_first() {
                assert(a =~= seq![a[0]] + a.drop_first());
                assert(b =~= seq![b[0]] + b.drop_first());
            }
        } else {
            vstd::utf8::char_u32_cast(a[0], a[0] as u32);
            vstd::utf8::char_u32_cast(b[0], b[0] as u32);
            assert((a[0] as u32) != (b[0] as u32));
        }
    } else if a.len() == 0 && b.len() == 0 {
        assert(a =~= b);
    }
}

/// Whether `a` comes strictly before `b`.
pub fn chars_less(a: &[char], b: &[char]) -> (r: bool)
    ensures
        r == seq_less(a@, b@),
{
    let mut i: usize = 0;
    assert(a@.skip(0) =~= a@);
    assert(b@.skip(0) =~= b@);
    while i < a.len() && i < b.len()
        invariant
            i <= a.len(),
            i <= b.len(),
            seq_less(a@, b@) == seq_less(a@.skip(i as int), b@.skip(i as int)),
        decreases a.len() - i,
    {
        let x = a[i];
        let y = b[i];
        let ghost sa = a@.skip(i as int);
        let ghost sb = b@.skip(i as int);
        assert(sa[0] == x && sb[0] == y);
        if (x as u32) < (y as u32) {
            return true;
        }
        if x != y {
            return false;
        }
        assert(sa.drop_first() =~= a@.skip(i + 1));
        assert(sb.drop_first() =~= b@.skip(i + 1));
        i = i + 1;
    }
    let ghost sa = a@.skip(i as int);
    let ghost sb = b@.skip(i as int);
    assert(sa.len() == 0 || sb.len() == 0);
    i == a.len() && i < b.len()
}

/// `order` lists distinct indices of `keys`, in an order in which no key
/// comes before its predecessor's, and equal keys keep their index order.
pub open spec fn stably_sorted(keys: Seq<Seq<char>>, order: Seq<usize>) -> bool {
    &&& forall|i: int| 0 <= i < order.len() ==> order[i] < keys.len()
    &&& forall|i: int, j: int| 0 <= i < j < order.len() ==> order[i] != order[j]
    &&& forall|i: int, j: int|
        0 <= i < j < order.len() ==> !seq_less(keys[order[j] as int], keys[order[i] as int])
    &&& forall|i: int, j: int|
        0 <= i < j < order.len() && keys[order[i] as int] == keys[order[j] as int] ==> order[i]
            < order[j]
}

/// The order in which a stable sort by `keys` places the indices of `keys`.
pub fn sorted_order(keys: &Vec<Vec<char>>) -> (r: Vec<usize>)
    ensures
        r@.len() == keys@.len(),
        stably_sorted(keys@.map_values(|k: Vec<char>| k@), r@),
{
    let ghost ks = keys@.map_values(|k: Vec<char>| k@);
    let mut r: Vec<usize> = Vec::new();
    let mut k: usize = 0;
    while k < keys.len()
        invariant
            k <= keys.len(),
            ks == keys@.map_values(|k: Vec<char>| k@),
            r@.len() == k,
            forall|i: int| 0 <= i < r@.len() ==> r@[i] < k,
            stably_sorted(ks, r@),
        decreases keys.len() - k,
    {
        // find the insertion point: after every entry whose key is not greater
        let mut p: usize = r.len();
        while p > 0 && chars_less(keys[k].as_slice(), keys[r[p - 1]].as_slice())
            invariant
                p <= r@.len(),
                k < keys.len(),
                r@.len() == k,
                ks == keys@.map_values(|k: Vec<char>| k@),
                forall|i: int| 0 <= i < r@.len() ==> r@[i] < k,
                forall|i: int| p <= i < r@.len() ==> seq_less(ks[k as int], ks[r@[i] as int]),
            decreases p,
        {
            assert(ks[k as int] == keys@[k as int]@);
            assert(ks[r@[p - 1] as int] == keys@[r@[p - 1] as int]@);
            p = p - 1;
        }
        assert(ks[k as int] == keys@[k as int]@);
        proof {
            if p > 0 {
                assert(ks[r@[p - 1] as int] == keys@[r@[p - 1] as int]@);
                assert(!seq_less(ks[k as int], ks[r@[p - 1] as int]));
            }
        }
        let ghost old_r = r@;
        r.insert(p, k);
        proof {
            assert(r@ == old_r.insert(p as int, k));
            assert forall|i: int, j: int| 0 <= i < j < r@.len() implies !seq_less(
                ks[r@[j] as int],
                ks[r@[i] as int],
            ) by {
                if i < p && j == p {
                    // old_r[i] is not after old_r[p - 1], which is not after k
                    if i < p - 1 {
                        if seq_less(ks[k as int], ks[old_r[i] as int]) {
                            lemma_less_total(ks[old_r[i] as int], ks[old_r[p - 1] as int]);
                            if seq_less(ks[old_r[p - 1] as int], ks[old_r[i] as int]) {
                            } else if ks[old_r[i] as int] == ks[old_r[p - 1] as int] {
                            } else {
                                lemma_less_transitive(
                                    ks[k as int],
                                    ks[old_r[i] as int],
                                    ks[old_r[p - 1] as int],
                                );
                            }
                        }
                    }
                } else if i == p && j > p {
                    lemma_less_asymmetric(ks[k as int], ks[old_r[j - 1] as int]);
                } else if i < p && j > p {
                    assert(r@[i] == old_r[i]);
                    assert(r@[j] == old_r[j - 1]);
                } else if i > p {
                    assert(r@[i] == old_r[i - 1]);
                    assert(r@[j] == old_r[j - 1]);
                } else {
                    assert(r@[i] == old_r[i]);
                    assert(r@[j] == old_r[j]);
                }
            }
            assert forall|i: int, j: int|
                0 <= i < j < r@.len() && ks[r@[i] as int] == ks[r@[j] as int] implies r@[i]
                < r@[j] by {
                if i < p && j == p {
                } else if i == p && j > p {
                    lemma_less_irreflexive(ks[k as int]);
                } else if i < p && j > p {
                    assert(r@[i] == old_r[i]);
                    assert(r@[j] == old_r[j - 1]);
                } else if i > p {
                    assert(r@[i] == old_r[i - 1]);
                    assert(r@[j] == old_r[j - 1]);
                } else {
                    assert(r@[i] == old_r[i]);
                    assert(r@[j] == old_r[j]);
                }
            }
            assert forall|i: int, j: int| 0 <= i < j < r@.len() implies r@[i] != r@[j] by {
                if i < p && j == p {
                } else if i == p && j > p {
                } else if i < p && j > p {
                    assert(r@[i] == old_r[i]);
                    assert(r@[j] == old_r[j - 1]);
                } else if i > p {
                    assert(r@[i] == old_r[i - 1]);
                    assert(r@[j] == old_r[j - 1]);
                } else {
                    assert(r@[i] == old_r[i]);
                    assert(r@[j] == old_r[j]);
                }
            }
            assert forall|i: int| 0 <= i < r@.len() implies r@[i] < k + 1 by {
                if i < p {
                    assert(r@[i] == old_r[i]);
                } else if i > p {
                    assert(r@[i] == old_r[i - 1]);
                }
            }
        }
        k = k + 1;
    }
    r
}

/// `out` is `items` stably sorted by `keys`, the key of each item: a
/// permutation of `items` in which no key comes before a smaller one and
/// items with equal keys keep their order.
pub open spec fn is_stable_sort<T>(out: Seq<T>, items: Seq<T>, keys: Seq<Seq<char>>) -> bool {
    exists|order: Seq<usize>|
        #[trigger] stably_sorted(keys, order) && order.len() == items.len() && out.len()
            == items.len() && forall|i: int| 0 <= i < out.len() ==> out[i] == items[order[i] as int]
}

/// A stable sort leaves out no item: each item stands somewhere in the
/// sorted sequence.
pub proof fn lemma_stable_sort_keeps_items<T>(out: Seq<T>, items: Seq<T>, keys: Seq<Seq<char>>)
    requires
        is_stable_sort(out, items, keys),
        keys.len() == items.len(),
    ensures
        forall|j: int| 0 <= j < items.len() ==> out.contains(#[trigger] items[j]),
{
    let order = choose|order: Seq<usize>|
        #[trigger] stably_sorted(keys, order) && order.len() == items.len() && out.len()
            == items.len() && forall|i: int| 0 <= i < out.len() ==> out[i] == items[order[i] as int];
    let n = items.len() as int;
    let ords = order.map_values(|x: usize| x as int);
    assert(ords.no_duplicates()) by {
        assert forall|a: int, b: int| 0 <= a < ords.len() && 0 <= b < ords.len() && a != b implies ords[a]
            != ords[b] by {
            if a < b {
                assert(order[a] != order[b]);
            } else {
                assert(order[b] != order[a]);
            }
        }
    }
    ords.unique_seq_to_set();
    vstd::set_lib::lemma_int_range(0, n);
    let whole = vstd::set_lib::set_int_range(0, n);
    assert(ords.to_set().subset_of(whole)) by {
        assert forall|x: int| ords.to_set().contains(x) implies whole.contains(x) by {
            let i = choose|i: int| 0 <= i < ords.len() && ords[i] == x;
            assert(order[i] < keys.len());
        }
    }
    vstd::set_lib::lemma_subset_equality(ords.to_set(), whole);
    assert forall|j: int| 0 <= j < items.len() implies out.contains(#[trigger] items[j]) by {
        assert(whole.contains(j));
        assert(ords.to_set().contains(j));
        let i = choose|i: int| 0 <= i < ords.len() && ords[i] == j;
        assert(out[i] == items[j]);
    }
}

} // verus!
