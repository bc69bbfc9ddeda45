//! Stable sorting of items by a key given beside them: by a number, largest
//! first, or by text, in the order std gives `String`s.

use vstd::prelude::*;

use crate::chars::chars_of;

verus! {

/// Index `i` occurs in `p`.
pub open spec fn covers(p: Seq<int>, i: int) -> bool {
    exists|k: int| 0 <= k < p.len() && p[k] == i
}

/// Index `i` comes before index `j` when sorting by `keys`, largest first:
/// a larger key, or an equal key and an earlier position.
pub open spec fn before_desc(keys: Seq<u128>, i: int, j: int) -> bool {
    ||| keys[i] > keys[j]
    ||| keys[i] == keys[j] && i < j
}

/// `p` lists each of the indices `0..n` once, in the order `before`.
pub open spec fn is_desc_order(p: Seq<int>, keys: Seq<u128>) -> bool {
    &&& p.len() == keys.len()
    &&& forall|k: int| 0 <= k < p.len() ==> 0 <= #[trigger] p[k] < keys.len()
    &&& forall|i: int| 0 <= i < keys.len() ==> #[trigger] covers(p, i)
    &&& forall|k: int, l: int| 0 <= k < l < p.len() ==> before_desc(keys, #[trigger] p[k], #[trigger] p[l])
}

/// `r` is `items` reordered by `keys`, largest first, ties in their order.
pub open spec fn sorted_desc_from<T>(r: Seq<T>, items: Seq<T>, keys: Seq<u128>) -> bool {
    exists|p: Seq<int>| is_desc_order(p, keys) && r == p.map_values(|i: int| items[i])
}

/// Sorts `items` by `keys`, largest first; equal keys keep their order
/// (`sort_by_key` with `Reverse`).
pub fn sort_desc<T>(items: Vec<T>, keys: Vec<u128>) -> (r: Vec<T>)
    requires
        items.len() == keys.len(),
    ensures
        sorted_desc_from(r@, items@, keys@),
{
    let ghost orig = items@;
    let ghost sc = keys@;
    let mut items = items;
    let mut keys = keys;
    let mut out: Vec<T> = Vec::new();
    let mut out_keys: Vec<u128> = Vec::new();
    let ghost mut p: Seq<int> = Seq::empty();
    while items.len() > 0
        invariant
            items.len() == keys.len(),
            sc.len() == orig.len(),
            items.len() <= orig.len(),
            items@ == orig.take(items.len() as int),
            keys@ == sc.take(keys.len() as int),
            out.len() == out_keys.len(),
            out.len() == p.len(),
            p.len() + items.len() == orig.len(),
            forall|k: int|
                0 <= k < p.len() ==> items.len() <= #[trigger] p[k] < orig.len() && sc[p[k]] == out_keys@[k]
                    && out@[k] == orig[p[k]],
            forall|i: int| items.len() <= i < orig.len() ==> #[trigger] covers(p, i),
            forall|k: int, l: int| 0 <= k < l < p.len() ==> before_desc(sc, #[trigger] p[k], #[trigger] p[l]),
        decreases items.len(),
    {
        let item = items.pop().unwrap();
        let v = keys.pop().unwrap();
        let i = items.len();
        assert(item == orig[i as int]);
        assert(v == sc[i as int]);
        let mut pos: usize = 0;
        while pos < out_keys.len() && out_keys[pos] > v
            invariant
                pos <= out_keys.len(),
                forall|k: int| 0 <= k < pos ==> out_keys@[k] > v,
            decreases out_keys.len() - pos,
        {
            pos = pos + 1;
        }
        let ghost old_p = p;
        let ghost old_keys = out_keys@;
        out.insert(pos, item);
        out_keys.insert(pos, v);
        proof {
            p = p.insert(pos as int, i as int);
            assert forall|k: int| pos <= k < old_p.len() implies old_keys[k] <= v by {
                if k > pos {
                    assert(before_desc(sc, old_p[pos as int], old_p[k]));
                }
            }
            assert forall|k: int, l: int| 0 <= k < l < p.len() implies before_desc(
                sc,
                #[trigger] p[k],
                #[trigger] p[l],
            ) by {
                if k < pos && l < pos {
                    assert(before_desc(sc, old_p[k], old_p[l]));
                } else if k < pos && l == pos {
                    assert(sc[old_p[k]] == old_keys[k]);
                } else if k < pos {
                    assert(before_desc(sc, old_p[k], old_p[l - 1]));
                } else if k == pos {
                    assert(sc[old_p[l - 1]] == old_keys[l - 1]);
                } else {
                    assert(before_desc(sc, old_p[k - 1], old_p[l - 1]));
                }
            }
            assert forall|j: int| items.len() <= j < orig.len() implies #[trigger] covers(p, j) by {
                if j == i {
                    assert(p[pos as int] == j);
                } else {
                    assert(covers(old_p, j));
                    let k = choose|k: int| 0 <= k < old_p.len() && old_p[k] == j;
                    if k < pos {
                        assert(p[k] == j);
                    } else {
                        assert(p[k + 1] == j);
                    }
                }
            }
            assert(items@ =~= orig.take(items.len() as int));
            assert(keys@ =~= sc.take(keys.len() as int));
        }
    }
    proof {
        assert(out@ =~= p.map_values(|j: int| orig[j]));
        assert(is_desc_order(p, sc));
    }
    out
}

/// `a` comes strictly before `b` in the order of `String`s: UTF-8 bytes
/// compare as the characters' code points do, so this is the lexicographic
/// order of the characters.
pub open spec fn text_lt(a: Seq<char>, b: Seq<char>) -> bool
    decreases a.len(),
{
    if a.len() == 0 {
        b.len() > 0
    } else if b.len() == 0 {
        false
    } else if a[0] != b[0] {
        a[0] < b[0]
    } else {
        text_lt(a.drop_first(), b.drop_first())
    }
}

/// The order of `String`s is irreflexive and asymmetric.
pub proof fn lemma_text_lt_strict(a: Seq<char>, b: Seq<char>)
    ensures
        !text_lt(a, a),
        !(text_lt(a, b) && text_lt(b, a)),
    decreases a.len(),
{
    if a.len() > 0 && b.len() > 0 {
        lemma_text_lt_strict(a.drop_first(), b.drop_first());
    }
    if a.len() > 0 {
        lemma_text_lt_strict(a.drop_first(), a.drop_first());
    }
}

/// The order of `String`s is total.
pub proof fn lemma_text_lt_total(a: Seq<char>, b: Seq<char>)
    ensures
        a != b ==> text_lt(a, b) || text_lt(b, a),
    decreases a.len(),
{
    if a.len() == 0 {
        if b.len() == 0 {
            assert(a =~= b);
        }
    } else if b.len() > 0 && a[0] == b[0] {
        lemma_text_lt_total(a.drop_first(), b.drop_first());
        if a.drop_first() == b.drop_first() {
            assert(a =~= seq![a[0]] + a.drop_first());
            assert(b =~= seq![b[0]] + b.drop_first());
        }
    }
}

/// The order of `String`s is transitive.
pub proof fn lemma_text_lt_trans(a: Seq<char>, b: Seq<char>, c: Seq<char>)
    requires
        text_lt(a, b),
        text_lt(b, c),
    ensures
        text_lt(a, c),
    decreases a.len(),
{
    if a.len() > 0 && b.len() > 0 && c.len() > 0 && a[0] == b[0] && b[0] == c[0] {
        lemma_text_lt_trans(a.drop_first(), b.drop_first(), c.drop_first());
    }
}

/// `text_lt` on character vectors.
fn chars_lt(a: &Vec<char>, b: &Vec<char>) -> (r: bool)
    ensures
        r == text_lt(a@, b@),
{
    let mut i: usize = 0;
    proof {
        assert(a@.skip(0) =~= a@);
        assert(b@.skip(0) =~= b@);
    }
    while i < a.len() && i < b.len() && a[i] == b[i]
        invariant
            i <= a@.len(),
            i <= b@.len(),
            text_lt(a@, b@) == text_lt(a@.skip(i as int), b@.skip(i as int)),
        decreases a.len() - i,
    {
        proof {
            assert(a@.skip(i as int).drop_first() =~= a@.skip(i + 1));
            assert(b@.skip(i as int).drop_first() =~= b@.skip(i + 1));
        }
        i = i + 1;
    }
    if i == a.len() {
        i < b.len()
    } else if i == b.len() {
        false
    } else {
        a[i] < b[i]
    }
}

/// Index `i` comes before index `j` when sorting by text `keys`: a smaller
/// key, or an equal key and an earlier position.
pub open spec fn before_text(keys: Seq<Seq<char>>, i: int, j: int) -> bool {
    ||| text_lt(keys[i], keys[j])
    ||| keys[i] == keys[j] && i < j
}

/// `p` lists each of the indices `0..n` once, in text order.
pub open spec fn is_text_order(p: Seq<int>, keys: Seq<Seq<char>>) -> bool {
    &&& p.len() == keys.len()
    &&& forall|k: int| 0 <= k < p.len() ==> 0 <= #[trigger] p[k] < keys.len()
    &&& forall|i: int| 0 <= i < keys.len() ==> #[trigger] covers(p, i)
    &&& forall|k: int, l: int| 0 <= k < l < p.len() ==> before_text(keys, #[trigger] p[k], #[trigger] p[l])
}

/// `r` is `items` reordered by text `keys`, ties in their order.
pub open spec fn sorted_text_from<T>(r: Seq<T>, items: Seq<T>, keys: Seq<Seq<char>>) -> bool {
    exists|p: Seq<int>| is_text_order(p, keys) && r == p.map_values(|i: int| items[i])
}

/// Sorts `items` by text `keys`, smallest first; equal keys keep their
/// order (`sort_by_key` on `String`s).
pub fn sort_by_text<T>(items: Vec<T>, keys: Vec<String>) -> (r: Vec<T>)
    requires
        items.len() == keys.len(),
    ensures
        sorted_text_from(r@, items@, keys@.map_values(|k: String| k@)),
{
    let ghost orig = items@;
    let ghost sc = keys@.map_values(|k: String| k@);
    let mut items = items;
    let mut keys = keys;
    let mut out: Vec<T> = Vec::new();
    let mut out_keys: Vec<Vec<char>> = Vec::new();
    let ghost mut p: Seq<int> = Seq::empty();
    while items.len() > 0
        invariant
            items.len() == keys.len(),
            sc.len() == orig.len(),
            items.len() <= orig.len(),
            items@ == orig.take(items.len() as int),
            keys@.map_values(|k: String| k@) == sc.take(keys.len() as int),
            out.len() == out_keys.len(),
            out.len() == p.len(),
            p.len() + items.len() == orig.len(),
            forall|k: int|
                0 <= k < p.len() ==> items.len() <= #[trigger] p[k] < orig.len() && sc[p[k]] == out_keys@[k]@
                    && out@[k] == orig[p[k]],
            forall|i: int| items.len() <= i < orig.len() ==> #[trigger] covers(p, i),
            forall|k: int, l: int| 0 <= k < l < p.len() ==> before_text(sc, #[trigger] p[k], #[trigger] p[l]),
        decreases items.len(),
    {
        let ghost old_key_views = keys@.map_values(|k: String| k@);
        let item = items.pop().unwrap();
        let key = keys.pop().unwrap();
        let i = items.len();
        let v = chars_of(key.as_str());
        proof {
            assert(item == orig[i as int]);
            assert(old_key_views[i as int] == key@);
            assert(v@ == sc[i as int]);
            assert(keys@.map_values(|k: String| k@) =~= sc.take(keys.len() as int));
        }
        let mut pos: usize = 0;
        while pos < out_keys.len() && chars_lt(&out_keys[pos], &v)
            invariant
                pos <= out_keys.len(),
                forall|k: int| 0 <= k < pos ==> text_lt(#[trigger] out_keys@[k]@, v@),
            decreases out_keys.len() - pos,
        {
            pos = pos + 1;
        }
        let ghost old_p = p;
        let ghost old_keys = out_keys@.map_values(|k: Vec<char>| k@);
        assert(forall|k: int| 0 <= k < old_keys.len() ==> old_keys[k] == out_keys@[k]@);
        out.insert(pos, item);
        out_keys.insert(pos, v);
        proof {
            p = p.insert(pos as int, i as int);
            assert forall|k: int| pos <= k < old_p.len() implies !text_lt(old_keys[k], v@) by {
                if k > pos {
                    assert(before_text(sc, old_p[pos as int], old_p[k]));
                    if text_lt(old_keys[k], v@) {
                        lemma_text_lt_trans(old_keys[pos as int], old_keys[k], v@);
                    }
                }
            }
            assert forall|k: int, l: int| 0 <= k < l < p.len() implies before_text(
                sc,
                #[trigger] p[k],
                #[trigger] p[l],
            ) by {
                if k < pos && l < pos {
                    assert(before_text(sc, old_p[k], old_p[l]));
                } else if k < pos && l == pos {
                    assert(sc[old_p[k]] == old_keys[k]);
                } else if k < pos {
                    assert(before_text(sc, old_p[k], old_p[l - 1]));
                } else if k == pos {
                    assert(sc[old_p[l - 1]] == old_keys[l - 1]);
                    lemma_text_lt_total(v@, old_keys[l - 1]);
                } else {
                    assert(before_text(sc, old_p[k - 1], old_p[l - 1]));
                }
            }
            assert forall|j: int| items.len() <= j < orig.len() implies #[trigger] covers(p, j) by {
                if j == i {
                    assert(p[pos as int] == j);
                } else {
                    assert(covers(old_p, j));
                    let k = choose|k: int| 0 <= k < old_p.len() && old_p[k] == j;
                    if k < pos {
                        assert(p[k] == j);
                    } else {
                        assert(p[k + 1] == j);
                    }
                }
            }
            assert(items@ =~= orig.take(items.len() as int));
        }
    }
    proof {
        assert(out@ =~= p.map_values(|j: int| orig[j]));
        assert(is_text_order(p, sc));
    }
    out
}

} // verus!
