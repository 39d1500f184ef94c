use vstd::prelude::*;

verus! {

/// A sort key: an executable strict comparison that agrees with a relation on
/// the keys' mathematical views.
pub trait SortKey: Sized {
    type KeyView;

    spec fn key_view(&self) -> Self::KeyView;

    spec fn view_lt(a: Self::KeyView, b: Self::KeyView) -> bool;

    fn lt(&self, other: &Self) -> (r: bool)
        ensures
            r == Self::view_lt(self.key_view(), other.key_view()),
    ;
}

/// The entries of a keyed list with each key replaced by its view.
pub open spec fn key_views<K: SortKey, T>(s: Seq<(K, T)>) -> Seq<(K::KeyView, T)> {
    s.map_values(|p: (K, T)| (p.0.key_view(), p.1))
}

/// Index at which `x` goes into `s` so that it lands after every entry whose
/// key is not greater than its own: the first entry with a strictly greater key.
pub open spec fn insert_pos<V, T>(s: Seq<(V, T)>, x: (V, T), lt: spec_fn(V, V) -> bool) -> int
    decreases s.len(),
{
    if s.len() == 0 {
        0
    } else if lt(x.0, s[0].0) {
        0
    } else {
        1 + insert_pos(s.drop_first(), x, lt)
    }
}

/// Stable insertion of one keyed entry.
pub open spec fn sorted_insert<V, T>(s: Seq<(V, T)>, x: (V, T), lt: spec_fn(V, V) -> bool) -> Seq<(V, T)> {
    s.insert(insert_pos(s, x, lt), x)
}

/// Stable insertion sort by key: entries with equal keys keep their input order.
pub open spec fn insertion_sorted<V, T>(s: Seq<(V, T)>, lt: spec_fn(V, V) -> bool) -> Seq<(V, T)>
    decreases s.len(),
{
    if s.len() == 0 {
        s
    } else {
        sorted_insert(insertion_sorted(s.drop_last(), lt), s.last(), lt)
    }
}

/// No entry is followed by one with a strictly smaller key.
pub open spec fn sorted_by_key<V, T>(s: Seq<(V, T)>, lt: spec_fn(V, V) -> bool) -> bool {
    forall|i: int, j: int| 0 <= i < j < s.len() ==> !lt(#[trigger] s[j].0, #[trigger] s[i].0)
}

/// The relation is a strict order: irreflexive and transitive.
pub open spec fn strict_order<V>(lt: spec_fn(V, V) -> bool) -> bool {
    &&& forall|a: V| !#[trigger] lt(a, a)
    &&& forall|a: V, b: V, c: V| #[trigger] lt(a, b) && #[trigger] lt(b, c) ==> lt(a, c)
}

proof fn lemma_insert_pos_bounds<V, T>(s: Seq<(V, T)>, x: (V, T), lt: spec_fn(V, V) -> bool)
    ensures
        0 <= insert_pos(s, x, lt) <= s.len(),
        forall|i: int| 0 <= i < insert_pos(s, x, lt) ==> !lt(x.0, #[trigger] s[i].0),
        insert_pos(s, x, lt) < s.len() ==> lt(x.0, s[insert_pos(s, x, lt)].0),
    decreases s.len(),
{
    if s.len() == 0 {
    } else if lt(x.0, s[0].0) {
    } else {
        lemma_insert_pos_bounds(s.drop_first(), x, lt);
        assert forall|i: int| 0 <= i < insert_pos(s, x, lt) implies !lt(x.0, #[trigger] s[i].0) by {
            if i > 0 {
                assert(s[i] == s.drop_first()[i - 1]);
            }
        }
    }
}

/// Inserting into a sorted sequence keeps it sorted (the key relation being transitive).
pub proof fn lemma_sorted_insert_sorted<V, T>(s: Seq<(V, T)>, x: (V, T), lt: spec_fn(V, V) -> bool)
    requires
        strict_order(lt),
        sorted_by_key(s, lt),
    ensures
        sorted_by_key(sorted_insert(s, x, lt), lt),
{
    lemma_insert_pos_bounds(s, x, lt);
    let p = insert_pos(s, x, lt);
    let r = sorted_insert(s, x, lt);
    assert forall|i: int, j: int| 0 <= i < j < r.len() implies !lt(
        #[trigger] r[j].0,
        #[trigger] r[i].0,
    ) by {
        if j < p {
            assert(r[i] == s[i] && r[j] == s[j]);
        } else if j == p {
            assert(r[i] == s[i] && r[j] == x);
        } else if i == p {
            assert(r[i] == x && r[j] == s[j - 1]);
            assert(lt(x.0, s[p].0));
            if lt(s[j - 1].0, x.0) {
                assert(lt(s[j - 1].0, s[p].0));
                if p < j - 1 {
                    assert(!lt(s[j - 1].0, s[p].0));
                }
            }
        } else if i < p {
            assert(r[i] == s[i] && r[j] == s[j - 1]);
            assert(!lt(s[j - 1].0, s[i].0));
        } else {
            assert(r[i] == s[i - 1] && r[j] == s[j - 1]);
            assert(!lt(s[j - 1].0, s[i - 1].0));
        }
    }
}

/// The stable insertion sort returns a sequence sorted by key.
pub proof fn lemma_insertion_sorted_is_sorted<V, T>(s: Seq<(V, T)>, lt: spec_fn(V, V) -> bool)
    requires
        strict_order(lt),
    ensures
        sorted_by_key(insertion_sorted(s, lt), lt),
    decreases s.len(),
{
    if s.len() > 0 {
        lemma_insertion_sorted_is_sorted(s.drop_last(), lt);
        lemma_sorted_insert_sorted(insertion_sorted(s.drop_last(), lt), s.last(), lt);
    }
}

/// The stable insertion sort is a permutation of its input.
pub proof fn lemma_insertion_sorted_permutes<V, T>(s: Seq<(V, T)>, lt: spec_fn(V, V) -> bool)
    ensures
        insertion_sorted(s, lt).to_multiset() =~= s.to_multiset(),
        insertion_sorted(s, lt).len() == s.len(),
    decreases s.len(),
{
    broadcast use vstd::seq_lib::group_to_multiset_ensures;

    if s.len() > 0 {
        let t = insertion_sorted(s.drop_last(), lt);
        lemma_insertion_sorted_permutes(s.drop_last(), lt);
        lemma_insert_pos_bounds(t, s.last(), lt);
        let p = insert_pos(t, s.last(), lt);
        let r = t.insert(p, s.last());
        assert(r.remove(p) =~= t);
        assert(r.to_multiset().remove(s.last()) =~= t.to_multiset());
        assert(r.to_multiset().count(s.last()) > 0) by {
            assert(r[p] == s.last());
            assert(r.contains(s.last()));
        }
        assert(s.drop_last().push(s.last()) =~= s);
        assert(r.to_multiset() =~= t.to_multiset().insert(s.last()));
    }
}

/// The relation a key type sorts by, on key views.
pub open spec fn key_order<K: SortKey>() -> spec_fn(K::KeyView, K::KeyView) -> bool {
    |a: K::KeyView, b: K::KeyView| K::view_lt(a, b)
}

proof fn lemma_key_order_apply<K: SortKey>(a: K::KeyView, b: K::KeyView)
    ensures
        key_order::<K>()(a, b) == K::view_lt(a, b),
{
}

/// Stable insertion sort of keyed entries: with keys taken by their views, the
/// result is exactly `insertion_sorted` of the input.
pub fn stable_sort_by_key<K: SortKey, T>(items: Vec<(K, T)>) -> (res: Vec<(K, T)>)
    ensures
        key_views(res@) == insertion_sorted(key_views(items@), key_order::<K>()),
{
    let ghost lt = key_order::<K>();
    let mut rest = items;
    let mut out: Vec<(K, T)> = Vec::new();
    let ghost orig = key_views(rest@);
    let ghost mut done: int = 0;
    assert(key_views(out@) =~= insertion_sorted(orig.subrange(0, 0), lt));
    while rest.len() > 0
        invariant
            lt == key_order::<K>(),
            0 <= done <= orig.len(),
            key_views(rest@) == orig.subrange(done, orig.len() as int),
            key_views(out@) == insertion_sorted(orig.subrange(0, done), lt),
        decreases rest.len(),
    {
        let ghost rest_before = rest@;
        assert(key_views(rest_before).len() == rest_before.len());
        assert(done < orig.len());
        let x = rest.remove(0);
        let ghost xv = (x.0.key_view(), x.1);
        assert(key_views(rest_before)[0] == xv);
        assert(orig[done] == xv) by {
            assert(orig.subrange(done, orig.len() as int)[0] == orig[done]);
        }
        let ghost ov = key_views(out@);
        proof {
            lemma_insert_pos_bounds(ov, xv, lt);
        }
        let mut pos: usize = 0;
        while pos < out.len()
            invariant
                lt == key_order::<K>(),
                xv == (x.0.key_view(), x.1),
                ov == key_views(out@),
                0 <= pos <= out.len(),
                pos <= insert_pos(ov, xv, lt),
                forall|i: int| 0 <= i < insert_pos(ov, xv, lt) ==> !lt(xv.0, #[trigger] ov[i].0),
                insert_pos(ov, xv, lt) <= ov.len(),
                insert_pos(ov, xv, lt) < ov.len() ==> lt(xv.0, ov[insert_pos(ov, xv, lt)].0),
            ensures
                pos == insert_pos(ov, xv, lt),
            decreases out.len() - pos,
        {
            assert(ov[pos as int].0 == out@[pos as int].0.key_view());
            let b = x.0.lt(&out[pos].0);
            proof {
                lemma_key_order_apply::<K>(xv.0, ov[pos as int].0);
            }
            assert(b == lt(xv.0, ov[pos as int].0));
            if b {
                break;
            }
            pos = pos + 1;
        }
        proof {
            let pre = orig.subrange(0, done + 1);
            assert(pre.drop_last() =~= orig.subrange(0, done));
            assert(pre.last() == xv);
        }
        out.insert(pos, x);
        proof {
            assert(key_views(out@) =~= ov.insert(pos as int, xv));
            assert(key_views(rest@) =~= key_views(rest_before).subrange(1, rest_before.len() as int));
            done = done + 1;
            assert(key_views(rest@) =~= orig.subrange(done, orig.len() as int));
        }
    }
    proof {
        assert(orig.subrange(0, done) =~= orig);
    }
    out
}

/// Mapping two sequences with the same elements (counted with
/// multiplicity) gives sequences with the same elements.
pub proof fn lemma_map_same_multiset<A, B>(s1: Seq<A>, s2: Seq<A>, f: spec_fn(A) -> B)
    requires
        s1.to_multiset() == s2.to_multiset(),
    ensures
        s1.map_values(f).to_multiset() == s2.map_values(f).to_multiset(),
    decreases s1.len(),
{
    broadcast use vstd::seq_lib::group_to_multiset_ensures, vstd::multiset::group_multiset_axioms;

    if s1.len() == 0 {
        assert(s2.to_multiset().len() == 0);
        assert(s1.map_values(f) =~= Seq::<B>::empty());
        assert(s2.map_values(f) =~= Seq::<B>::empty());
    } else {
        let x = s1.last();
        let d1 = s1.drop_last();
        assert(s1 =~= d1.push(x));
        assert(s1.to_multiset() =~= d1.to_multiset().insert(x));
        assert(s1.to_multiset().count(x) > 0);
        assert(s2.contains(x));
        let k = choose|k: int| 0 <= k < s2.len() && s2[k] == x;
        let d2 = s2.remove(k);
        assert(d2.to_multiset() =~= s2.to_multiset().remove(x));
        assert(d1.to_multiset() =~= d1.to_multiset().insert(x).remove(x));
        lemma_map_same_multiset(d1, d2, f);
        assert(s1.map_values(f) =~= d1.map_values(f).push(f(x)));
        assert(d2.map_values(f) =~= s2.map_values(f).remove(k));
        assert(s2.map_values(f)[k] == f(x));
        let m2 = s2.map_values(f).to_multiset();
        assert(d2.map_values(f).to_multiset() =~= m2.remove(f(x)));
        assert(m2.count(f(x)) > 0) by {
            assert(s2.map_values(f).contains(f(x)));
        }
        assert(m2 =~= m2.remove(f(x)).insert(f(x)));
    }
}

/// Two sorted sequences with the same elements are equal, when any two
/// different elements have comparable keys.
pub proof fn lemma_sorted_unique<V, T>(a: Seq<(V, T)>, b: Seq<(V, T)>, lt: spec_fn(V, V) -> bool)
    requires
        a.to_multiset() == b.to_multiset(),
        sorted_by_key(a, lt),
        sorted_by_key(b, lt),
        forall|x: (V, T), y: (V, T)|
            a.contains(x) && a.contains(y) && x != y ==> #[trigger] lt(x.0, y.0) || #[trigger] lt(y.0, x.0),
    ensures
        a == b,
    decreases a.len(),
{
    broadcast use vstd::seq_lib::group_to_multiset_ensures, vstd::multiset::group_multiset_axioms;

    assert(a.len() == a.to_multiset().len());
    assert(b.len() == b.to_multiset().len());
    if a.len() == 0 {
        assert(a =~= b);
    } else {
        let n = a.len() - 1;
        let x = a.last();
        let y = b.last();
        assert(a.to_multiset().count(y) > 0) by {
            assert(b.contains(y));
        }
        assert(b.to_multiset().count(x) > 0) by {
            assert(a.contains(x));
        }
        if x != y {
            let k = choose|k: int| 0 <= k < a.len() && a[k] == y;
            let m = choose|m: int| 0 <= m < b.len() && b[m] == x;
            assert(a.contains(x) && a.contains(y));
            if k < n {
                assert(!lt(a[n].0, a[k].0));
            }
            if m < n {
                assert(!lt(b[n].0, b[m].0));
            }
            assert(lt(x.0, y.0) || lt(y.0, x.0));
        }
        let da = a.drop_last();
        let db = b.drop_last();
        assert(a =~= da.push(x));
        assert(b =~= db.push(x));
        assert(da.to_multiset() =~= a.to_multiset().remove(x));
        assert(db.to_multiset() =~= b.to_multiset().remove(x));
        assert forall|x1: (V, T), y1: (V, T)|
            da.contains(x1) && da.contains(y1) && x1 != y1 implies #[trigger] lt(x1.0, y1.0) || #[trigger] lt(y1.0, x1.0) by {
            let i = choose|i: int| 0 <= i < da.len() && da[i] == x1;
            let j = choose|j: int| 0 <= j < da.len() && da[j] == y1;
            assert(a[i] == x1 && a[j] == y1);
            assert(a.contains(x1) && a.contains(y1));
        }
        assert(sorted_by_key(da, lt)) by {
            assert forall|i: int, j: int| 0 <= i < j < da.len() implies !lt(#[trigger] da[j].0, #[trigger] da[i].0) by {
                assert(da[i] == a[i] && da[j] == a[j]);
            }
        }
        assert(sorted_by_key(db, lt)) by {
            assert forall|i: int, j: int| 0 <= i < j < db.len() implies !lt(#[trigger] db[j].0, #[trigger] db[i].0) by {
                assert(db[i] == b[i] && db[j] == b[j]);
            }
        }
        lemma_sorted_unique(da, db, lt);
    }
}

} // verus!
