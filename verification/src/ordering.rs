//! Stable sorting of records by a text key (a slug, a path), as
//! `sort_by(|a, b| a.key.cmp(&b.key))` orders them.

use vstd::prelude::*;

use crate::text::{lemma_seq_lt_irreflexive, lemma_seq_lt_total, lemma_seq_lt_transitive, seq_lt, str_lt};

verus! {

/// Records ordered by a text key.
pub trait Keyed: Sized {
    spec fn key_of(&self) -> Seq<char>;

    fn key(&self) -> (k: &str)
        ensures
            k@ == self.key_of(),
    ;
}

/// Where `x` goes among records sorted by key: after every record whose key
/// is not above its own, so equal keys keep their arrival order.
pub open spec fn key_pos<T: Keyed>(t: Seq<T>, x: T) -> int
    decreases t.len(),
{
    if t.len() == 0 {
        0
    } else if seq_lt(x.key_of(), t[0].key_of()) {
        0
    } else {
        1 + key_pos(t.drop_first(), x)
    }
}

/// The stable sort of the records by key.
pub open spec fn sort_by_key_spec<T: Keyed>(s: Seq<T>) -> Seq<T>
    decreases s.len(),
{
    if s.len() == 0 {
        seq![]
    } else {
        let t = sort_by_key_spec(s.drop_last());
        t.insert(key_pos(t, s.last()), s.last())
    }
}

pub proof fn lemma_key_pos<T: Keyed>(t: Seq<T>, x: T)
    ensures
        0 <= key_pos(t, x) <= t.len(),
        forall|i: int| 0 <= i < key_pos(t, x) ==> !seq_lt(x.key_of(), #[trigger] t[i].key_of()),
        key_pos(t, x) < t.len() ==> seq_lt(x.key_of(), t[key_pos(t, x)].key_of()),
    decreases t.len(),
{
    if t.len() > 0 && !seq_lt(x.key_of(), t[0].key_of()) {
        lemma_key_pos(t.drop_first(), x);
        assert forall|i: int| 0 <= i < key_pos(t, x) implies !seq_lt(
            x.key_of(),
            #[trigger] t[i].key_of(),
        ) by {
            if i > 0 {
                assert(t[i] == t.drop_first()[i - 1]);
            }
        }
    }
}

/// Sorts records by key, keeping the order of equal keys.
pub fn sort_by_key<T: Keyed>(v: Vec<T>) -> (r: Vec<T>)
    ensures
        r@ == sort_by_key_spec(v@),
{
    let ghost input = v@;
    let mut rest = v;
    let mut out: Vec<T> = Vec::new();
    let mut k: usize = 0;
    let n = rest.len();
    assert(rest@ =~= input.skip(0));
    while rest.len() > 0
        invariant
            k <= n,
            n == input.len(),
            rest@ == input.skip(k as int),
            out@ == sort_by_key_spec(input.take(k as int)),
        decreases rest@.len(),
    {
        assert(input.take(k + 1).drop_last() =~= input.take(k as int));
        let x = rest.remove(0);
        assert(input.skip(k as int).drop_first() =~= input.skip(k + 1));
        assert(x == input[k as int]);
        let ghost t = out@;
        proof {
            lemma_key_pos(t, x);
        }
        let mut pos: usize = 0;
        assert(t.skip(0) =~= t);
        while pos < out.len() && !str_lt(x.key(), out[pos].key())
            invariant
                pos <= out@.len(),
                t == out@,
                key_pos(t, x) == pos + key_pos(t.skip(pos as int), x),
            decreases out@.len() - pos,
        {
            assert(t.skip(pos as int)[0] == out@[pos as int]);
            assert(t.skip(pos as int).drop_first() =~= t.skip(pos + 1));
            pos = pos + 1;
        }
        proof {
            if pos < out@.len() {
                assert(t.skip(pos as int)[0] == out@[pos as int]);
            }
        }
        out.insert(pos, x);
        k = k + 1;
    }
    assert(input.take(k as int) =~= input);
    out
}

// ─── The same sort over plain values ────────────────────────────────────────

pub open spec fn vkey_pos<V>(t: Seq<V>, x: V, key: spec_fn(V) -> Seq<char>) -> int
    decreases t.len(),
{
    if t.len() == 0 {
        0
    } else if seq_lt(key(x), key(t[0])) {
        0
    } else {
        1 + vkey_pos(t.drop_first(), x, key)
    }
}

/// The stable sort of values by a text key.
pub open spec fn vsort<V>(s: Seq<V>, key: spec_fn(V) -> Seq<char>) -> Seq<V>
    decreases s.len(),
{
    if s.len() == 0 {
        seq![]
    } else {
        let t = vsort(s.drop_last(), key);
        t.insert(vkey_pos(t, s.last(), key), s.last())
    }
}

pub proof fn lemma_pos_view<T: Keyed, V>(
    t: Seq<T>,
    x: T,
    f: spec_fn(T) -> V,
    key: spec_fn(V) -> Seq<char>,
)
    requires
        forall|y: T| #[trigger] y.key_of() == key(f(y)),
    ensures
        key_pos(t, x) == vkey_pos(t.map_values(f), f(x), key),
    decreases t.len(),
{
    if t.len() > 0 {
        assert(t.map_values(f)[0] == f(t[0]));
        assert(t[0].key_of() == key(f(t[0])));
        assert(x.key_of() == key(f(x)));
        assert(t.drop_first().map_values(f) =~= t.map_values(f).drop_first());
        lemma_pos_view(t.drop_first(), x, f, key);
    }
}

/// Sorting records and then viewing them is sorting their views by the
/// corresponding key.
pub proof fn lemma_sort_view<T: Keyed, V>(s: Seq<T>, f: spec_fn(T) -> V, key: spec_fn(V) -> Seq<char>)
    requires
        forall|y: T| #[trigger] y.key_of() == key(f(y)),
    ensures
        sort_by_key_spec(s).map_values(f) == vsort(s.map_values(f), key),
    decreases s.len(),
{
    if s.len() > 0 {
        lemma_sort_view(s.drop_last(), f, key);
        let t = sort_by_key_spec(s.drop_last());
        lemma_pos_view(t, s.last(), f, key);
        lemma_key_pos(t, s.last());
        assert(s.drop_last().map_values(f) =~= s.map_values(f).drop_last());
        assert(s.map_values(f).last() == f(s.last()));
        assert(t.insert(key_pos(t, s.last()), s.last()).map_values(f) =~= t.map_values(f).insert(
            key_pos(t, s.last()),
            f(s.last()),
        ));
    } else {
        assert(s.map_values(f) =~= Seq::<V>::empty());
        assert(sort_by_key_spec(s).map_values(f) =~= Seq::<V>::empty());
    }
}

pub proof fn lemma_vkey_pos<V>(t: Seq<V>, x: V, key: spec_fn(V) -> Seq<char>)
    ensures
        0 <= vkey_pos(t, x, key) <= t.len(),
        forall|i: int| 0 <= i < vkey_pos(t, x, key) ==> !seq_lt(key(x), key(#[trigger] t[i])),
        vkey_pos(t, x, key) < t.len() ==> seq_lt(key(x), key(t[vkey_pos(t, x, key)])),
    decreases t.len(),
{
    if t.len() > 0 && !seq_lt(key(x), key(t[0])) {
        lemma_vkey_pos(t.drop_first(), x, key);
        assert forall|i: int| 0 <= i < vkey_pos(t, x, key) implies !seq_lt(
            key(x),
            key(#[trigger] t[i]),
        ) by {
            if i > 0 {
                assert(t[i] == t.drop_first()[i - 1]);
            }
        }
    }
}

pub open spec fn sorted_by<V>(s: Seq<V>, key: spec_fn(V) -> Seq<char>) -> bool {
    forall|i: int, j: int| 0 <= i < j < s.len() ==> !seq_lt(key(#[trigger] s[j]), key(#[trigger] s[i]))
}

/// The sort yields values in ascending key order and exactly the values
/// given.
pub proof fn vsort_sorted_permutation<V>(s: Seq<V>, key: spec_fn(V) -> Seq<char>)
    ensures
        sorted_by(vsort(s, key), key),
        vsort(s, key).to_multiset() == s.to_multiset(),
        vsort(s, key).len() == s.len(),
    decreases s.len(),
{
    broadcast use vstd::seq_lib::to_multiset_insert, vstd::seq_lib::to_multiset_build;

    if s.len() == 0 {
        assert(s =~= Seq::<V>::empty());
    } else {
        let init = s.drop_last();
        let x = s.last();
        vsort_sorted_permutation(init, key);
        let t = vsort(init, key);
        lemma_vkey_pos(t, x, key);
        let p = vkey_pos(t, x, key);
        let u = t.insert(p, x);
        assert forall|i: int, j: int| 0 <= i < j < u.len() implies !seq_lt(
            key(#[trigger] u[j]),
            key(#[trigger] u[i]),
        ) by {
            if j < p {
                assert(u[i] == t[i] && u[j] == t[j]);
            } else if j == p {
                assert(u[i] == t[i]);
            } else if i == p {
                assert(u[j] == t[j - 1]);
                lemma_seq_lt_total(key(t[j - 1]), key(x));
                if seq_lt(key(t[j - 1]), key(x)) {
                    lemma_seq_lt_transitive(key(t[j - 1]), key(x), key(t[p]));
                    if j - 1 > p {
                        assert(!seq_lt(key(t[j - 1]), key(t[p])));
                    } else {
                        lemma_seq_lt_irreflexive(key(t[p]));
                    }
                }
            } else if i < p {
                assert(u[i] == t[i] && u[j] == t[j - 1]);
            } else {
                assert(u[i] == t[i - 1] && u[j] == t[j - 1]);
            }
        }
        assert(s =~= init.push(x));
    }
}

} // verus!
