//! In-memory cache of tool results, keyed by `tool|target` with the target
//! trimmed and lower-cased. Entries stay fresh for thirty minutes; every
//! store bumps a generation counter so aggregations can tell that
//! underlying results changed. Times are milliseconds from a monotonic clock
//! read by the caller.

use vstd::prelude::*;

use crate::jobs::{param_get, param_value};
use crate::text::{chars_of, lower_chars, push_all, push_str, str_eq, str_to_lowercase, string_of, trim, trim_chars};

verus! {

/// How long a cached result is fresh, in milliseconds.
pub const TTL_MS: u64 = 1800000;

/// Above this many entries a store first sweeps out stale ones.
pub const SWEEP_ABOVE: usize = 256;

/// Cache key of a tool result for a target.
pub open spec fn cache_key(tool: Seq<char>, target: Seq<char>) -> Seq<char> {
    tool + "|"@ + str_to_lowercase(trim(target))
}

pub fn key(tool: &str, target: &str) -> (k: String)
    ensures
        k@ == cache_key(tool@, target@),
{
    let t = trim_chars(chars_of(target).as_slice());
    let l = lower_chars(t.as_slice());
    let mut out = chars_of(tool);
    push_str(&mut out, "|");
    push_all(&mut out, l.as_slice());
    string_of(out.as_slice())
}

/// An entry stored at `t` is fresh at `now` (time elapsed saturates at 0).
pub open spec fn fresh(now: u64, t: u64) -> bool {
    (if now >= t {
        now - t
    } else {
        0
    }) < TTL_MS
}

fn is_fresh(now: u64, t: u64) -> (b: bool)
    ensures
        b == fresh(now, t),
{
    let elapsed = if now >= t {
        now - t
    } else {
        0
    };
    elapsed < TTL_MS
}

pub struct ResultCache<V> {
    entries: Vec<(String, u64, V)>,
    generation: u64,
}

pub open spec fn entry_v<V>(e: (String, u64, V)) -> (Seq<char>, u64, V) {
    (e.0@, e.1, e.2)
}

/// Index of the entry with the given key.
pub open spec fn find_key<V>(es: Seq<(Seq<char>, u64, V)>, k: Seq<char>) -> Option<int>
    decreases es.len(),
{
    if es.len() == 0 {
        None
    } else if es[0].0 == k {
        Some(0)
    } else {
        match find_key(es.drop_first(), k) {
            Some(i) => Some(i + 1),
            None => None,
        }
    }
}

pub proof fn lemma_find_key<V>(es: Seq<(Seq<char>, u64, V)>, k: Seq<char>)
    ensures
        match find_key(es, k) {
            Some(i) => 0 <= i < es.len() && es[i].0 == k,
            None => forall|i: int| 0 <= i < es.len() ==> (#[trigger] es[i]).0 != k,
        },
    decreases es.len(),
{
    if es.len() > 0 && es[0].0 != k {
        lemma_find_key(es.drop_first(), k);
        if find_key(es.drop_first(), k) is None {
            assert forall|i: int| 0 <= i < es.len() implies (#[trigger] es[i]).0 != k by {
                if i > 0 {
                    assert(es[i] == es.drop_first()[i - 1]);
                }
            }
        }
    }
}

pub open spec fn keys_unique<V>(es: Seq<(Seq<char>, u64, V)>) -> bool {
    forall|i: int, j: int| 0 <= i < j < es.len() ==> (#[trigger] es[i]).0 != (#[trigger] es[j]).0
}

/// The entries that are still fresh at `now`, in order.
pub open spec fn fresh_only<V>(es: Seq<(Seq<char>, u64, V)>, now: u64) -> Seq<(Seq<char>, u64, V)>
    decreases es.len(),
{
    if es.len() == 0 {
        seq![]
    } else {
        let p = fresh_only(es.drop_last(), now);
        if fresh(now, es.last().1) {
            p.push(es.last())
        } else {
            p
        }
    }
}

/// Stores `(k, now, v)`, replacing the entry with the same key.
pub open spec fn put_entry<V>(es: Seq<(Seq<char>, u64, V)>, k: Seq<char>, now: u64, v: V) -> Seq<
    (Seq<char>, u64, V),
> {
    match find_key(es, k) {
        Some(i) => es.update(i, (k, now, v)),
        None => es.push((k, now, v)),
    }
}

/// What `store` leaves: a sweep of stale entries when the cache has grown
/// past `SWEEP_ABOVE`, then the new entry.
pub open spec fn stored<V>(es: Seq<(Seq<char>, u64, V)>, k: Seq<char>, now: u64, v: V) -> Seq<
    (Seq<char>, u64, V),
> {
    let swept = if es.len() > SWEEP_ABOVE {
        fresh_only(es, now)
    } else {
        es
    };
    put_entry(swept, k, now, v)
}

pub proof fn lemma_fresh_only<V>(es: Seq<(Seq<char>, u64, V)>, now: u64)
    requires
        keys_unique(es),
    ensures
        keys_unique(fresh_only(es, now)),
        forall|x: (Seq<char>, u64, V)| fresh_only(es, now).contains(x) ==> es.contains(x),
    decreases es.len(),
{
    if es.len() > 0 {
        let init = es.drop_last();
        assert(keys_unique(init)) by {
            assert forall|a: int, b: int| 0 <= a < b < init.len() implies (#[trigger] init[a]).0
                != (#[trigger] init[b]).0 by {
                assert(init[a] == es[a] && init[b] == es[b]);
            }
        }
        lemma_fresh_only(init, now);
        let p = fresh_only(init, now);
        assert forall|x: (Seq<char>, u64, V)| fresh_only(es, now).contains(x) implies es.contains(
            x,
        ) by {
            let w = choose|w: int|
                0 <= w < fresh_only(es, now).len() && fresh_only(es, now)[w] == x;
            if w < p.len() {
                assert(p[w] == x);
                assert(p.contains(x));
                assert(init.contains(x));
                let i = choose|i: int| 0 <= i < init.len() && init[i] == x;
                assert(es[i] == x);
            } else {
                assert(es[es.len() - 1] == x);
            }
        }
        if fresh(now, es.last().1) {
            let q = p.push(es.last());
            assert forall|a: int, b: int| 0 <= a < b < q.len() implies (#[trigger] q[a]).0 != (
            #[trigger] q[b]).0 by {
                if b == q.len() - 1 {
                    assert(q[a] == p[a]);
                    assert(p.contains(q[a]));
                    assert(init.contains(q[a]));
                    let i = choose|i: int| 0 <= i < init.len() && init[i] == q[a];
                    assert(es[i] == q[a]);
                } else {
                    assert(q[a] == p[a] && q[b] == p[b]);
                }
            }
        }
    }
}

pub proof fn lemma_put_entry<V>(es: Seq<(Seq<char>, u64, V)>, k: Seq<char>, now: u64, v: V)
    requires
        keys_unique(es),
    ensures
        keys_unique(put_entry(es, k, now, v)),
        find_key(put_entry(es, k, now, v), k) is Some,
        put_entry(es, k, now, v)[find_key(put_entry(es, k, now, v), k).unwrap()] == (k, now, v),
{
    lemma_find_key(es, k);
    let u = put_entry(es, k, now, v);
    assert forall|a: int, b: int| 0 <= a < b < u.len() implies (#[trigger] u[a]).0 != (
    #[trigger] u[b]).0 by {
        if find_key(es, k) is None && b == es.len() {
            assert(u[a] == es[a]);
        } else if find_key(es, k) is None {
            assert(u[a] == es[a] && u[b] == es[b]);
        } else {
            let i = find_key(es, k).unwrap();
            if a != i && b != i {
                assert(u[a] == es[a] && u[b] == es[b]);
            } else if a == i {
                assert(u[b] == es[b]);
                assert(es[a].0 != es[b].0);
            } else {
                assert(u[a] == es[a]);
                assert(es[a].0 != es[b].0);
            }
        }
    }
    lemma_find_key(u, k);
    match find_key(es, k) {
        Some(i) => {
            assert(u[i].0 == k);
            let j = find_key(u, k).unwrap();
            if j != i {
                assert(u[j].0 == u[i].0);
            }
        },
        None => {
            assert(u[es.len() as int].0 == k);
            let j = find_key(u, k).unwrap();
            if j != es.len() {
                assert(u[j] == es[j]);
            }
        },
    }
}

impl<V> ResultCache<V> {
    pub closed spec fn entries(&self) -> Seq<(Seq<char>, u64, V)> {
        self.entries@.map_values(|e: (String, u64, V)| entry_v(e))
    }

    pub closed spec fn gen(&self) -> u64 {
        self.generation
    }

    pub open spec fn wf(&self) -> bool {
        keys_unique(self.entries())
    }

    pub fn new() -> (c: Self)
        ensures
            c.wf(),
            c.entries() == Seq::<(Seq<char>, u64, V)>::empty(),
            c.gen() == 0,
    {
        let c = ResultCache { entries: Vec::new(), generation: 0 };
        assert(c.entries() =~= Seq::<(Seq<char>, u64, V)>::empty());
        c
    }

    /// Counter bumped on every store.
    pub fn generation(&self) -> (g: u64)
        ensures
            g == self.gen(),
    {
        self.generation
    }

    fn find(&self, k: &str) -> (r: Option<usize>)
        ensures
            match r {
                Some(i) => find_key(self.entries(), k@) == Some(i as int),
                None => find_key(self.entries(), k@) is None,
            },
    {
        let ghost es = self.entries();
        let mut i: usize = 0;
        assert(es.skip(0) =~= es);
        while i < self.entries.len()
            invariant
                i <= self.entries@.len(),
                es == self.entries(),
                match find_key(es, k@) {
                    Some(j) => match find_key(es.skip(i as int), k@) {
                        Some(j2) => j == j2 + i,
                        None => false,
                    },
                    None => find_key(es.skip(i as int), k@) is None,
                },
            decreases self.entries@.len() - i,
        {
            assert(es.skip(i as int).drop_first() =~= es.skip(i + 1));
            assert(es.skip(i as int)[0] == entry_v(self.entries@[i as int]));
            if str_eq(self.entries[i].0.as_str(), k) {
                return Some(i);
            }
            i = i + 1;
        }
        assert(es.skip(i as int).len() == 0);
        None
    }

    /// The fresh result stored for `tool` and `target`; a stale entry is
    /// dropped instead.
    pub fn get(&mut self, tool: &str, target: &str, now: u64) -> (r: Option<&V>)
        requires
            old(self).wf(),
        ensures
            final(self).wf(),
            final(self).gen() == old(self).gen(),
            match find_key(old(self).entries(), cache_key(tool@, target@)) {
                Some(i) => if fresh(now, old(self).entries()[i].1) {
                    r == Some(&old(self).entries()[i].2) && final(self).entries() == old(
                        self,
                    ).entries()
                } else {
                    r is None && final(self).entries() == old(self).entries().remove(i)
                },
                None => r is None && final(self).entries() == old(self).entries(),
            },
            final(self).entries() == looked_up(old(self).entries(), cache_key(tool@, target@), now),
    {
        let k = key(tool, target);
        proof {
            lemma_find_key(self.entries(), k@);
        }
        match self.find(k.as_str()) {
            Some(i) => {
                if is_fresh(now, self.entries[i].1) {
                    Some(&self.entries[i].2)
                } else {
                    let ghost es = self.entries();
                    let _ = self.entries.remove(i);
                    proof {
                        assert(self.entries() =~= es.remove(i as int));
                        let u = es.remove(i as int);
                        assert forall|a: int, b: int| 0 <= a < b < u.len() implies (
                        #[trigger] u[a]).0 != (#[trigger] u[b]).0 by {
                            let a2 = if a < i { a } else { a + 1 };
                            let b2 = if b < i { b } else { b + 1 };
                            assert(u[a] == es[a2] && u[b] == es[b2]);
                        }
                    }
                    None
                }
            },
            None => None,
        }
    }

    fn sweep(&mut self, now: u64)
        requires
            old(self).wf(),
        ensures
            final(self).wf(),
            final(self).gen() == old(self).gen(),
            final(self).entries() == fresh_only(old(self).entries(), now),
    {
        let ghost es = self.entries();
        let mut old_entries: Vec<(String, u64, V)> = Vec::new();
        std::mem::swap(&mut old_entries, &mut self.entries);
        let ghost src = old_entries@;
        let n = old_entries.len();
        let mut i: usize = 0;
        assert(self.entries@.map_values(|e: (String, u64, V)| entry_v(e)) =~= fresh_only(
            es.take(0),
            now,
        ));
        assert(old_entries@ =~= src.skip(0));
        while old_entries.len() > 0
            invariant
                i <= src.len(),
                src.len() == n,
                old_entries@ == src.skip(i as int),
                es == src.map_values(|e: (String, u64, V)| entry_v(e)),
                self.entries() == fresh_only(es.take(i as int), now),
                self.generation == old(self).generation,
            decreases old_entries@.len(),
        {
            let e = old_entries.remove(0);
            assert(src.skip(i as int).drop_first() =~= src.skip(i + 1));
            assert(e == src[i as int]);
            assert(es.take(i + 1).drop_last() =~= es.take(i as int));
            assert(es.take(i + 1).last() == entry_v(e));
            if is_fresh(now, e.1) {
                let ghost prev = self.entries();
                self.entries.push(e);
                assert(self.entries() =~= prev.push(entry_v(e)));
            }
            i = i + 1;
        }
        assert(es.take(i as int) =~= es);
        proof {
            lemma_fresh_only(es, now);
        }
    }

    /// Stores `value` for `tool` and `target` at `now` and bumps the
    /// generation; past `SWEEP_ABOVE` entries, stale ones are swept first.
    pub fn store(&mut self, tool: &str, target: &str, value: V, now: u64)
        requires
            old(self).wf(),
        ensures
            final(self).wf(),
            final(self).gen() == (if old(self).gen() == u64::MAX {
                0
            } else {
                (old(self).gen() + 1) as u64
            }),
            final(self).entries() == stored(old(self).entries(), cache_key(tool@, target@), now, value),
    {
        if self.entries.len() > SWEEP_ABOVE {
            self.sweep(now);
        }
        let ghost es = self.entries();
        let k = key(tool, target);
        let ghost kv = k@;
        proof {
            lemma_find_key(es, kv);
            lemma_put_entry(es, kv, now, value);
        }
        match self.find(k.as_str()) {
            Some(i) => {
                let _ = self.entries.remove(i);
                self.entries.insert(i, (k, now, value));
                assert(self.entries() =~= es.update(i as int, (kv, now, value)));
            },
            None => {
                self.entries.push((k, now, value));
                assert(self.entries() =~= es.push((kv, now, value)));
            },
        }
        self.generation = if self.generation == u64::MAX {
            0
        } else {
            self.generation + 1
        };
    }

    /// Stores a finished job's result under its target: the `url`
    /// parameter, else `domain`, else `path`; without any, nothing is stored.
    pub fn store_job(&mut self, tool: &str, params: &Vec<(String, String)>, value: V, now: u64)
        requires
            old(self).wf(),
        ensures
            final(self).wf(),
            match job_target(params@) {
                Some(t) => final(self).entries() == stored(
                    old(self).entries(),
                    cache_key(tool@, t),
                    now,
                    value,
                ) && final(self).gen() == (if old(self).gen() == u64::MAX {
                    0
                } else {
                    (old(self).gen() + 1) as u64
                }),
                None => final(self).entries() == old(self).entries() && final(self).gen() == old(
                    self,
                ).gen(),
            },
    {
        let target = match param_value(params, "url") {
            Some(t) => Some(t),
            None => match param_value(params, "domain") {
                Some(t) => Some(t),
                None => param_value(params, "path"),
            },
        };
        if let Some(t) = target {
            self.store(tool, t.as_str(), value, now);
        }
    }
}

/// Target a job's result is cached under.
pub open spec fn job_target(params: Seq<(String, String)>) -> Option<Seq<char>> {
    match param_get(params, "url"@) {
        Some(t) => Some(t),
        None => match param_get(params, "domain"@) {
            Some(t) => Some(t),
            None => param_get(params, "path"@),
        },
    }
}

// ─── Laws ───────────────────────────────────────────────────────────────────

/// A stored result is read back as long as it is fresh: looking up the same
/// tool and target right after a store finds exactly the stored value.
pub proof fn read_after_store<V>(
    es: Seq<(Seq<char>, u64, V)>,
    tool: Seq<char>,
    target: Seq<char>,
    now: u64,
    later: u64,
    v: V,
)
    requires
        keys_unique(es),
        fresh(later, now),
    ensures
        ({
            let after = stored(es, cache_key(tool, target), now, v);
            &&& find_key(after, cache_key(tool, target)) is Some
            &&& after[find_key(after, cache_key(tool, target)).unwrap()] == (
                cache_key(tool, target),
                now,
                v,
            )
            &&& fresh(later, after[find_key(after, cache_key(tool, target)).unwrap()].1)
        }),
{
    let k = cache_key(tool, target);
    if es.len() > SWEEP_ABOVE {
        lemma_fresh_only(es, now);
        lemma_put_entry(fresh_only(es, now), k, now, v);
    } else {
        lemma_put_entry(es, k, now, v);
    }
}

proof fn fresh_only_keeps<V>(es: Seq<(Seq<char>, u64, V)>, now: u64, x: (Seq<char>, u64, V))
    requires
        es.contains(x),
        fresh(now, x.1),
    ensures
        fresh_only(es, now).contains(x),
    decreases es.len(),
{
    let init = es.drop_last();
    if es.last() == x {
        assert(fresh_only(es, now).last() == x);
    } else {
        let i = choose|i: int| 0 <= i < es.len() && es[i] == x;
        assert(init[i] == x);
        fresh_only_keeps(init, now, x);
        let p = fresh_only(init, now);
        let w = choose|w: int| 0 <= w < p.len() && p[w] == x;
        if fresh(now, es.last().1) {
            assert(p.push(es.last())[w] == x);
        }
    }
}

proof fn put_other_entry<V>(
    es: Seq<(Seq<char>, u64, V)>,
    k2: Seq<char>,
    now: u64,
    v2: V,
    x: (Seq<char>, u64, V),
)
    requires
        x.0 != k2,
    ensures
        put_entry(es, k2, now, v2).contains(x) <==> es.contains(x),
{
    lemma_find_key(es, k2);
    let u = put_entry(es, k2, now, v2);
    if es.contains(x) {
        let i = choose|i: int| 0 <= i < es.len() && es[i] == x;
        assert(u[i] == x);
    }
    if u.contains(x) {
        let i = choose|i: int| 0 <= i < u.len() && u[i] == x;
        assert(es[i] == x);
    }
}

/// The one entry under key `k` is `e`, if there is any.
pub open spec fn only_entry<V>(es: Seq<(Seq<char>, u64, V)>, e: (Seq<char>, u64, V)) -> bool {
    &&& keys_unique(es)
    &&& forall|y: (Seq<char>, u64, V)| es.contains(y) && y.0 == e.0 ==> y == e
}

/// What a lookup of `k` at `now` leaves: a stale entry under `k` is dropped.
pub open spec fn looked_up<V>(es: Seq<(Seq<char>, u64, V)>, k: Seq<char>, now: u64) -> Seq<(Seq<char>, u64, V)> {
    match find_key(es, k) {
        Some(i) => if fresh(now, es[i].1) {
            es
        } else {
            es.remove(i)
        },
        None => es,
    }
}

/// One call on the cache, as its entries see it.
pub enum CacheCall<V> {
    Store(Seq<char>, u64, V),
    Lookup(Seq<char>, u64),
}

/// The entries after a run of calls, in order.
pub open spec fn run_calls<V>(es: Seq<(Seq<char>, u64, V)>, calls: Seq<CacheCall<V>>) -> Seq<(Seq<char>, u64, V)>
    decreases calls.len(),
{
    if calls.len() == 0 {
        es
    } else {
        let prev = run_calls(es, calls.drop_last());
        match calls.last() {
            CacheCall::Store(k, t, v) => stored(prev, k, t, v),
            CacheCall::Lookup(k, t) => looked_up(prev, k, t),
        }
    }
}

/// The call's time.
pub open spec fn call_time<V>(c: CacheCall<V>) -> u64 {
    match c {
        CacheCall::Store(_, t, _) => t,
        CacheCall::Lookup(_, t) => t,
    }
}

/// The call stores under `k`.
pub open spec fn stores_under<V>(c: CacheCall<V>, k: Seq<char>) -> bool {
    match c {
        CacheCall::Store(k2, _, _) => k2 == k,
        CacheCall::Lookup(_, _) => false,
    }
}

proof fn remove_keeps<V>(es: Seq<(Seq<char>, u64, V)>, i: int)
    requires
        keys_unique(es),
        0 <= i < es.len(),
    ensures
        keys_unique(es.remove(i)),
        forall|y: (Seq<char>, u64, V)| es.remove(i).contains(y) ==> es.contains(y),
        forall|y: (Seq<char>, u64, V)| es.contains(y) && y.0 != es[i].0 ==> es.remove(i).contains(y),
{
    let u = es.remove(i);
    assert forall|a: int, b: int| 0 <= a < b < u.len() implies (#[trigger] u[a]).0 != (#[trigger] u[b]).0 by {
        let a2 = if a < i { a } else { a + 1 };
        let b2 = if b < i { b } else { b + 1 };
        assert(u[a] == es[a2] && u[b] == es[b2]);
    }
    assert forall|y: (Seq<char>, u64, V)| u.contains(y) implies es.contains(y) by {
        let w = choose|w: int| 0 <= w < u.len() && u[w] == y;
        if w < i {
            assert(es[w] == y);
        } else {
            assert(es[w + 1] == y);
        }
    }
    assert forall|y: (Seq<char>, u64, V)| es.contains(y) && y.0 != es[i].0 implies u.contains(y) by {
        let w = choose|w: int| 0 <= w < es.len() && es[w] == y;
        if w < i {
            assert(u[w] == y);
        } else {
            assert(w != i);
            assert(u[w - 1] == y);
        }
    }
}

proof fn calls_keep<V>(
    es: Seq<(Seq<char>, u64, V)>,
    e: (Seq<char>, u64, V),
    calls: Seq<CacheCall<V>>,
    later: u64,
)
    requires
        only_entry(es, e),
        es.contains(e),
        forall|j: int| 0 <= j < calls.len() ==> !stores_under(#[trigger] calls[j], e.0),
        forall|j: int| 0 <= j < calls.len() ==> e.1 <= call_time(#[trigger] calls[j]) <= later,
    ensures
        only_entry(run_calls(es, calls), e),
        fresh(later, e.1) ==> run_calls(es, calls).contains(e),
    decreases calls.len(),
{
    if calls.len() > 0 {
        let init = calls.drop_last();
        assert forall|j: int| 0 <= j < init.len() implies !stores_under(#[trigger] init[j], e.0) && e.1
            <= call_time(init[j]) <= later by {
            assert(init[j] == calls[j]);
        }
        calls_keep(es, e, init, later);
        let prev = run_calls(es, init);
        let c = calls.last();
        assert(c == calls[calls.len() - 1]);
        let after = run_calls(es, calls);
        match c {
            CacheCall::Store(k2, t2, v2) => {
                let swept = if prev.len() > SWEEP_ABOVE {
                    fresh_only(prev, t2)
                } else {
                    prev
                };
                lemma_fresh_only(prev, t2);
                lemma_put_entry(swept, k2, t2, v2);
                assert(after == put_entry(swept, k2, t2, v2));
                assert(k2 != e.0);
                assert forall|y: (Seq<char>, u64, V)| after.contains(y) && y.0 == e.0 implies y == e by {
                    put_other_entry(swept, k2, t2, v2, y);
                    if prev.len() > SWEEP_ABOVE {
                        assert(fresh_only(prev, t2).contains(y));
                    }
                    assert(prev.contains(y));
                }
                if fresh(later, e.1) {
                    assert(fresh(t2, e.1));
                    if prev.len() > SWEEP_ABOVE {
                        fresh_only_keeps(prev, t2, e);
                    }
                    put_other_entry(swept, k2, t2, v2, e);
                }
            },
            CacheCall::Lookup(k2, t2) => {
                lemma_find_key(prev, k2);
                match find_key(prev, k2) {
                    Some(i) => {
                        if !fresh(t2, prev[i].1) {
                            remove_keeps(prev, i);
                            assert(after == prev.remove(i));
                            assert forall|y: (Seq<char>, u64, V)| after.contains(y) && y.0 == e.0 implies y == e by {
                                assert(prev.remove(i).contains(y));
                                assert(prev.contains(y));
                            }
                            if fresh(later, e.1) {
                                assert(fresh(t2, e.1));
                                if prev[i].0 == e.0 {
                                    assert(prev.contains(prev[i]));
                                    assert(prev[i] == e);
                                }
                            }
                        }
                    },
                    None => {},
                }
                assert(after == looked_up(prev, k2, t2));
            },
        }
    }
}

/// A stored result is read back until it goes stale, whatever other calls
/// come between: after storing `v` under `k` at `t`, then any stores under
/// other keys and any lookups of any key (no earlier than `t`, no later than
/// `later`), the entry under `k` is `(k, t, v)` wherever there is one, and
/// there is one while `later` is within the freshness window of `t`. (A
/// `get` at `later` then answers `v` while fresh, nothing once stale.)
pub proof fn read_back_across_calls<V>(
    es: Seq<(Seq<char>, u64, V)>,
    k: Seq<char>,
    t: u64,
    v: V,
    calls: Seq<CacheCall<V>>,
    later: u64,
)
    requires
        keys_unique(es),
        forall|j: int| 0 <= j < calls.len() ==> !stores_under(#[trigger] calls[j], k),
        forall|j: int| 0 <= j < calls.len() ==> t <= call_time(#[trigger] calls[j]) <= later,
    ensures
        ({
            let after = run_calls(stored(es, k, t, v), calls);
            &&& keys_unique(after)
            &&& match find_key(after, k) {
                Some(i) => after[i] == (k, t, v),
                None => !fresh(later, t),
            }
        }),
{
    let first = stored(es, k, t, v);
    let e = (k, t, v);
    let swept = if es.len() > SWEEP_ABOVE {
        fresh_only(es, t)
    } else {
        es
    };
    lemma_fresh_only(es, t);
    lemma_put_entry(swept, k, t, v);
    lemma_find_key(first, k);
    let i0 = find_key(first, k).unwrap();
    assert(first[i0] == e);
    assert forall|y: (Seq<char>, u64, V)| first.contains(y) && y.0 == e.0 implies y == e by {
        let j = choose|j: int| 0 <= j < first.len() && first[j] == y;
        if j != i0 {
            if j < i0 {
                assert(first[j].0 != first[i0].0);
            } else {
                assert(first[i0].0 != first[j].0);
            }
        }
    }
    calls_keep(first, e, calls, later);
    let after = run_calls(first, calls);
    lemma_find_key(after, k);
    match find_key(after, k) {
        Some(i) => {
            assert(after.contains(after[i]));
        },
        None => {
            if fresh(later, t) {
                let j = choose|j: int| 0 <= j < after.len() && after[j] == e;
                assert(after[j].0 == k);
            }
        },
    }
}

/// The generation after one call: a store bumps it (wrapping at the top),
/// anything else leaves it.
pub open spec fn next_generation(g: u64, is_store: bool) -> u64 {
    if !is_store {
        g
    } else if g == u64::MAX {
        0
    } else {
        (g + 1) as u64
    }
}

/// How many of the calls were stores.
pub open spec fn store_count(calls: Seq<bool>) -> nat
    decreases calls.len(),
{
    if calls.len() == 0 {
        0
    } else {
        store_count(calls.drop_last()) + if calls.last() {
            1nat
        } else {
            0nat
        }
    }
}

/// The generation counts stores: over a run of calls (`true` for a store,
/// `false` for a lookup or a read of the counter) whose generations follow
/// `store`'s and `get`'s contracts, it never decreases and ends at its
/// start plus the number of stores, as long as that does not pass
/// `u64::MAX`.
pub proof fn generation_counts_stores(gens: Seq<u64>, calls: Seq<bool>)
    requires
        gens.len() == calls.len() + 1,
        forall|i: int| 0 <= i < calls.len() ==> gens[i + 1] == next_generation(gens[i], #[trigger] calls[i]),
        gens[0] + store_count(calls) <= u64::MAX,
    ensures
        gens.last() == gens[0] + store_count(calls),
        forall|i: int, j: int| 0 <= i <= j < gens.len() ==> gens[i] <= gens[j],
    decreases calls.len(),
{
    if calls.len() > 0 {
        let g2 = gens.drop_last();
        let c2 = calls.drop_last();
        assert forall|i: int| 0 <= i < c2.len() implies g2[i + 1] == next_generation(g2[i], #[trigger] c2[i]) by {
            assert(c2[i] == calls[i]);
        }
        generation_counts_stores(g2, c2);
        let n = calls.len() - 1;
        assert(calls.last() == calls[n]);
        assert(gens[n + 1] == next_generation(gens[n], calls[n]));
        assert(g2.last() == gens[n]);
        assert forall|i: int, j: int| 0 <= i <= j < gens.len() implies gens[i] <= gens[j] by {
            if j == gens.len() - 1 && i < j {
                assert(g2[i] <= g2[n]);
            } else if j < gens.len() - 1 {
                assert(g2[i] <= g2[j]);
            }
        }
    }
}

/// Targets are compared trimmed and lower-cased: surrounding whitespace does
/// not change the cache slot.
pub proof fn key_ignores_surrounding_space(tool: Seq<char>, target: Seq<char>)
    ensures
        cache_key(tool, trim(target)) == cache_key(tool, target),
{
    crate::text::lemma_trim_idempotent(target);
}

} // verus!
