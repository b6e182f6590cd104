//! Wordfence vulnerability matching: affected-version ranges, the feed
//! index keyed by `type:slug`, and component-to-vulnerability matching.

use std::cmp::Ordering;
use vstd::prelude::*;

use crate::component_intel::{
    compare_parts, ordering_from, ordering_of, ordering_of_i8, parse_parts, parts_order,
    spec_parse_parts,
};
use crate::text::{
    chars_eq, chars_of, lit, lower_chars, push_all, push_str, str_eq, str_to_lowercase, string_of,
    trim, trim_chars,
};

verus! {

/// One affected-version range of a vulnerability (`*` = unbounded).
pub struct VersionRange {
    pub from: String,
    pub from_inclusive: bool,
    pub to: String,
    pub to_inclusive: bool,
}

// ─── Version compare ────────────────────────────────────────────────────────

/// What `version_cmp` returns: `*` on either side compares equal; otherwise
/// parts are compared zero-padded.
pub open spec fn range_version_cmp_spec(a: Seq<char>, b: Seq<char>) -> Ordering {
    if a == seq!['*'] || b == seq!['*'] {
        Ordering::Equal
    } else {
        ordering_of(parts_order(spec_parse_parts(a), spec_parse_parts(b)))
    }
}

fn is_star(s: &str) -> (b: bool)
    ensures
        b == (s@ == seq!['*']),
{
    let v = chars_of(s);
    let r = v.len() == 1 && v[0] == '*';
    proof {
        if v@.len() == 1 && v@[0] == '*' {
            assert(v@ =~= seq!['*']);
        }
        if s@ == seq!['*'] {
            assert(v@[0] == '*');
        }
    }
    r
}

/// Compares two versions for range matching.
pub fn version_cmp(a: &str, b: &str) -> (r: Ordering)
    ensures
        r == range_version_cmp_spec(a@, b@),
{
    if is_star(a) || is_star(b) {
        return Ordering::Equal;
    }
    let pa = parse_parts(a);
    let pb = parse_parts(b);
    let x = compare_parts(&pa, &pb);
    let o = ordering_from(x);
    proof {
        assert(ordering_of_i8(x) == ordering_of(parts_order(pa@, pb@)));
    }
    o
}

/// Whether `version` lies in `range` (bounds inclusive or exclusive as
/// flagged; `*` leaves a side open; a blank version is never in range).
pub open spec fn version_in_range_spec(version: Seq<char>, range: VersionRange) -> bool {
    &&& trim(version).len() > 0
    &&& (range.from@ != seq!['*'] ==> match range_version_cmp_spec(version, range.from@) {
        Ordering::Less => false,
        Ordering::Equal => range.from_inclusive,
        Ordering::Greater => true,
    })
    &&& (range.to@ != seq!['*'] ==> match range_version_cmp_spec(version, range.to@) {
        Ordering::Greater => false,
        Ordering::Equal => range.to_inclusive,
        Ordering::Less => true,
    })
}

pub fn version_in_range(version: &str, range: &VersionRange) -> (b: bool)
    ensures
        b == version_in_range_spec(version@, *range),
{
    let vt = trim_chars(chars_of(version).as_slice());
    if vt.len() == 0 {
        return false;
    }
    if !is_star(range.from.as_str()) {
        match version_cmp(version, range.from.as_str()) {
            Ordering::Less => {
                return false;
            },
            Ordering::Equal => {
                if !range.from_inclusive {
                    return false;
                }
            },
            Ordering::Greater => {},
        }
    }
    if !is_star(range.to.as_str()) {
        match version_cmp(version, range.to.as_str()) {
            Ordering::Greater => {
                return false;
            },
            Ordering::Equal => {
                if !range.to_inclusive {
                    return false;
                }
            },
            Ordering::Less => {},
        }
    }
    true
}

/// A range whose lower side is open and whose upper side is inclusive holds
/// its own upper bound (for any non-blank bound).
pub proof fn inclusive_upper_bound_in_range(range: VersionRange)
    requires
        range.from@ == seq!['*'],
        range.to_inclusive,
        trim(range.to@).len() > 0,
    ensures
        version_in_range_spec(range.to@, range),
{
    crate::component_intel::lemma_parts_order_laws(
        spec_parse_parts(range.to@),
        spec_parse_parts(range.to@),
        spec_parse_parts(range.to@),
    );
}

/// A fully open range (`*` … `*`) holds every non-blank version.
pub proof fn open_range_holds_all(version: Seq<char>, range: VersionRange)
    requires
        range.from@ == seq!['*'],
        range.to@ == seq!['*'],
        trim(version).len() > 0,
    ensures
        version_in_range_spec(version, range),
{
}

// ─── Index ──────────────────────────────────────────────────────────────────

/// `type:slug`, lowercased; core is always keyed `core:wordpress`.
pub open spec fn index_key_spec(software_type: Seq<char>, slug: Seq<char>) -> Seq<char> {
    let t = str_to_lowercase(software_type);
    let s = if t == "core"@ {
        "wordpress"@
    } else {
        str_to_lowercase(slug)
    };
    t + seq![':'] + s
}

pub fn index_key(software_type: &str, slug: &str) -> (r: String)
    ensures
        r@ == index_key_spec(software_type@, slug@),
{
    let t = lower_chars(chars_of(software_type).as_slice());
    let core = chars_of("core");
    let s = if chars_eq(t.as_slice(), core.as_slice()) {
        chars_of("wordpress")
    } else {
        lower_chars(chars_of(slug).as_slice())
    };
    let mut out = t;
    out.push(':');
    push_all(&mut out, s.as_slice());
    string_of(out.as_slice())
}

/// One affected-version range as read from the feed (missing fields are `None`).
pub struct FeedRange {
    pub label: String,
    pub from_version: Option<String>,
    pub to_version: Option<String>,
    pub from_inclusive: Option<bool>,
    pub to_inclusive: Option<bool>,
}

/// One affected software entry of a feed record.
pub struct FeedSoftware {
    pub software_type: Option<String>,
    pub slug: Option<String>,
    pub name: Option<String>,
    pub affected_versions: Vec<FeedRange>,
}

/// One Wordfence feed record (only what indexing reads).
pub struct FeedRecord {
    pub id: Option<String>,
    pub cve: Option<String>,
    pub cve_link: Option<String>,
    pub software: Vec<FeedSoftware>,
}

/// One indexed (record, software) pair.
pub struct IndexedVuln {
    /// Position of the record in the feed.
    pub record: usize,
    /// Position of the software entry in the record.
    pub software: usize,
    pub id: String,
    pub cve: Option<String>,
    pub cve_link: Option<String>,
    pub software_type: String,
    pub slug: String,
    pub name: String,
    pub key: String,
    pub ranges: Vec<VersionRange>,
    pub range_labels: Vec<String>,
}

/// The feed index: its entries, and for each key (`type:slug`) the
/// positions of the entries under it.
pub struct VulnIndex {
    pub(crate) by_key: Vec<(String, Vec<usize>)>,
    pub(crate) vulns: Vec<IndexedVuln>,
    pub(crate) updated_at: String,
    pub(crate) count: usize,
    pub(crate) bytes: u64,
}

/// Buckets as plain values.
pub open spec fn buckets_view(bk: Seq<(String, Vec<usize>)>) -> Seq<(Seq<char>, Seq<usize>)> {
    bk.map_values(|e: (String, Vec<usize>)| (e.0@, e.1@))
}

/// Bucket `b` has key `key` and holds position `x`.
pub open spec fn holds_at(bk: Seq<(String, Vec<usize>)>, b: int, key: Seq<char>, x: int) -> bool {
    0 <= b < bk.len() && bk[b].0@ == key && bk[b].1@.contains(x as usize)
}

/// The buckets over the first `n` entries: keys distinct; each bucket's
/// positions ascending, below `n`, and of entries with the bucket's key;
/// every one of those entries in the bucket of its key.
pub open spec fn buckets_over(vulns: Seq<IndexedVuln>, bk: Seq<(String, Vec<usize>)>, n: int) -> bool {
    &&& forall|a: int, b: int| 0 <= a < b < bk.len() ==> (#[trigger] bk[a]).0@ != (#[trigger] bk[b]).0@
    &&& forall|b: int, j: int|
        0 <= b < bk.len() && 0 <= j < bk[b].1@.len() ==> (#[trigger] bk[b].1@[j]) < n && vulns[bk[b].1@[j] as int].key@
            == bk[b].0@
    &&& forall|b: int, j: int, k: int|
        0 <= b < bk.len() && 0 <= j < k < bk[b].1@.len() ==> #[trigger] bk[b].1@[j] < #[trigger] bk[b].1@[k]
    &&& forall|x: int| #![trigger vulns[x]] 0 <= x < n ==> exists|b: int| #[trigger] holds_at(bk, b, vulns[x].key@, x)
    &&& forall|b: int| 0 <= b < bk.len() ==> (#[trigger] bk[b]).1@.len() > 0
}

impl VulnIndex {
    #[verifier::type_invariant]
    spec fn buckets_cover(self) -> bool {
        buckets_over(self.vulns@, self.by_key@, self.vulns@.len() as int)
    }

    /// The index's entries.
    pub closed spec fn entries(self) -> Seq<IndexedVuln> {
        self.vulns@
    }

    /// The buckets: each key with the positions of its entries.
    pub closed spec fn buckets(self) -> Seq<(Seq<char>, Seq<usize>)> {
        buckets_view(self.by_key@)
    }

    pub closed spec fn spec_updated_at(self) -> Seq<char> {
        self.updated_at@
    }

    pub closed spec fn spec_count(self) -> usize {
        self.count
    }

    pub closed spec fn spec_bytes(self) -> u64 {
        self.bytes
    }

    pub fn vulns(&self) -> (r: &Vec<IndexedVuln>)
        ensures
            r@ == self.entries(),
    {
        &self.vulns
    }

    pub fn updated_at(&self) -> (r: &String)
        ensures
            r@ == self.spec_updated_at(),
    {
        &self.updated_at
    }

    pub fn count(&self) -> (r: usize)
        ensures
            r == self.spec_count(),
    {
        self.count
    }

    pub fn bytes(&self) -> (r: u64)
        ensures
            r == self.spec_bytes(),
    {
        self.bytes
    }

    /// An index over `vulns`, each entry put in the bucket of its key.
    pub fn from_entries(vulns: Vec<IndexedVuln>, updated_at: String, count: usize, bytes: u64) -> (r: VulnIndex)
        ensures
            r.entries() == vulns@,
            r.spec_updated_at() == updated_at@,
            r.spec_count() == count,
            r.spec_bytes() == bytes,
            buckets_law(r.entries(), r.buckets()),
    {
        let by_key = key_buckets(&vulns);
        assert(vulns@.len() == vulns.len());
        let r = VulnIndex { by_key, vulns, updated_at, count, bytes };
        proof {
            lemma_buckets_law(r.vulns@, r.by_key@);
        }
        r
    }
}

/// What the buckets promise, over plain values: keys distinct; each
/// bucket's positions strictly ascending and of entries under its key; each
/// entry's position in exactly one bucket, the one of its key; and no
/// bucket empty.
pub open spec fn buckets_law(vulns: Seq<IndexedVuln>, bk: Seq<(Seq<char>, Seq<usize>)>) -> bool {
    &&& forall|a: int, b: int| 0 <= a < b < bk.len() ==> (#[trigger] bk[a]).0 != (#[trigger] bk[b]).0
    &&& forall|b: int, j: int|
        0 <= b < bk.len() && 0 <= j < bk[b].1.len() ==> (#[trigger] bk[b].1[j]) < vulns.len()
            && vulns[bk[b].1[j] as int].key@ == bk[b].0
    &&& forall|b: int, j: int, k: int|
        0 <= b < bk.len() && 0 <= j < k < bk[b].1.len() ==> #[trigger] bk[b].1[j] < #[trigger] bk[b].1[k]
    &&& forall|x: int, b: int|
        0 <= x < vulns.len() && 0 <= b < bk.len() ==> (#[trigger] bk[b].1.contains(x as usize) <==> bk[b].0
            == (#[trigger] vulns[x]).key@)
    &&& forall|x: int| #![trigger vulns[x]] 0 <= x < vulns.len() ==> in_bucket_of(bk, x as usize, vulns[x].key@)
    &&& forall|b: int| 0 <= b < bk.len() ==> (#[trigger] bk[b]).1.len() > 0
}

/// Some bucket with key `key` holds position `x`.
pub open spec fn in_bucket_of(bk: Seq<(Seq<char>, Seq<usize>)>, x: usize, key: Seq<char>) -> bool {
    exists|b: int| 0 <= b < bk.len() && bk[b].0 == key && #[trigger] bk[b].1.contains(x)
}

proof fn lemma_buckets_law(vulns: Seq<IndexedVuln>, bk: Seq<(String, Vec<usize>)>)
    requires
        buckets_over(vulns, bk, vulns.len() as int),
        vulns.len() <= usize::MAX,
    ensures
        buckets_law(vulns, buckets_view(bk)),
{
    let m = buckets_view(bk);
    assert forall|a: int, b: int| 0 <= a < b < m.len() implies (#[trigger] m[a]).0 != (#[trigger] m[b]).0 by {
        assert(m[a].0 == bk[a].0@ && m[b].0 == bk[b].0@);
    }
    assert forall|b: int, j: int| 0 <= b < m.len() && 0 <= j < m[b].1.len() implies (#[trigger] m[b].1[j])
        < vulns.len() && vulns[m[b].1[j] as int].key@ == m[b].0 by {
        assert(m[b].1[j] == bk[b].1@[j]);
    }
    assert forall|b: int, j: int, k: int| 0 <= b < m.len() && 0 <= j < k < m[b].1.len() implies
        #[trigger] m[b].1[j] < #[trigger] m[b].1[k] by {
        assert(m[b].1[j] == bk[b].1@[j] && m[b].1[k] == bk[b].1@[k]);
    }
    assert forall|x: int, b: int| 0 <= x < vulns.len() && 0 <= b < m.len() implies (
    #[trigger] m[b].1.contains(x as usize) <==> m[b].0 == (#[trigger] vulns[x]).key@) by {
        assert(m[b] == (bk[b].0@, bk[b].1@));
        if m[b].1.contains(x as usize) {
            let j = choose|j: int| 0 <= j < m[b].1.len() && m[b].1[j] == x as usize;
            assert(bk[b].1@[j] == x as usize);
        }
        if m[b].0 == vulns[x].key@ {
            let b2 = choose|b2: int| #[trigger] holds_at(bk, b2, vulns[x].key@, x);
            if b2 != b {
                if b2 < b {
                    assert(bk[b2].0@ != bk[b].0@);
                } else {
                    assert(bk[b].0@ != bk[b2].0@);
                }
            }
        }
    }
    assert forall|x: int| #![trigger vulns[x]] 0 <= x < vulns.len() implies in_bucket_of(m, x as usize, vulns[x].key@) by {
        let b2 = choose|b2: int| #[trigger] holds_at(bk, b2, vulns[x].key@, x);
        assert(holds_at(bk, b2, vulns[x].key@, x));
        assert(m[b2].1 == bk[b2].1@);
        assert(0 <= b2 < m.len() && m[b2].0 == vulns[x].key@ && m[b2].1.contains(x as usize));
    }
}

/// The bucket with key `key`, if any.
fn find_bucket(bk: &Vec<(String, Vec<usize>)>, key: &str) -> (r: Option<usize>)
    ensures
        match r {
            Some(b) => b < bk@.len() && bk@[b as int].0@ == key@,
            None => forall|b: int| 0 <= b < bk@.len() ==> (#[trigger] bk@[b]).0@ != key@,
        },
{
    let mut b: usize = 0;
    while b < bk.len()
        invariant
            b <= bk@.len(),
            forall|c: int| 0 <= c < b ==> (#[trigger] bk@[c]).0@ != key@,
        decreases bk@.len() - b,
    {
        if str_eq(bk[b].0.as_str(), key) {
            return Some(b);
        }
        b = b + 1;
    }
    None
}

/// Puts each entry's position in the bucket of its key, in order.
fn key_buckets(vulns: &Vec<IndexedVuln>) -> (bk: Vec<(String, Vec<usize>)>)
    ensures
        buckets_over(vulns@, bk@, vulns@.len() as int),
{
    let mut bk: Vec<(String, Vec<usize>)> = Vec::new();
    let mut i: usize = 0;
    while i < vulns.len()
        invariant
            i <= vulns@.len(),
            buckets_over(vulns@, bk@, i as int),
        decreases vulns@.len() - i,
    {
        let key = vulns[i].key.as_str();
        let ghost old_bk = bk@;
        match find_bucket(&bk, key) {
            Some(b) => {
                let (k, mut list) = bk.remove(b);
                let ghost old_list = list@;
                list.push(i);
                bk.insert(b, (k, list));
                proof {
                    assert(bk@ =~= old_bk.update(b as int, bk@[b as int]));
                    assert(bk@[b as int].1@ == old_list.push(i));
                    assert(old_list == old_bk[b as int].1@);
                    assert forall|c: int, j: int|
                        0 <= c < bk@.len() && 0 <= j < bk@[c].1@.len() implies (#[trigger] bk@[c].1@[j]) < i + 1
                        && vulns@[bk@[c].1@[j] as int].key@ == bk@[c].0@ by {
                        if c == b && j == old_list.len() {
                        } else if c == b {
                            assert(bk@[c].1@[j] == old_bk[c].1@[j]);
                        } else {
                            assert(bk@[c] == old_bk[c]);
                        }
                    }
                    assert forall|c: int, j: int, l: int|
                        0 <= c < bk@.len() && 0 <= j < l < bk@[c].1@.len() implies #[trigger] bk@[c].1@[j]
                        < #[trigger] bk@[c].1@[l] by {
                        if c == b {
                            assert(bk@[c].1@[j] == old_bk[c].1@[j]);
                            if l < old_list.len() {
                                assert(bk@[c].1@[l] == old_bk[c].1@[l]);
                            }
                        } else {
                            assert(bk@[c] == old_bk[c]);
                        }
                    }
                    assert forall|x: int| #![trigger vulns@[x]] 0 <= x < i + 1 implies exists|c: int| #[trigger] holds_at(bk@, c, vulns@[x].key@, x) by {
                        if x == i {
                            assert(bk@[b as int].1@[old_list.len() as int] == i);
                            assert(holds_at(bk@, b as int, vulns@[x].key@, x));
                        } else {
                            let c = choose|c: int| #[trigger] holds_at(old_bk, c, vulns@[x].key@, x);
                            if c == b {
                                let j = choose|j: int| 0 <= j < old_list.len() && old_list[j] == x as usize;
                                assert(bk@[c].1@[j] == x as usize);
                            } else {
                                assert(bk@[c] == old_bk[c]);
                            }
                            assert(holds_at(bk@, c, vulns@[x].key@, x));
                        }
                    }
                    assert forall|a: int, c: int| 0 <= a < c < bk@.len() implies (#[trigger] bk@[a]).0@ != (
                    #[trigger] bk@[c]).0@ by {
                        assert(bk@[a].0 == old_bk[a].0 && bk@[c].0 == old_bk[c].0);
                    }
                }
            },
            None => {
                let mut list: Vec<usize> = Vec::new();
                list.push(i);
                let k = vulns[i].key.clone();
                bk.push((k, list));
                proof {
                    assert(bk@ =~= old_bk.push(bk@[old_bk.len() as int]));
                    let n = old_bk.len() as int;
                    assert(bk@[n].1@ =~= seq![i]);
                    assert forall|c: int, j: int|
                        0 <= c < bk@.len() && 0 <= j < bk@[c].1@.len() implies (#[trigger] bk@[c].1@[j]) < i + 1
                        && vulns@[bk@[c].1@[j] as int].key@ == bk@[c].0@ by {
                        if c < n {
                            assert(bk@[c] == old_bk[c]);
                        }
                    }
                    assert forall|c: int, j: int, l: int|
                        0 <= c < bk@.len() && 0 <= j < l < bk@[c].1@.len() implies #[trigger] bk@[c].1@[j]
                        < #[trigger] bk@[c].1@[l] by {
                        if c < n {
                            assert(bk@[c] == old_bk[c]);
                        }
                    }
                    assert forall|x: int| #![trigger vulns@[x]] 0 <= x < i + 1 implies exists|c: int| #[trigger] holds_at(bk@, c, vulns@[x].key@, x) by {
                        if x == i {
                            assert(bk@[n].1@[0] == i);
                            assert(holds_at(bk@, n, vulns@[x].key@, x));
                        } else {
                            let c = choose|c: int| #[trigger] holds_at(old_bk, c, vulns@[x].key@, x);
                            assert(bk@[c] == old_bk[c]);
                            assert(holds_at(bk@, c, vulns@[x].key@, x));
                        }
                    }
                    assert forall|a: int, c: int| 0 <= a < c < bk@.len() implies (#[trigger] bk@[a]).0@ != (
                    #[trigger] bk@[c]).0@ by {
                        if c == n {
                            assert(old_bk[a].0@ != key@);
                        } else {
                            assert(bk@[a] == old_bk[a] && bk@[c] == old_bk[c]);
                        }
                    }
                }
            },
        }
        i = i + 1;
    }
    bk
}

pub open spec fn opt_or(o: Option<String>, d: Seq<char>) -> Seq<char> {
    match o {
        Some(s) => s@,
        None => d,
    }
}

pub open spec fn opt_bool_or(o: Option<bool>, d: bool) -> bool {
    match o {
        Some(b) => b,
        None => d,
    }
}

/// The label shown for a range: the feed's own label, or `[from … to]` with
/// round brackets on exclusive sides.
pub open spec fn range_label_spec(r: FeedRange) -> Seq<char> {
    if r.label@.len() > 0 {
        r.label@
    } else {
        (if opt_bool_or(r.from_inclusive, true) {
            "["@
        } else {
            "("@
        }) + opt_or(r.from_version, "*"@) + " … "@ + opt_or(r.to_version, "*"@) + (if opt_bool_or(
            r.to_inclusive,
            true,
        ) {
            "]"@
        } else {
            ")"@
        })
    }
}

/// The range read from a feed range (`*` and inclusive by default).
pub open spec fn range_matches_feed(v: VersionRange, r: FeedRange) -> bool {
    &&& v.from@ == opt_or(r.from_version, "*"@)
    &&& v.to@ == opt_or(r.to_version, "*"@)
    &&& v.from_inclusive == opt_bool_or(r.from_inclusive, true)
    &&& v.to_inclusive == opt_bool_or(r.to_inclusive, true)
}

/// The CVE link of a record: its own, or the cve.org page of a non-empty CVE id.
pub open spec fn cve_link_spec(rec: FeedRecord) -> Option<Seq<char>> {
    match rec.cve_link {
        Some(l) => Some(l@),
        None => match rec.cve {
            Some(c) => if c@.len() > 0 {
                Some("https://www.cve.org/CVERecord?id="@ + c@)
            } else {
                None
            },
            None => None,
        },
    }
}

pub open spec fn opt_view(o: Option<String>) -> Option<Seq<char>> {
    match o {
        Some(s) => Some(s@),
        None => None,
    }
}

/// Entry `e` is the index entry of software `s` of record `r`.
pub open spec fn entry_of(e: IndexedVuln, feed: Seq<FeedRecord>, r: int, s: int) -> bool {
    let rec = feed[r];
    let soft = rec.software@[s];
    let stype = opt_or(soft.software_type, "plugin"@);
    let slug = opt_or(soft.slug, ""@);
    &&& e.record == r
    &&& e.software == s
    &&& e.id@ == opt_or(rec.id, ""@)
    &&& opt_view(e.cve) == (match rec.cve {
        Some(c) => if c@.len() > 0 {
            Some(c@)
        } else {
            None
        },
        None => None,
    })
    &&& opt_view(e.cve_link) == cve_link_spec(rec)
    &&& e.software_type@ == stype
    &&& e.slug@ == slug
    &&& e.name@ == opt_or(soft.name, slug)
    &&& e.key@ == index_key_spec(stype, slug)
    &&& e.ranges@.len() == soft.affected_versions@.len()
    &&& e.range_labels@.len() == soft.affected_versions@.len()
    &&& forall|k: int|
        0 <= k < e.ranges@.len() ==> range_matches_feed(
            #[trigger] e.ranges@[k],
            soft.affected_versions@[k],
        ) && e.range_labels@[k]@ == range_label_spec(soft.affected_versions@[k])
}

/// Number of software entries in records `0..r`.
pub open spec fn entries_before(feed: Seq<FeedRecord>, r: int) -> nat
    decreases r,
{
    if r <= 0 {
        0
    } else {
        entries_before(feed, r - 1) + feed[r - 1].software@.len()
    }
}

fn clone_opt(o: &Option<String>) -> (r: Option<String>)
    ensures
        opt_view(r) == opt_view(*o),
{
    match o {
        Some(s) => Some(s.clone()),
        None => None,
    }
}

fn opt_or_exec(o: &Option<String>, d: &str) -> (r: String)
    ensures
        r@ == opt_or(*o, d@),
{
    match o {
        Some(s) => s.clone(),
        None => lit(d),
    }
}

fn build_range(r: &FeedRange) -> (out: (VersionRange, String))
    ensures
        range_matches_feed(out.0, *r),
        out.1@ == range_label_spec(*r),
{
    let from = opt_or_exec(&r.from_version, "*");
    let to = opt_or_exec(&r.to_version, "*");
    let from_inc = match r.from_inclusive {
        Some(b) => b,
        None => true,
    };
    let to_inc = match r.to_inclusive {
        Some(b) => b,
        None => true,
    };
    let label_chars = chars_of(r.label.as_str());
    let label = if label_chars.len() > 0 {
        r.label.clone()
    } else {
        let mut v: Vec<char> = Vec::new();
        push_str(&mut v, if from_inc { "[" } else { "(" });
        push_all(&mut v, chars_of(from.as_str()).as_slice());
        push_str(&mut v, " … ");
        push_all(&mut v, chars_of(to.as_str()).as_slice());
        push_str(&mut v, if to_inc { "]" } else { ")" });
        string_of(v.as_slice())
    };
    (VersionRange { from, from_inclusive: from_inc, to, to_inclusive: to_inc }, label)
}

fn cve_link_of(rec: &FeedRecord) -> (r: Option<String>)
    ensures
        opt_view(r) == cve_link_spec(*rec),
{
    match &rec.cve_link {
        Some(l) => Some(l.clone()),
        None => match &rec.cve {
            Some(c) => {
                let cv = chars_of(c.as_str());
                if cv.len() > 0 {
                    let mut v = chars_of("https://www.cve.org/CVERecord?id=");
                    push_all(&mut v, cv.as_slice());
                    Some(string_of(v.as_slice()))
                } else {
                    None
                }
            },
            None => None,
        },
    }
}

fn build_entry(feed: &Vec<FeedRecord>, r: usize, s: usize) -> (e: IndexedVuln)
    requires
        r < feed@.len(),
        s < feed@[r as int].software@.len(),
    ensures
        entry_of(e, feed@, r as int, s as int),
{
    let rec = &feed[r];
    let soft = &rec.software[s];
    let stype = opt_or_exec(&soft.software_type, "plugin");
    let slug = opt_or_exec(&soft.slug, "");
    let name = match &soft.name {
        Some(n) => n.clone(),
        None => slug.clone(),
    };
    let cve = match &rec.cve {
        Some(c) => if chars_of(c.as_str()).len() > 0 {
            Some(c.clone())
        } else {
            None
        },
        None => None,
    };
    let mut ranges: Vec<VersionRange> = Vec::new();
    let mut labels: Vec<String> = Vec::new();
    let mut k: usize = 0;
    while k < soft.affected_versions.len()
        invariant
            k <= soft.affected_versions@.len(),
            ranges@.len() == k,
            labels@.len() == k,
            forall|j: int|
                0 <= j < k ==> range_matches_feed(#[trigger] ranges@[j], soft.affected_versions@[j])
                    && labels@[j]@ == range_label_spec(soft.affected_versions@[j]),
        decreases soft.affected_versions@.len() - k,
    {
        let (vr, lb) = build_range(&soft.affected_versions[k]);
        ranges.push(vr);
        labels.push(lb);
        k = k + 1;
    }
    let key = index_key(stype.as_str(), slug.as_str());
    IndexedVuln {
        record: r,
        software: s,
        id: opt_or_exec(&rec.id, ""),
        cve,
        cve_link: cve_link_of(rec),
        software_type: stype,
        slug,
        name,
        key,
        ranges,
        range_labels: labels,
    }
}

/// Flattens the feed into one index entry per (record, software) pair, in
/// feed order; `count` is the number of records.
pub fn build_index_from_feed(feed: &Vec<FeedRecord>, updated_at: String, bytes: u64) -> (index:
    VulnIndex)
    ensures
        index.spec_updated_at() == updated_at@,
        index.spec_bytes() == bytes,
        index.spec_count() == feed@.len(),
        index.entries().len() == entries_before(feed@, feed@.len() as int),
        forall|r: int, s: int|
            0 <= r < feed@.len() && 0 <= s < feed@[r].software@.len() ==> entry_of(
                #[trigger] index.entries()[entries_before(feed@, r) + s],
                feed@,
                r,
                s,
            ),
        buckets_law(index.entries(), index.buckets()),
{
    let mut vulns: Vec<IndexedVuln> = Vec::new();
    let mut r: usize = 0;
    while r < feed.len()
        invariant
            r <= feed@.len(),
            vulns@.len() == entries_before(feed@, r as int),
            forall|rr: int, s: int|
                0 <= rr < r && 0 <= s < feed@[rr].software@.len() ==> entry_of(
                    #[trigger] vulns@[entries_before(feed@, rr) + s],
                    feed@,
                    rr,
                    s,
                ),
        decreases feed@.len() - r,
    {
        let n = feed[r].software.len();
        let mut s: usize = 0;
        let ghost base = entries_before(feed@, r as int);
        while s < n
            invariant
                r < feed@.len(),
                s <= n,
                n == feed@[r as int].software@.len(),
                base == entries_before(feed@, r as int),
                vulns@.len() == base + s,
                forall|rr: int, ss: int|
                    0 <= rr < r && 0 <= ss < feed@[rr].software@.len() ==> entry_of(
                        #[trigger] vulns@[entries_before(feed@, rr) + ss],
                        feed@,
                        rr,
                        ss,
                    ),
                forall|ss: int| 0 <= ss < s ==> entry_of(#[trigger] vulns@[base + ss], feed@, r as int, ss),
            decreases n - s,
        {
            let e = build_entry(feed, r, s);
            let ghost before = vulns@;
            vulns.push(e);
            proof {
                assert forall|rr: int, ss: int|
                    0 <= rr < r && 0 <= ss < feed@[rr].software@.len() implies entry_of(
                    #[trigger] vulns@[entries_before(feed@, rr) + ss],
                    feed@,
                    rr,
                    ss,
                ) by {
                    lemma_entries_before_bound(feed@, rr, ss, r as int);
                    assert(vulns@[entries_before(feed@, rr) + ss] == before[entries_before(feed@, rr) + ss]);
                }
                assert forall|ss: int| 0 <= ss < s + 1 implies entry_of(#[trigger] vulns@[base + ss], feed@, r as int, ss) by {
                    if ss < s {
                        assert(vulns@[base + ss] == before[base + ss]);
                    }
                }
            }
            s = s + 1;
        }
        proof {
            assert forall|rr: int, ss: int|
                0 <= rr < r + 1 && 0 <= ss < feed@[rr].software@.len() implies entry_of(
                #[trigger] vulns@[entries_before(feed@, rr) + ss],
                feed@,
                rr,
                ss,
            ) by {
                if rr == r {
                    assert(vulns@[base + ss] == vulns@[entries_before(feed@, rr) + ss]);
                }
            }
        }
        r = r + 1;
    }
    VulnIndex::from_entries(vulns, updated_at, feed.len(), bytes)
}

pub proof fn lemma_entries_before_bound(feed: Seq<FeedRecord>, rr: int, ss: int, r: int)
    requires
        0 <= rr < r,
        0 <= ss < feed[rr].software@.len(),
    ensures
        entries_before(feed, rr) + ss < entries_before(feed, r),
    decreases r,
{
    if rr < r - 1 {
        lemma_entries_before_bound(feed, rr, ss, r - 1);
    }
}

// ─── Matching ───────────────────────────────────────────────────────────────

/// Some range of the entry holds `version`.
pub open spec fn affects(e: IndexedVuln, version: Seq<char>) -> bool {
    exists|k: int| 0 <= k < e.ranges@.len() && version_in_range_spec(version, #[trigger] e.ranges@[k])
}

/// Entry `i` of the index matches the component.
pub open spec fn matches_component(
    vulns: Seq<IndexedVuln>,
    i: int,
    software_type: Seq<char>,
    slug: Seq<char>,
    version: Seq<char>,
) -> bool {
    vulns[i].key@ == index_key_spec(software_type, slug) && affects(vulns[i], version)
}

fn any_range_holds(e: &IndexedVuln, version: &str) -> (b: bool)
    ensures
        b == affects(*e, version@),
{
    let mut k: usize = 0;
    while k < e.ranges.len()
        invariant
            k <= e.ranges@.len(),
            forall|j: int| 0 <= j < k ==> !version_in_range_spec(version@, #[trigger] e.ranges@[j]),
        decreases e.ranges@.len() - k,
    {
        if version_in_range(version, &e.ranges[k]) {
            return true;
        }
        k = k + 1;
    }
    false
}

/// The positions among `ps` whose entries some range of holds `version`,
/// in order.
pub open spec fn affected_among(vs: Seq<IndexedVuln>, ps: Seq<usize>, version: Seq<char>) -> Seq<usize>
    decreases ps.len(),
{
    if ps.len() == 0 {
        Seq::empty()
    } else {
        let p = ps.last();
        affected_among(vs, ps.drop_last(), version) + if affects(vs[p as int], version) {
            seq![p]
        } else {
            Seq::empty()
        }
    }
}

proof fn lemma_affected_among(vs: Seq<IndexedVuln>, ps: Seq<usize>, version: Seq<char>)
    requires
        forall|j: int, k: int| 0 <= j < k < ps.len() ==> #[trigger] ps[j] < #[trigger] ps[k],
    ensures
        forall|u: usize| #[trigger] affected_among(vs, ps, version).contains(u) <==> (ps.contains(u) && affects(vs[u as int], version)),
        forall|j: int, k: int|
            0 <= j < k < affected_among(vs, ps, version).len() ==> #[trigger] affected_among(vs, ps, version)[j]
                < #[trigger] affected_among(vs, ps, version)[k],
        forall|j: int| 0 <= j < affected_among(vs, ps, version).len() ==> ps.contains(#[trigger] affected_among(vs, ps, version)[j]),
    decreases ps.len(),
{
    if ps.len() > 0 {
        let init = ps.drop_last();
        let p = ps.last();
        assert forall|j: int, k: int| 0 <= j < k < init.len() implies #[trigger] init[j] < #[trigger] init[k] by {
            assert(init[j] == ps[j] && init[k] == ps[k]);
        }
        lemma_affected_among(vs, init, version);
        let a = affected_among(vs, init, version);
        let r = affected_among(vs, ps, version);
        assert forall|j: int| 0 <= j < a.len() implies #[trigger] a[j] < p by {
            assert(init.contains(a[j]));
            let m = choose|m: int| 0 <= m < init.len() && init[m] == a[j];
            assert(ps[m] == a[j] && ps[ps.len() - 1] == p);
        }
        assert forall|j: int| 0 <= j < r.len() implies ps.contains(#[trigger] r[j]) by {
            if j < a.len() {
                assert(r[j] == a[j]);
                assert(init.contains(a[j]));
                let m = choose|m: int| 0 <= m < init.len() && init[m] == a[j];
                assert(ps[m] == a[j]);
            } else {
                assert(r[j] == p);
                assert(ps[ps.len() - 1] == p);
            }
        }
        assert forall|j: int, k: int| 0 <= j < k < r.len() implies #[trigger] r[j] < #[trigger] r[k] by {
            if k < a.len() {
                assert(r[j] == a[j] && r[k] == a[k]);
            } else {
                assert(r[j] == a[j] && r[k] == p);
            }
        }
        assert forall|u: usize| #[trigger] r.contains(u) <==> (ps.contains(u) && affects(vs[u as int], version)) by {
            if r.contains(u) {
                let w = choose|w: int| 0 <= w < r.len() && r[w] == u;
                if w < a.len() {
                    assert(r[w] == a[w]);
                    assert(a.contains(u));
                    let m = choose|m: int| 0 <= m < init.len() && init[m] == u;
                    assert(ps[m] == u);
                } else {
                    assert(ps[ps.len() - 1] == u);
                }
            }
            if ps.contains(u) && affects(vs[u as int], version) {
                let m = choose|m: int| 0 <= m < ps.len() && ps[m] == u;
                if m < ps.len() - 1 {
                    assert(init[m] == u);
                    assert(init.contains(u));
                    assert(a.contains(u));
                    let w = choose|w: int| 0 <= w < a.len() && a[w] == u;
                    assert(r[w] == u);
                } else {
                    assert(r[r.len() - 1] == u);
                }
            }
        }
    }
}

/// Indices (ascending) of the index entries that affect the component; none
/// when the component's version is unknown. Only the bucket of the
/// component's key is read.
pub fn match_component(
    index: &VulnIndex,
    software_type: &str,
    slug: &str,
    version: Option<&str>,
) -> (r: Vec<usize>)
    ensures
        version is None ==> r@.len() == 0,
        version matches Some(v) ==> {
            &&& forall|j: int| 0 <= j < r@.len() ==> #[trigger] r@[j] < index.entries().len()
            &&& forall|j: int, k: int| 0 <= j < k < r@.len() ==> r@[j] < r@[k]
            &&& forall|i: int|
                0 <= i < index.entries().len() ==> (r@.contains(i as usize) <==> matches_component(
                    index.entries(),
                    i,
                    software_type@,
                    slug@,
                    v@,
                ))
        },
{
    proof {
        use_type_invariant(index);
    }
    let v = match version {
        Some(v) => v,
        None => {
            return Vec::new();
        },
    };
    let key = index_key(software_type, slug);
    let ghost vs = index.vulns@;
    let ghost bk = index.by_key@;
    assert(vs.len() == index.vulns.len());
    let ghost kv = key@;
    let b = match find_bucket(&index.by_key, key.as_str()) {
        Some(b) => b,
        None => {
            proof {
                assert forall|i: int| 0 <= i < vs.len() implies !matches_component(
                    vs,
                    i,
                    software_type@,
                    slug@,
                    v@,
                ) by {
                    let c = choose|c: int| #[trigger] holds_at(bk, c, vs[i].key@, i);
                    assert(bk[c].0@ != kv);
                }
            }
            return Vec::new();
        },
    };
    let list = &index.by_key[b].1;
    let ghost lv = list@;
    let mut out: Vec<usize> = Vec::new();
    let mut j: usize = 0;
    assert(lv.take(0) =~= Seq::<usize>::empty());
    while j < list.len()
        invariant
            j <= lv.len(),
            lv == list@,
            vs == index.vulns@,
            lv == bk[b as int].1@,
            b < bk.len(),
            bk == index.by_key@,
            buckets_over(vs, bk, vs.len() as int),
            out@ == affected_among(vs, lv.take(j as int), v@),
        decreases lv.len() - j,
    {
        let idx = list[j];
        assert(lv.take(j + 1).drop_last() =~= lv.take(j as int));
        assert(lv.take(j + 1).last() == idx);
        assert(idx < vs.len());
        let hit = any_range_holds(&index.vulns[idx], v);
        if hit {
            out.push(idx);
        }
        j = j + 1;
    }
    proof {
        assert(lv.take(lv.len() as int) =~= lv);
        lemma_affected_among(vs, lv, v@);
        assert(vs.len() == index.vulns.len());
        assert forall|k: int| 0 <= k < out@.len() implies #[trigger] out@[k] < vs.len() by {
            assert(lv.contains(out@[k]));
            let m = choose|m: int| 0 <= m < lv.len() && lv[m] == out@[k];
            assert(bk[b as int].1@[m] == out@[k]);
        }
        assert forall|x: int| 0 <= x < vs.len() implies (out@.contains(x as usize) <==> matches_component(
            vs,
            x,
            software_type@,
            slug@,
            v@,
        )) by {
            let u = x as usize;
            assert(u as int == x);
            if lv.contains(u) {
                let m = choose|m: int| 0 <= m < lv.len() && lv[m] == u;
                assert(bk[b as int].1@[m] == u);
            }
            if vs[x].key@ == kv {
                let c = choose|c: int| #[trigger] holds_at(bk, c, vs[x].key@, x);
                if c != b {
                    if c < b {
                        assert(bk[c].0@ != bk[b as int].0@);
                    } else {
                        assert(bk[b as int].0@ != bk[c].0@);
                    }
                }
            }
        }
    }
    out
}

// ─── Laws of ranges ─────────────────────────────────────────────────────────

/// A version is in a range only within its bounds: strictly above an
/// exclusive lower bound and at least an inclusive one, strictly below an
/// exclusive upper bound (so the release that fixed a vulnerability, the
/// usual exclusive upper bound, is not affected) and at most an inclusive
/// one; a `*` bound is open. Conversely, a version (not blank) within all
/// its bounds is in the range.
pub proof fn in_range_respects_bounds(version: Seq<char>, range: VersionRange)
    ensures
        version_in_range_spec(version, range) && range.to@ != seq!['*'] && !range.to_inclusive
            ==> range_version_cmp_spec(version, range.to@) == Ordering::Less,
        version_in_range_spec(version, range) && range.to@ != seq!['*']
            ==> range_version_cmp_spec(version, range.to@) != Ordering::Greater,
        version_in_range_spec(version, range) && range.from@ != seq!['*'] && !range.from_inclusive
            ==> range_version_cmp_spec(version, range.from@) == Ordering::Greater,
        version_in_range_spec(version, range) && range.from@ != seq!['*']
            ==> range_version_cmp_spec(version, range.from@) != Ordering::Less,
        version_in_range_spec(version, range) ==> trim(version).len() > 0,
        ({
            let below_to = range.to@ == seq!['*'] || range_version_cmp_spec(version, range.to@)
                == Ordering::Less || (range.to_inclusive && range_version_cmp_spec(version, range.to@)
                == Ordering::Equal);
            let above_from = range.from@ == seq!['*'] || range_version_cmp_spec(version, range.from@)
                == Ordering::Greater || (range.from_inclusive && range_version_cmp_spec(
                version,
                range.from@,
            ) == Ordering::Equal);
            trim(version).len() > 0 && below_to && above_from ==> version_in_range_spec(version, range)
        }),
{
}

/// Comparing range versions: `*` is equal to anything, a version equals
/// itself, and swapping the two sides reverses the answer.
pub proof fn range_cmp_laws(a: Seq<char>, b: Seq<char>)
    ensures
        range_version_cmp_spec(a, a) == Ordering::Equal,
        a == seq!['*'] || b == seq!['*'] ==> range_version_cmp_spec(a, b) == Ordering::Equal,
        range_version_cmp_spec(a, b) == Ordering::Less <==> range_version_cmp_spec(b, a) == Ordering::Greater,
        range_version_cmp_spec(a, b) == Ordering::Equal <==> range_version_cmp_spec(b, a) == Ordering::Equal,
{
    crate::component_intel::lemma_parts_order_laws(spec_parse_parts(a), spec_parse_parts(b), spec_parse_parts(a));
}

/// The release named as an exclusive upper bound, usually the one that
/// fixed the vulnerability, is not affected.
pub proof fn fixed_release_not_affected(range: VersionRange)
    ensures
        range.to@ != seq!['*'] && !range.to_inclusive ==> !version_in_range_spec(range.to@, range),
{
    range_cmp_laws(range.to@, range.to@);
}

} // verus!
