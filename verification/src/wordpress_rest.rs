//! WordPress REST surface map: probes the REST root through its three
//! usual URLs (stopping at the first JSON answer), then lists namespaces,
//! counts routes and picks out the routes that expose users, plugins,
//! settings, uploads and the like.

use vstd::prelude::*;

use crate::text::ov;

use crate::text::{
    chars_of, contains, contains_chars, decimal, decimal_chars, lit, lower_chars, push_all,
    push_str, sort_seqs, sort_strings, starts_with, str_eq, str_to_lowercase, string_of,
    strs_view,
};

verus! {

pub struct WpRestResponse {
    pub url: String,
    pub available: bool,
    pub name: Option<String>,
    pub description: Option<String>,
    pub wp_version: Option<String>,
    pub namespaces: Vec<String>,
    pub interesting_routes: Vec<String>,
    pub route_count: usize,
    pub notes: Vec<String>,
    pub error: Option<String>,
}

/// Number of route keywords.
pub const KEYWORD_COUNT: usize = 24;

/// Route keywords that make a route interesting.
pub open spec fn keyword(k: int) -> Seq<char> {
    if k == 0 {
        "users"@
    } else if k == 1 {
        "plugins"@
    } else if k == 2 {
        "themes"@
    } else if k == 3 {
        "settings"@
    } else if k == 4 {
        "options"@
    } else if k == 5 {
        "media"@
    } else if k == 6 {
        "comments"@
    } else if k == 7 {
        "jwt"@
    } else if k == 8 {
        "auth"@
    } else if k == 9 {
        "login"@
    } else if k == 10 {
        "register"@
    } else if k == 11 {
        "wc/"@
    } else if k == 12 {
        "elementor"@
    } else if k == 13 {
        "wordfence"@
    } else if k == 14 {
        "yoast"@
    } else if k == 15 {
        "rankmath"@
    } else if k == 16 {
        "contact-form"@
    } else if k == 17 {
        "form"@
    } else if k == 18 {
        "upload"@
    } else if k == 19 {
        "file"@
    } else if k == 20 {
        "admin"@
    } else if k == 21 {
        "debug"@
    } else if k == 22 {
        "redirection"@
    } else {
        "oembed"@
    }
}

fn keyword_exec(k: usize) -> (r: &'static str)
    requires
        k < KEYWORD_COUNT,
    ensures
        r@ == keyword(k as int),
{
    if k == 0 {
        "users"
    } else if k == 1 {
        "plugins"
    } else if k == 2 {
        "themes"
    } else if k == 3 {
        "settings"
    } else if k == 4 {
        "options"
    } else if k == 5 {
        "media"
    } else if k == 6 {
        "comments"
    } else if k == 7 {
        "jwt"
    } else if k == 8 {
        "auth"
    } else if k == 9 {
        "login"
    } else if k == 10 {
        "register"
    } else if k == 11 {
        "wc/"
    } else if k == 12 {
        "elementor"
    } else if k == 13 {
        "wordfence"
    } else if k == 14 {
        "yoast"
    } else if k == 15 {
        "rankmath"
    } else if k == 16 {
        "contact-form"
    } else if k == 17 {
        "form"
    } else if k == 18 {
        "upload"
    } else if k == 19 {
        "file"
    } else if k == 20 {
        "admin"
    } else if k == 21 {
        "debug"
    } else if k == 22 {
        "redirection"
    } else {
        "oembed"
    }
}


/// A route is interesting when its lower-cased form contains a keyword.
pub open spec fn route_interesting(route: Seq<char>) -> bool {
    exists|k: int| 0 <= k < KEYWORD_COUNT && contains(str_to_lowercase(route), #[trigger] keyword(k))
}

fn route_interesting_exec(route: &str) -> (b: bool)
    ensures
        b == route_interesting(route@),
{
    let lower = lower_chars(chars_of(route).as_slice());
    let mut k: usize = 0;
    while k < KEYWORD_COUNT
        invariant
            k <= KEYWORD_COUNT,
            lower@ == str_to_lowercase(route@),
            forall|j: int| 0 <= j < k ==> !contains(str_to_lowercase(route@), #[trigger] keyword(j)),
        decreases KEYWORD_COUNT - k,
    {
        let kw = keyword_exec(k);
        if contains_chars(lower.as_slice(), chars_of(kw).as_slice()) {
            return true;
        }
        k = k + 1;
    }
    false
}

/// The REST URLs tried, in order.
pub open spec fn endpoint_spec(base: Seq<char>, k: int) -> Seq<char> {
    if k == 0 {
        base + "/wp-json/"@
    } else if k == 1 {
        base + "/?rest_route=/"@
    } else {
        base + "/index.php?rest_route=/"@
    }
}

pub fn rest_endpoints(base: &str) -> (r: Vec<String>)
    ensures
        r@.len() == 3,
        forall|k: int| 0 <= k < 3 ==> (#[trigger] r@[k])@ == endpoint_spec(base@, k),
{
    let mut a = chars_of(base);
    push_str(&mut a, "/wp-json/");
    let mut b = chars_of(base);
    push_str(&mut b, "/?rest_route=/");
    let mut c = chars_of(base);
    push_str(&mut c, "/index.php?rest_route=/");
    let v = vec![string_of(a.as_slice()), string_of(b.as_slice()), string_of(c.as_slice())];
    v
}

/// What the REST root's JSON says (string fields only; `routes` is `None`
/// unless it is an object, whose keys are listed in order).
pub struct RootInfo {
    pub name: Option<String>,
    pub description: Option<String>,
    pub version: Option<String>,
    pub namespaces: Vec<String>,
    pub routes: Option<Vec<String>>,
    pub home: Option<String>,
    pub url: Option<String>,
}

/// Outcome of one REST root probe.
pub enum RestProbe {
    Failed { error: String },
    /// Not a 2xx answer.
    Status { code: u16 },
    /// A 2xx answer that is not JSON.
    Unreadable,
    Root { info: RootInfo },
}

/// Index of the first probe that found the root.
pub open spec fn first_root(ps: Seq<RestProbe>) -> Option<int>
    decreases ps.len(),
{
    if ps.len() == 0 {
        None
    } else if ps[0] is Root {
        Some(0)
    } else {
        match first_root(ps.drop_first()) {
            Some(k) => Some(k + 1),
            None => None,
        }
    }
}

/// The probes that were made: up to and including the first that found it.
pub open spec fn made(ps: Seq<RestProbe>) -> Seq<RestProbe> {
    match first_root(ps) {
        Some(k) => ps.take(k + 1),
        None => ps,
    }
}

pub open spec fn probe_notes(base: Seq<char>, ps: Seq<RestProbe>) -> Seq<Seq<char>>
    decreases ps.len(),
{
    if ps.len() == 0 {
        seq![]
    } else {
        let prev = probe_notes(base, ps.drop_last());
        let ep = endpoint_spec(base, ps.len() - 1);
        match ps.last() {
            RestProbe::Status { code } => prev.push(ep + " → HTTP "@ + decimal(code as nat)),
            RestProbe::Root { .. } => prev.push("REST root OK via "@ + ep),
            _ => prev,
        }
    }
}

pub open spec fn probe_error(ps: Seq<RestProbe>) -> Option<Seq<char>>
    decreases ps.len(),
{
    if ps.len() == 0 {
        None
    } else {
        match probe_error(ps.drop_last()) {
            Some(e) => Some(e),
            None => match ps.last() {
                RestProbe::Failed { error } => Some("Request failed: "@ + error@),
                _ => None,
            },
        }
    }
}

pub open spec fn keep_routes(rs: Seq<Seq<char>>) -> Seq<Seq<char>>
    decreases rs.len(),
{
    if rs.len() == 0 {
        seq![]
    } else {
        let p = keep_routes(rs.drop_last());
        if route_interesting(rs.last()) {
            p.push(rs.last())
        } else {
            p
        }
    }
}

/// Interesting routes, sorted, at most 80.
pub open spec fn interesting_spec(rs: Seq<Seq<char>>) -> Seq<Seq<char>> {
    let s = sort_seqs(keep_routes(rs));
    if s.len() > 80 {
        s.take(80)
    } else {
        s
    }
}

pub open spec fn root_notes(info: RootInfo) -> Seq<Seq<char>> {
    (match info.routes {
        Some(rs) => if sort_seqs(keep_routes(strs_view(rs@))).len() > 80 {
            seq!["Interesting routes truncated to 80"@]
        } else {
            seq![]
        },
        None => seq![],
    }) + (match info.home {
        Some(h) => seq!["home="@ + h@],
        None => seq![],
    }) + (match info.url {
        Some(u) => seq!["url="@ + u@],
        None => seq![],
    })
}

pub open spec fn namespace_notes(ns: Seq<Seq<char>>, available: bool) -> Seq<Seq<char>> {
    (if ns.contains("wp/v2"@) {
        seq!["Core namespace wp/v2 present"@]
    } else {
        seq![]
    }) + (if exists|i: int| 0 <= i < ns.len() && starts_with(#[trigger] ns[i], "wc/"@) {
        seq!["WooCommerce REST namespaces detected"@]
    } else {
        seq![]
    }) + (if !available {
        seq!["REST API root not reachable — may be disabled or blocked"@]
    } else {
        seq![]
    })
}

pub open spec fn root_of(ps: Seq<RestProbe>) -> Option<RootInfo> {
    match first_root(ps) {
        Some(k) => match ps[k] {
            RestProbe::Root { info } => Some(info),
            _ => None,
        },
        None => None,
    }
}

pub proof fn lemma_first_root(ps: Seq<RestProbe>)
    ensures
        match first_root(ps) {
            Some(k) => 0 <= k < ps.len() && ps[k] is Root && forall|j: int|
                0 <= j < k ==> !(#[trigger] ps[j] is Root),
            None => forall|j: int| 0 <= j < ps.len() ==> !(#[trigger] ps[j] is Root),
        },
    decreases ps.len(),
{
    if ps.len() > 0 && !(ps[0] is Root) {
        lemma_first_root(ps.drop_first());
        assert forall|j: int| 0 < j < ps.len() implies ps[j] == ps.drop_first()[j - 1] by {}
    }
}

fn opt_clone(o: &Option<String>) -> (r: Option<String>)
    ensures
        ov(r) == ov(*o),
{
    match o {
        Some(x) => Some(x.clone()),
        None => None,
    }
}

fn clone_strings(v: &Vec<String>) -> (r: Vec<String>)
    ensures
        strs_view(r@) == strs_view(v@),
{
    let mut out: Vec<String> = Vec::new();
    let mut i: usize = 0;
    while i < v.len()
        invariant
            i <= v@.len(),
            strs_view(out@) == strs_view(v@).take(i as int),
        decreases v@.len() - i,
    {
        let ghost prev = strs_view(out@);
        out.push(v[i].clone());
        assert(strs_view(out@) =~= prev.push(v@[i as int]@));
        assert(strs_view(v@).take(i + 1) =~= strs_view(v@).take(i as int).push(v@[i as int]@));
        i = i + 1;
    }
    assert(strs_view(v@).take(v@.len() as int) =~= strs_view(v@));
    out
}

/// Assembles the REST surface from the probes made in endpoint order (the
/// caller stops at the first that finds the root).
pub fn rest_report(base: &str, probes: &Vec<RestProbe>) -> (r: WpRestResponse)
    requires
        probes@.len() <= 3,
    ensures
        r.url@ == base@,
        r.available == (root_of(probes@) is Some),
        ov(r.error) == probe_error(made(probes@)),
        match root_of(probes@) {
            Some(info) => {
                &&& ov(r.name) == ov(info.name)
                &&& ov(r.description) == ov(info.description)
                &&& ov(r.wp_version) == ov(info.version)
                &&& strs_view(r.namespaces@) == strs_view(info.namespaces@)
                &&& r.route_count == match info.routes {
                    Some(rs) => rs@.len(),
                    None => 0,
                }
                &&& strs_view(r.interesting_routes@) == match info.routes {
                    Some(rs) => interesting_spec(strs_view(rs@)),
                    None => seq![],
                }
                &&& strs_view(r.notes@) == probe_notes(base@, made(probes@)) + root_notes(info)
                    + namespace_notes(strs_view(info.namespaces@), true)
            },
            None => {
                &&& r.name is None && r.description is None && r.wp_version is None
                &&& r.namespaces@.len() == 0 && r.interesting_routes@.len() == 0
                &&& r.route_count == 0
                &&& strs_view(r.notes@) == probe_notes(base@, made(probes@)) + namespace_notes(
                    seq![],
                    false,
                )
            },
        },
{
    let eps = rest_endpoints(base);
    let mut notes: Vec<String> = Vec::new();
    let mut error: Option<String> = None;
    let mut found: Option<usize> = None;
    let mut k: usize = 0;
    proof {
        lemma_first_root(probes@);
    }
    assert(strs_view(notes@) =~= probe_notes(base@, probes@.take(0)));
    while k < probes.len() && found.is_none()
        invariant
            k <= probes@.len(),
            probes@.len() <= 3,
            eps@.len() == 3,
            forall|j: int| 0 <= j < 3 ==> (#[trigger] eps@[j])@ == endpoint_spec(base@, j),
            match first_root(probes@) {
                Some(f) => 0 <= f < probes@.len() && probes@[f] is Root && forall|j: int|
                    0 <= j < f ==> !(#[trigger] probes@[j] is Root),
                None => forall|j: int| 0 <= j < probes@.len() ==> !(#[trigger] probes@[j] is Root),
            },
            strs_view(notes@) == probe_notes(base@, probes@.take(k as int)),
            ov(error) == probe_error(probes@.take(k as int)),
            match found {
                None => forall|j: int| 0 <= j < k ==> !(#[trigger] probes@[j] is Root),
                Some(f) => f + 1 == k && first_root(probes@) == Some(f as int),
            },
        decreases probes@.len() - k,
    {
        assert(probes@.take(k + 1).drop_last() =~= probes@.take(k as int));
        assert(probes@.take(k + 1).last() == probes@[k as int]);
        let ep = &eps[k];
        match &probes[k] {
            RestProbe::Failed { error: e } => {
                if error.is_none() {
                    let mut m = chars_of("Request failed: ");
                    push_all(&mut m, chars_of(e.as_str()).as_slice());
                    error = Some(string_of(m.as_slice()));
                }
            },
            RestProbe::Status { code } => {
                let mut n = chars_of(ep.as_str());
                push_str(&mut n, " → HTTP ");
                push_all(&mut n, decimal_chars(*code as u64).as_slice());
                notes.push(string_of(n.as_slice()));
            },
            RestProbe::Unreadable => {},
            RestProbe::Root { .. } => {
                let mut n = chars_of("REST root OK via ");
                push_all(&mut n, chars_of(ep.as_str()).as_slice());
                notes.push(string_of(n.as_slice()));
                found = Some(k);
            },
        }
        k = k + 1;
    }
    proof {
        if found is None {
            assert(probes@.take(probes@.len() as int) =~= probes@);
            lemma_first_root(probes@);
        }
    }
    assert(made(probes@) == match found {
        Some(f) => probes@.take(f + 1),
        None => probes@,
    });
    let mut name: Option<String> = None;
    let mut description: Option<String> = None;
    let mut wp_version: Option<String> = None;
    let mut namespaces: Vec<String> = Vec::new();
    let mut interesting: Vec<String> = Vec::new();
    let mut route_count: usize = 0;
    let available = found.is_some();
    let ghost n_probe = strs_view(notes@);
    assert(strs_view(namespaces@) =~= Seq::<Seq<char>>::empty());
    assert(strs_view(interesting@) =~= Seq::<Seq<char>>::empty());
    if let Some(f) = found {
        if let RestProbe::Root { info } = &probes[f] {
            name = opt_clone(&info.name);
            description = opt_clone(&info.description);
            wp_version = opt_clone(&info.version);
            namespaces = clone_strings(&info.namespaces);
            if let Some(routes) = &info.routes {
                route_count = routes.len();
                let ghost rv = strs_view(routes@);
                let mut picked: Vec<String> = Vec::new();
                let mut i: usize = 0;
                while i < routes.len()
                    invariant
                        i <= routes@.len(),
                        rv == strs_view(routes@),
                        strs_view(picked@) == keep_routes(rv.take(i as int)),
                    decreases routes@.len() - i,
                {
                    assert(rv.take(i + 1).drop_last() =~= rv.take(i as int));
                    assert(rv.take(i + 1).last() == routes@[i as int]@);
                    if route_interesting_exec(routes[i].as_str()) {
                        let ghost prev = strs_view(picked@);
                        picked.push(routes[i].clone());
                        assert(strs_view(picked@) =~= prev.push(routes@[i as int]@));
                    }
                    i = i + 1;
                }
                assert(rv.take(routes@.len() as int) =~= rv);
                let mut sorted = sort_strings(picked);
                if sorted.len() > 80 {
                    sorted.truncate(80);
                    notes.push(lit("Interesting routes truncated to 80"));
                }
                interesting = sorted;
            }
            if let Some(h) = &info.home {
                let mut n = chars_of("home=");
                push_all(&mut n, chars_of(h.as_str()).as_slice());
                notes.push(string_of(n.as_slice()));
            }
            if let Some(u) = &info.url {
                let mut n = chars_of("url=");
                push_all(&mut n, chars_of(u.as_str()).as_slice());
                notes.push(string_of(n.as_slice()));
            }
            assert(strs_view(notes@) =~= n_probe + root_notes(*info));
        }
    }
    let ghost n_root = strs_view(notes@);
    let ghost nsv = strs_view(namespaces@);
    let mut has_core = false;
    let mut has_wc = false;
    let wc = chars_of("wc/");
    let mut i: usize = 0;
    while i < namespaces.len()
        invariant
            i <= namespaces@.len(),
            nsv == strs_view(namespaces@),
            wc@ == "wc/"@,
            has_core == nsv.take(i as int).contains("wp/v2"@),
            has_wc == exists|j: int| 0 <= j < i && starts_with(#[trigger] nsv[j], "wc/"@),
        decreases namespaces@.len() - i,
    {
        let ghost t = nsv.take(i as int);
        let ghost t2 = nsv.take(i + 1);
        assert(t2 =~= t.push(nsv[i as int]));
        if str_eq(namespaces[i].as_str(), "wp/v2") {
            has_core = true;
            assert(t2[i as int] == "wp/v2"@);
        }
        if crate::text::has_prefix(chars_of(namespaces[i].as_str()).as_slice(), wc.as_slice()) {
            has_wc = true;
        }
        proof {
            if !has_core {
                assert(!t2.contains("wp/v2"@)) by {
                    if t2.contains("wp/v2"@) {
                        let w = choose|w: int| 0 <= w < t2.len() && t2[w] == "wp/v2"@;
                        if w < i {
                            assert(t[w] == t2[w]);
                        }
                    }
                }
            } else if t.contains("wp/v2"@) {
                let w = choose|w: int| 0 <= w < t.len() && t[w] == "wp/v2"@;
                assert(t2[w] == t[w]);
            }
        }
        i = i + 1;
    }
    assert(nsv.take(namespaces@.len() as int) =~= nsv);
    if has_core {
        notes.push(lit("Core namespace wp/v2 present"));
    }
    if has_wc {
        notes.push(lit("WooCommerce REST namespaces detected"));
    }
    if !available {
        notes.push(lit("REST API root not reachable — may be disabled or blocked"));
    }
    assert(strs_view(notes@) =~= n_root + namespace_notes(nsv, available));
    WpRestResponse {
        url: lit(base),
        available,
        name,
        description,
        wp_version,
        namespaces,
        interesting_routes: interesting,
        route_count,
        notes,
        error,
    }
}

} // verus!
