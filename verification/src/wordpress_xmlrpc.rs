//! WordPress XML-RPC probe: from the answer to `system.listMethods` (and a
//! plain GET when that is inconclusive) decides whether the endpoint is
//! live, which methods it exposes, and which of them widen the attack
//! surface (multicall, pingback, user/profile methods).

use vstd::prelude::*;

use crate::text::{
    chars_of, contains, decimal, decimal_chars, lit, lower_chars, push_all, push_str, seq_lt,
    sort_seqs, sort_strings, starts_with, str_contains, str_eq, str_to_lowercase, string_of,
    strs_view, contains_chars,
};
use crate::wp_html::{methods_from, parse_method_strings};

verus! {

pub struct WpXmlrpcResponse {
    pub url: String,
    pub endpoint: String,
    pub available: bool,
    pub methods: Vec<String>,
    pub method_count: usize,
    pub multicall: bool,
    pub pingback: bool,
    pub system_get_capabilities: bool,
    pub interesting: Vec<String>,
    pub notes: Vec<String>,
    pub error: Option<String>,
}

/// The `system.listMethods` call posted to the endpoint.
pub fn list_methods_body() -> (r: &'static str)
    ensures
        r@ == "<?xml version=\"1.0\"?>\n<methodCall>\n  <methodName>system.listMethods</methodName>\n  <params></params>\n</methodCall>"@,
{
    "<?xml version=\"1.0\"?>\n<methodCall>\n  <methodName>system.listMethods</methodName>\n  <params></params>\n</methodCall>"
}

/// The endpoint probed for a site.
pub fn xmlrpc_endpoint(base: &str) -> (r: String)
    ensures
        r@ == base@ + "/xmlrpc.php"@,
{
    let mut e = chars_of(base);
    push_str(&mut e, "/xmlrpc.php");
    string_of(e.as_slice())
}

/// Answer to the `listMethods` POST.
pub enum PostProbe {
    Failed { error: String },
    Response { status: u16, body: Option<String> },
}

/// What the POST shows: (available, methods, notes).
pub open spec fn post_phase(p: PostProbe) -> (bool, Seq<Seq<char>>, Seq<Seq<char>>) {
    match p {
        PostProbe::Failed { .. } => (false, seq![], seq![]),
        PostProbe::Response { status, body } => {
            let n0 = seq!["POST xmlrpc.php → HTTP "@ + decimal(status as nat)];
            let a0 = status == 200 || status == 405;
            match body {
                None => (a0, seq![], n0),
                Some(b) => {
                    let fault = contains(b@, "faultCode"@) && contains(b@, "405"@);
                    let a1 = if fault {
                        false
                    } else {
                        a0
                    };
                    let n1 = if fault {
                        n0.push("XML-RPC appears disabled (fault/405)"@)
                    } else {
                        n0
                    };
                    let listed = contains(b@, "<methodResponse>"@) || contains(b@, "<string>"@);
                    let m = if listed {
                        methods_from(b@, seq![])
                    } else {
                        seq![]
                    };
                    let a2 = if listed {
                        true
                    } else {
                        a1
                    };
                    let n2 = if listed {
                        n1.push("system.listMethods returned "@ + decimal(m.len()) + " methods"@)
                    } else {
                        n1
                    };
                    let post_only = contains(
                        str_to_lowercase(b@),
                        "xml-rpc server accepts post requests only"@,
                    );
                    (
                        if post_only {
                            true
                        } else {
                            a2
                        },
                        m,
                        if post_only {
                            n2.push("Endpoint alive but needs POST (GET blocked)"@)
                        } else {
                            n2
                        },
                    )
                },
            }
        },
    }
}

/// Availability and notes after the fallback GET (body, when it answered).
pub open spec fn get_phase(avail: bool, notes: Seq<Seq<char>>, get: Option<String>) -> (bool, Seq<Seq<char>>) {
    if avail {
        (avail, notes)
    } else {
        match get {
            Some(b) => if contains(str_to_lowercase(b@), "xml-rpc"@) {
                (true, notes.push("GET suggests XML-RPC endpoint exists"@))
            } else {
                (avail, notes)
            },
            None => (avail, notes),
        }
    }
}

pub open spec fn is_interesting_method(m: Seq<char>) -> bool {
    contains(m, "pingback"@) || contains(m, "multicall"@) || starts_with(m, "wp."@) || starts_with(
        m,
        "blogger."@,
    ) || contains(m, "getUsersBlogs"@) || contains(m, "getProfile"@)
}

pub open spec fn keep_interesting(ms: Seq<Seq<char>>) -> Seq<Seq<char>>
    decreases ms.len(),
{
    if ms.len() == 0 {
        seq![]
    } else {
        let p = keep_interesting(ms.drop_last());
        if is_interesting_method(ms.last()) {
            p.push(ms.last())
        } else {
            p
        }
    }
}

/// `Vec::dedup`: drops each element equal to the one kept before it.
pub open spec fn dedup(s: Seq<Seq<char>>) -> Seq<Seq<char>>
    decreases s.len(),
{
    if s.len() == 0 {
        seq![]
    } else {
        let p = dedup(s.drop_last());
        if p.len() > 0 && p.last() == s.last() {
            p
        } else {
            p.push(s.last())
        }
    }
}

pub open spec fn any_contains(ms: Seq<Seq<char>>, pat: Seq<char>) -> bool {
    exists|i: int| 0 <= i < ms.len() && contains(#[trigger] ms[i], pat)
}

pub open spec fn closing_notes(multicall: bool, pingback: bool, available: bool) -> Seq<Seq<char>> {
    (if multicall {
        seq!["system.multicall enabled — amplifies brute-force / abuse potential"@]
    } else {
        seq![]
    }) + (if pingback {
        seq!["pingback methods present — SSRF/DDoS pivot surface"@]
    } else {
        seq![]
    }) + (if !available {
        seq!["XML-RPC looks disabled or filtered — good hardening"@]
    } else {
        seq![]
    })
}

fn has(b: &str, p: &str) -> (r: bool)
    ensures
        r == contains(b@, p@),
{
    str_contains(b, p)
}

fn lower_has(b: &str, p: &str) -> (r: bool)
    ensures
        r == contains(str_to_lowercase(b@), p@),
{
    let l = lower_chars(chars_of(b).as_slice());
    contains_chars(l.as_slice(), chars_of(p).as_slice())
}

fn interesting_exec(m: &str) -> (r: bool)
    ensures
        r == is_interesting_method(m@),
{
    let mc = chars_of(m);
    has(m, "pingback") || has(m, "multicall") || crate::text::has_prefix(
        mc.as_slice(),
        chars_of("wp.").as_slice(),
    ) || crate::text::has_prefix(mc.as_slice(), chars_of("blogger.").as_slice()) || has(
        m,
        "getUsersBlogs",
    ) || has(m, "getProfile")
}

fn clone_strings(v: &Vec<String>) -> (r: Vec<String>)
    ensures
        strs_view(r@) == strs_view(v@),
{
    let mut out: Vec<String> = Vec::new();
    let mut i: usize = 0;
    while i < v.len()
        invariant
            i <= v@.len(),
            strs_view(out@) == strs_view(v@).take(i as int),
        decreases v@.len() - i,
    {
        let ghost prev = strs_view(out@);
        out.push(v[i].clone());
        assert(strs_view(out@) =~= prev.push(v@[i as int]@));
        assert(strs_view(v@).take(i + 1) =~= strs_view(v@).take(i as int).push(v@[i as int]@));
        i = i + 1;
    }
    assert(strs_view(v@).take(v@.len() as int) =~= strs_view(v@));
    out
}

/// Builds the probe's answer from the POST and, when the POST did not show
/// the endpoint, the fallback GET's body.
pub fn xmlrpc_report(base: &str, post: PostProbe, get: Option<String>) -> (r: WpXmlrpcResponse)
    ensures
        r.url@ == base@,
        r.endpoint@ == base@ + "/xmlrpc.php"@,
        ({
            let (a1, m, n1) = post_phase(post);
            let (a2, n2) = get_phase(a1, n1, get);
            &&& r.available == a2
            &&& strs_view(r.methods@) == m
            &&& r.method_count == m.len()
            &&& r.multicall == m.contains("system.multicall"@)
            &&& r.pingback == any_contains(m, "pingback"@)
            &&& r.system_get_capabilities == m.contains("system.getCapabilities"@)
            &&& strs_view(r.interesting@) == dedup(sort_seqs(keep_interesting(m)))
            &&& strs_view(r.notes@) == n2 + closing_notes(r.multicall, r.pingback, a2)
        }),
        match post {
            PostProbe::Failed { error } => r.error matches Some(e) && e@ == "Request failed: "@
                + error@,
            _ => r.error is None,
        },
{
    let mut notes: Vec<String> = Vec::new();
    let mut methods: Vec<String> = Vec::new();
    let mut available = false;
    let mut error: Option<String> = None;
    match &post {
        PostProbe::Failed { error: e } => {
            let mut m = chars_of("Request failed: ");
            push_all(&mut m, chars_of(e.as_str()).as_slice());
            error = Some(string_of(m.as_slice()));
            assert(strs_view(notes@) =~= Seq::<Seq<char>>::empty());
            assert(strs_view(methods@) =~= Seq::<Seq<char>>::empty());
        },
        PostProbe::Response { status, body } => {
            let mut n = chars_of("POST xmlrpc.php → HTTP ");
            push_all(&mut n, decimal_chars(*status as u64).as_slice());
            notes.push(string_of(n.as_slice()));
            available = *status == 200 || *status == 405;
            assert(strs_view(methods@) =~= Seq::<Seq<char>>::empty());
            if let Some(b) = body {
                let ghost n0 = strs_view(notes@);
                if has(b.as_str(), "faultCode") && has(b.as_str(), "405") {
                    available = false;
                    notes.push(lit("XML-RPC appears disabled (fault/405)"));
                }
                let ghost n1 = strs_view(notes@);
                if has(b.as_str(), "<methodResponse>") || has(b.as_str(), "<string>") {
                    available = true;
                    methods = parse_method_strings(b.as_str());
                    let mut c = chars_of("system.listMethods returned ");
                    push_all(&mut c, decimal_chars(methods.len() as u64).as_slice());
                    push_str(&mut c, " methods");
                    notes.push(string_of(c.as_slice()));
                }
                if lower_has(b.as_str(), "xml-rpc server accepts post requests only") {
                    available = true;
                    notes.push(lit("Endpoint alive but needs POST (GET blocked)"));
                }
            }
        },
    }
    assert(strs_view(notes@) =~= post_phase(post).2);
    if !available {
        if let Some(b) = &get {
            if lower_has(b.as_str(), "xml-rpc") {
                available = true;
                notes.push(lit("GET suggests XML-RPC endpoint exists"));
            }
        }
    }
    assert(strs_view(notes@) =~= get_phase(post_phase(post).0, post_phase(post).2, get).1);
    let ghost mv = strs_view(methods@);
    let mut multicall = false;
    let mut pingback = false;
    let mut caps = false;
    let mut picked: Vec<String> = Vec::new();
    let mut i: usize = 0;
    while i < methods.len()
        invariant
            i <= methods@.len(),
            mv == strs_view(methods@),
            multicall == mv.take(i as int).contains("system.multicall"@),
            caps == mv.take(i as int).contains("system.getCapabilities"@),
            pingback == any_contains(mv.take(i as int), "pingback"@),
            strs_view(picked@) == keep_interesting(mv.take(i as int)),
        decreases methods@.len() - i,
    {
        let ghost t = mv.take(i as int);
        let ghost t2 = mv.take(i + 1);
        assert(t2.drop_last() =~= t);
        assert(t2 =~= t.push(methods@[i as int]@));
        let m = &methods[i];
        if str_eq(m.as_str(), "system.multicall") {
            multicall = true;
            assert(t2[i as int] == "system.multicall"@);
        }
        if str_eq(m.as_str(), "system.getCapabilities") {
            caps = true;
            assert(t2[i as int] == "system.getCapabilities"@);
        }
        if has(m.as_str(), "pingback") {
            pingback = true;
            assert(contains(t2[i as int], "pingback"@));
        }
        proof {
            if !multicall {
                assert(!t2.contains("system.multicall"@)) by {
                    if t2.contains("system.multicall"@) {
                        let w = choose|w: int| 0 <= w < t2.len() && t2[w] == "system.multicall"@;
                        if w < i {
                            assert(t[w] == t2[w]);
                        }
                    }
                }
            }
            if !caps {
                assert(!t2.contains("system.getCapabilities"@)) by {
                    if t2.contains("system.getCapabilities"@) {
                        let w = choose|w: int|
                            0 <= w < t2.len() && t2[w] == "system.getCapabilities"@;
                        if w < i {
                            assert(t[w] == t2[w]);
                        }
                    }
                }
            }
            if !pingback {
                assert(!any_contains(t2, "pingback"@)) by {
                    if any_contains(t2, "pingback"@) {
                        let w = choose|w: int| 0 <= w < t2.len() && contains(t2[w], "pingback"@);
                        if w < i {
                            assert(t[w] == t2[w]);
                        }
                    }
                }
            } else {
                if any_contains(t, "pingback"@) {
                    let w = choose|w: int| 0 <= w < t.len() && contains(t[w], "pingback"@);
                    assert(t2[w] == t[w]);
                }
            }
            if multicall && t.contains("system.multicall"@) {
                let w = choose|w: int| 0 <= w < t.len() && t[w] == "system.multicall"@;
                assert(t2[w] == t[w]);
            }
            if caps && t.contains("system.getCapabilities"@) {
                let w = choose|w: int| 0 <= w < t.len() && t[w] == "system.getCapabilities"@;
                assert(t2[w] == t[w]);
            }
        }
        if interesting_exec(m.as_str()) {
            let ghost prev = strs_view(picked@);
            picked.push(m.clone());
            assert(strs_view(picked@) =~= prev.push(m@));
        }
        i = i + 1;
    }
    assert(mv.take(methods@.len() as int) =~= mv);
    let sorted = sort_strings(picked);
    let mut interesting: Vec<String> = Vec::new();
    let ghost sv = strs_view(sorted@);
    let mut j: usize = 0;
    while j < sorted.len()
        invariant
            j <= sorted@.len(),
            sv == strs_view(sorted@),
            strs_view(interesting@) == dedup(sv.take(j as int)),
        decreases sorted@.len() - j,
    {
        assert(sv.take(j + 1).drop_last() =~= sv.take(j as int));
        assert(sv.take(j + 1).last() == sorted@[j as int]@);
        let n = interesting.len();
        let dup = n > 0 && str_eq(interesting[n - 1].as_str(), sorted[j].as_str());
        if !dup {
            let ghost prev = strs_view(interesting@);
            interesting.push(sorted[j].clone());
            assert(strs_view(interesting@) =~= prev.push(sorted@[j as int]@));
        }
        j = j + 1;
    }
    assert(sv.take(sorted@.len() as int) =~= sv);
    if multicall {
        notes.push(lit("system.multicall enabled — amplifies brute-force / abuse potential"));
    }
    if pingback {
        notes.push(lit("pingback methods present — SSRF/DDoS pivot surface"));
    }
    if !available {
        notes.push(lit("XML-RPC looks disabled or filtered — good hardening"));
    }
    let count = methods.len();
    WpXmlrpcResponse {
        url: lit(base),
        endpoint: xmlrpc_endpoint(base),
        available,
        methods,
        method_count: count,
        multicall,
        pingback,
        system_get_capabilities: caps,
        interesting,
        notes,
        error,
    }
}

} // verus!
