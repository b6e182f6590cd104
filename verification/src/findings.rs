//! The findings store: validation and normalization of a finding as
//! submitted, listing with filters, and creating, updating and deleting
//! records. The CVSS score is carried along untouched (its type is the
//! caller's); reading and writing the file, ids and clocks are the caller's.

use vstd::prelude::*;

use crate::common::utf8_len;
use crate::text::{
    chars_of, contains, eq_ignore_ascii_case, lemma_seq_lt_irreflexive, lemma_seq_lt_transitive, lit,
    lowercase, seq_lt, str_contains, str_lt,
    str_eq, str_eq_ignore_ascii_case, str_to_lowercase, string_of, strs_view, trim, trim_str,
};
use crate::common::byte_len;

verus! {

/// A stored finding; `S` is the CVSS score's type.
pub struct Finding<S> {
    pub id: String,
    pub title: String,
    pub target: String,
    pub vuln_type: String,
    pub severity: String,
    pub status: String,
    pub cve_id: String,
    pub cvss_score: S,
    pub endpoint: String,
    pub description: String,
    pub remediation: String,
    pub references: Vec<String>,
    pub tags: Vec<String>,
    pub created_at: String,
    pub updated_at: String,
}

/// A finding as submitted.
pub struct FindingInput<S> {
    pub title: String,
    pub target: String,
    pub vuln_type: String,
    pub severity: String,
    pub status: String,
    pub cve_id: String,
    pub cvss_score: S,
    pub endpoint: String,
    pub description: String,
    pub remediation: String,
    pub references: Vec<String>,
    pub tags: Vec<String>,
}

/// The list filters.
pub struct ListParams {
    pub q: Option<String>,
    pub severity: Option<String>,
    pub status: Option<String>,
}

pub struct FindingV<S> {
    pub id: Seq<char>,
    pub title: Seq<char>,
    pub target: Seq<char>,
    pub vuln_type: Seq<char>,
    pub severity: Seq<char>,
    pub status: Seq<char>,
    pub cve_id: Seq<char>,
    pub cvss_score: S,
    pub endpoint: Seq<char>,
    pub description: Seq<char>,
    pub remediation: Seq<char>,
    pub references: Seq<Seq<char>>,
    pub tags: Seq<Seq<char>>,
    pub created_at: Seq<char>,
    pub updated_at: Seq<char>,
}

pub open spec fn finding_v<S>(f: Finding<S>) -> FindingV<S> {
    FindingV {
        id: f.id@,
        title: f.title@,
        target: f.target@,
        vuln_type: f.vuln_type@,
        severity: f.severity@,
        status: f.status@,
        cve_id: f.cve_id@,
        cvss_score: f.cvss_score,
        endpoint: f.endpoint@,
        description: f.description@,
        remediation: f.remediation@,
        references: strs_view(f.references@),
        tags: strs_view(f.tags@),
        created_at: f.created_at@,
        updated_at: f.updated_at@,
    }
}

pub open spec fn findings_view<S>(v: Seq<Finding<S>>) -> Seq<FindingV<S>> {
    v.map_values(|f: Finding<S>| finding_v(f))
}

// ─── Validation ─────────────────────────────────────────────────────────────

/// A control char (`char::is_control`: categories Cc).
pub open spec fn is_control(c: char) -> bool {
    (c as u32) < 0x20 || (0x7f <= (c as u32) && (c as u32) < 0xa0)
}

/// Holds a control char other than a newline.
pub open spec fn has_bad_control(s: Seq<char>) -> bool {
    exists|i: int| 0 <= i < s.len() && is_control(#[trigger] s[i]) && s[i] != '\n'
}

fn bad_control(s: &str) -> (b: bool)
    ensures
        b == has_bad_control(s@),
{
    let v = chars_of(s);
    let mut i: usize = 0;
    while i < v.len()
        invariant
            i <= v@.len(),
            v@ == s@,
            forall|j: int| 0 <= j < i ==> !(is_control(#[trigger] v@[j]) && v@[j] != '\n'),
        decreases v@.len() - i,
    {
        let u = v[i] as u32;
        if (u < 0x20 || (0x7f <= u && u < 0xa0)) && v[i] != '\n' {
            assert(is_control(v@[i as int]) && v@[i as int] != '\n');
            return true;
        }
        i = i + 1;
    }
    false
}

/// The labelled text fields checked, in order.
pub open spec fn labelled_fields<S>(i: FindingInput<S>) -> Seq<(Seq<char>, Seq<char>)> {
    seq![
        ("target"@, i.target@),
        ("vuln_type"@, i.vuln_type@),
        ("severity"@, i.severity@),
        ("status"@, i.status@),
        ("cve_id"@, i.cve_id@),
        ("endpoint"@, i.endpoint@),
        ("description"@, i.description@),
        ("remediation"@, i.remediation@),
    ]
}

/// The first problem among the labelled fields: one over 10000 bytes, or
/// holding a control char other than a newline.
pub open spec fn field_problem(fs: Seq<(Seq<char>, Seq<char>)>) -> Option<Seq<char>>
    decreases fs.len(),
{
    if fs.len() == 0 {
        None
    } else {
        let (label, s) = fs[0];
        if utf8_len(s) > 10000 {
            Some(label + " too long"@)
        } else if has_bad_control(s) {
            Some(label + " contains invalid characters"@)
        } else {
            field_problem(fs.drop_first())
        }
    }
}

/// Why a submission is refused, if it is: a blank title, a title over 300
/// bytes, or a field problem.
pub open spec fn validate_spec<S>(i: FindingInput<S>) -> Result<(), Seq<char>> {
    let t = trim(i.title@);
    if t.len() == 0 {
        Err("Title is required"@)
    } else if utf8_len(t) > 300 {
        Err("Title too long"@)
    } else {
        match field_problem(labelled_fields(i)) {
            Some(e) => Err(e),
            None => Ok(()),
        }
    }
}

fn check_field(label: &str, s: &str) -> (r: Option<String>)
    ensures
        match r {
            Some(e) => (utf8_len(s@) > 10000 && e@ == label@ + " too long"@) || (utf8_len(s@)
                <= 10000 && has_bad_control(s@) && e@ == label@ + " contains invalid characters"@),
            None => utf8_len(s@) <= 10000 && !has_bad_control(s@),
        },
{
    if byte_len(s) > 10000 {
        let mut m = chars_of(label);
        crate::text::push_str(&mut m, " too long");
        return Some(string_of(m.as_slice()));
    }
    if bad_control(s) {
        let mut m = chars_of(label);
        crate::text::push_str(&mut m, " contains invalid characters");
        return Some(string_of(m.as_slice()));
    }
    None
}

pub fn validate<S>(input: &FindingInput<S>) -> (r: Result<(), String>)
    ensures
        match r {
            Ok(()) => validate_spec(*input) is Ok,
            Err(e) => validate_spec(*input) == Err::<(), Seq<char>>(e@),
        },
{
    let title = trim_str(input.title.as_str());
    if chars_of(title.as_str()).len() == 0 {
        return Err(lit("Title is required"));
    }
    if byte_len(title.as_str()) > 300 {
        return Err(lit("Title too long"));
    }
    let fields: Vec<(&str, &str)> = vec![
        ("target", input.target.as_str()),
        ("vuln_type", input.vuln_type.as_str()),
        ("severity", input.severity.as_str()),
        ("status", input.status.as_str()),
        ("cve_id", input.cve_id.as_str()),
        ("endpoint", input.endpoint.as_str()),
        ("description", input.description.as_str()),
        ("remediation", input.remediation.as_str()),
    ];
    let ghost fs = labelled_fields(*input);
    assert(fields@.map_values(|p: (&str, &str)| (p.0@, p.1@)) =~= fs);
    let mut k: usize = 0;
    assert(fs.skip(0) =~= fs);
    while k < fields.len()
        invariant
            k <= fields@.len(),
            fs == labelled_fields(*input),
            trim(input.title@).len() > 0,
            utf8_len(trim(input.title@)) <= 300,
            fields@.len() == fs.len(),
            forall|j: int| 0 <= j < fs.len() ==> #[trigger] fs[j] == (fields@[j].0@, fields@[j].1@),
            field_problem(fs) == field_problem(fs.skip(k as int)),
        decreases fields@.len() - k,
    {
        let (label, s) = fields[k];
        assert(fs.skip(k as int)[0] == fs[k as int]);
        assert(fs.skip(k as int).drop_first() =~= fs.skip(k + 1));
        if let Some(e) = check_field(label, s) {
            return Err(e);
        }
        k = k + 1;
    }
    assert(fs.skip(fs.len() as int) =~= Seq::<(Seq<char>, Seq<char>)>::empty());
    Ok(())
}

// ─── Normalization ──────────────────────────────────────────────────────────

/// Severity trimmed and lowercased when it is one of the known levels,
/// else `medium`.
pub open spec fn normalize_severity_spec(s: Seq<char>) -> Seq<char> {
    let t = str_to_lowercase(trim(s));
    if t == "critical"@ || t == "high"@ || t == "medium"@ || t == "low"@ || t == "info"@ {
        t
    } else {
        "medium"@
    }
}

pub fn normalize_severity(s: &str) -> (r: String)
    ensures
        r@ == normalize_severity_spec(s@),
{
    let t = lowercase(trim_str(s).as_str());
    if str_eq(t.as_str(), "critical") || str_eq(t.as_str(), "high") || str_eq(t.as_str(), "medium")
        || str_eq(t.as_str(), "low") || str_eq(t.as_str(), "info") {
        t
    } else {
        lit("medium")
    }
}

/// Status trimmed and lowercased when it is one of the known states, else
/// `open`.
pub open spec fn normalize_status_spec(s: Seq<char>) -> Seq<char> {
    let t = str_to_lowercase(trim(s));
    if t == "open"@ || t == "confirmed"@ || t == "fixed"@ || t == "accepted"@ || t == "info"@ {
        t
    } else {
        "open"@
    }
}

pub fn normalize_status(s: &str) -> (r: String)
    ensures
        r@ == normalize_status_spec(s@),
{
    let t = lowercase(trim_str(s).as_str());
    if str_eq(t.as_str(), "open") || str_eq(t.as_str(), "confirmed") || str_eq(t.as_str(), "fixed")
        || str_eq(t.as_str(), "accepted") || str_eq(t.as_str(), "info") {
        t
    } else {
        lit("open")
    }
}

/// The non-blank entries of a list, trimmed.
pub open spec fn clean_list(v: Seq<Seq<char>>) -> Seq<Seq<char>>
    decreases v.len(),
{
    if v.len() == 0 {
        seq![]
    } else {
        let p = clean_list(v.drop_last());
        if trim(v.last()).len() > 0 {
            p.push(trim(v.last()))
        } else {
            p
        }
    }
}

fn clean_list_exec(v: &Vec<String>) -> (r: Vec<String>)
    ensures
        strs_view(r@) == clean_list(strs_view(v@)),
{
    let ghost sv = strs_view(v@);
    let mut out: Vec<String> = Vec::new();
    let mut i: usize = 0;
    while i < v.len()
        invariant
            i <= v@.len(),
            sv == strs_view(v@),
            strs_view(out@) == clean_list(sv.take(i as int)),
        decreases v@.len() - i,
    {
        assert(sv.take(i + 1).drop_last() =~= sv.take(i as int));
        assert(sv.take(i + 1).last() == v@[i as int]@);
        let t = trim_str(v[i].as_str());
        if chars_of(t.as_str()).len() > 0 {
            let ghost prev = strs_view(out@);
            let ghost tv = t@;
            out.push(t);
            assert(strs_view(out@) =~= prev.push(tv));
        }
        i = i + 1;
    }
    assert(sv.take(v@.len() as int) =~= sv);
    out
}

/// The record a submission becomes: text trimmed, severity and status
/// normalized, blank references and tags dropped.
pub open spec fn record_spec<S>(
    i: FindingInput<S>,
    id: Seq<char>,
    created_at: Seq<char>,
    updated_at: Seq<char>,
) -> FindingV<S> {
    FindingV {
        id,
        title: trim(i.title@),
        target: trim(i.target@),
        vuln_type: trim(i.vuln_type@),
        severity: normalize_severity_spec(i.severity@),
        status: normalize_status_spec(i.status@),
        cve_id: trim(i.cve_id@),
        cvss_score: i.cvss_score,
        endpoint: trim(i.endpoint@),
        description: trim(i.description@),
        remediation: trim(i.remediation@),
        references: clean_list(strs_view(i.references@)),
        tags: clean_list(strs_view(i.tags@)),
        created_at,
        updated_at,
    }
}

fn make_record<S: Copy>(input: &FindingInput<S>, id: &str, created_at: &str, updated_at: &str) -> (f:
    Finding<S>)
    ensures
        finding_v(f) == record_spec(*input, id@, created_at@, updated_at@),
{
    Finding {
        id: lit(id),
        title: trim_str(input.title.as_str()),
        target: trim_str(input.target.as_str()),
        vuln_type: trim_str(input.vuln_type.as_str()),
        severity: normalize_severity(input.severity.as_str()),
        status: normalize_status(input.status.as_str()),
        cve_id: trim_str(input.cve_id.as_str()),
        cvss_score: input.cvss_score,
        endpoint: trim_str(input.endpoint.as_str()),
        description: trim_str(input.description.as_str()),
        remediation: trim_str(input.remediation.as_str()),
        references: clean_list_exec(&input.references),
        tags: clean_list_exec(&input.tags),
        created_at: lit(created_at),
        updated_at: lit(updated_at),
    }
}

pub fn clone_finding<S: Copy>(f: &Finding<S>) -> (r: Finding<S>)
    ensures
        finding_v(r) == finding_v(*f),
{
    Finding {
        id: f.id.clone(),
        title: f.title.clone(),
        target: f.target.clone(),
        vuln_type: f.vuln_type.clone(),
        severity: f.severity.clone(),
        status: f.status.clone(),
        cve_id: f.cve_id.clone(),
        cvss_score: f.cvss_score,
        endpoint: f.endpoint.clone(),
        description: f.description.clone(),
        remediation: f.remediation.clone(),
        references: crate::wp_org::clone_strings(&f.references),
        tags: crate::wp_org::clone_strings(&f.tags),
        created_at: f.created_at.clone(),
        updated_at: f.updated_at.clone(),
    }
}

// ─── Listing ────────────────────────────────────────────────────────────────

/// A filter value: trimmed and lowercased, empty when absent.
pub open spec fn filter_value(o: Option<Seq<char>>) -> Seq<char> {
    str_to_lowercase(
        trim(
            match o {
                Some(s) => s,
                None => seq![],
            },
        ),
    )
}

pub open spec fn any_tag_contains(tags: Seq<Seq<char>>, q: Seq<char>) -> bool {
    exists|i: int| 0 <= i < tags.len() && contains(str_to_lowercase(#[trigger] tags[i]), q)
}

/// Whether a finding passes the filters: the query (empty matches all)
/// in its title, target, CVE id, type or a tag, lower-cased; severity and
/// status equal ignoring ASCII case (empty matches all).
pub open spec fn passes<S>(f: FindingV<S>, q: Seq<char>, sev: Seq<char>, status: Seq<char>) -> bool {
    &&& (q.len() == 0 || contains(str_to_lowercase(f.title), q) || contains(
        str_to_lowercase(f.target),
        q,
    ) || contains(str_to_lowercase(f.cve_id), q) || contains(str_to_lowercase(f.vuln_type), q)
        || any_tag_contains(f.tags, q))
    &&& (sev.len() == 0 || eq_ignore_ascii_case(f.severity, sev))
    &&& (status.len() == 0 || eq_ignore_ascii_case(f.status, status))
}

pub open spec fn filtered<S>(fs: Seq<FindingV<S>>, q: Seq<char>, sev: Seq<char>, status: Seq<char>) -> Seq<
    FindingV<S>,
>
    decreases fs.len(),
{
    if fs.len() == 0 {
        seq![]
    } else {
        let p = filtered(fs.drop_last(), q, sev, status);
        if passes(fs.last(), q, sev, status) {
            p.push(fs.last())
        } else {
            p
        }
    }
}

fn filter_text(o: &Option<String>) -> (r: String)
    ensures
        r@ == filter_value(
            match o {
                Some(s) => Some(s@),
                None => None,
            },
        ),
{
    match o {
        Some(s) => lowercase(trim_str(s.as_str()).as_str()),
        None => {
            proof {
                reveal_strlit("");
            }
            let e = lowercase(trim_str("").as_str());
            assert(""@ =~= Seq::<char>::empty());
            e
        },
    }
}

fn tag_match(tags: &Vec<String>, q: &str) -> (b: bool)
    ensures
        b == any_tag_contains(strs_view(tags@), q@),
{
    let ghost tv = strs_view(tags@);
    let mut i: usize = 0;
    while i < tags.len()
        invariant
            i <= tags@.len(),
            tv == strs_view(tags@),
            forall|j: int| 0 <= j < i ==> !contains(str_to_lowercase(#[trigger] tv[j]), q@),
        decreases tags@.len() - i,
    {
        if str_contains(lowercase(tags[i].as_str()).as_str(), q) {
            assert(contains(str_to_lowercase(tv[i as int]), q@));
            return true;
        }
        i = i + 1;
    }
    false
}

/// The findings that pass the filters, newest first (by creation time,
/// descending; those created at the same time keep their stored order).
pub fn list_findings<S: Copy>(all: &Vec<Finding<S>>, params: &ListParams) -> (r: Vec<Finding<S>>)
    ensures
        findings_view(r@) == newest_first(
            filtered(
                findings_view(all@),
                filter_value(ov_str(params.q)),
                filter_value(ov_str(params.severity)),
                filter_value(ov_str(params.status)),
            ),
        ),
{
    let q = filter_text(&params.q);
    let sev = filter_text(&params.severity);
    let status = filter_text(&params.status);
    let ghost av = findings_view(all@);
    let mut out: Vec<Finding<S>> = Vec::new();
    let mut i: usize = 0;
    while i < all.len()
        invariant
            i <= all@.len(),
            av == findings_view(all@),
            findings_view(out@) == filtered(av.take(i as int), q@, sev@, status@),
        decreases all@.len() - i,
    {
        assert(av.take(i + 1).drop_last() =~= av.take(i as int));
        assert(av.take(i + 1).last() == finding_v(all@[i as int]));
        let f = &all[i];
        let qn = chars_of(q.as_str()).len() == 0;
        let mq = qn || str_contains(lowercase(f.title.as_str()).as_str(), q.as_str()) || str_contains(
            lowercase(f.target.as_str()).as_str(),
            q.as_str(),
        ) || str_contains(lowercase(f.cve_id.as_str()).as_str(), q.as_str()) || str_contains(
            lowercase(f.vuln_type.as_str()).as_str(),
            q.as_str(),
        ) || tag_match(&f.tags, q.as_str());
        let ms = chars_of(sev.as_str()).len() == 0 || str_eq_ignore_ascii_case(
            f.severity.as_str(),
            sev.as_str(),
        );
        let mt = chars_of(status.as_str()).len() == 0 || str_eq_ignore_ascii_case(
            f.status.as_str(),
            status.as_str(),
        );
        if mq && ms && mt {
            let ghost prev = findings_view(out@);
            let c = clone_finding(f);
            let ghost cv = finding_v(c);
            out.push(c);
            assert(findings_view(out@) =~= prev.push(cv));
        }
        i = i + 1;
    }
    assert(av.take(all@.len() as int) =~= av);
    sort_newest_first(out)
}

/// Where finding `x` goes among findings listed newest first: before the
/// first one created strictly earlier.
pub open spec fn newer_pos<S>(t: Seq<FindingV<S>>, x: FindingV<S>) -> int
    decreases t.len(),
{
    if t.len() == 0 {
        0
    } else if seq_lt(t[0].created_at, x.created_at) {
        0
    } else {
        1 + newer_pos(t.drop_first(), x)
    }
}

/// Findings arranged newest first, the stored order kept among equals.
pub open spec fn newest_first<S>(s: Seq<FindingV<S>>) -> Seq<FindingV<S>>
    decreases s.len(),
{
    if s.len() == 0 {
        seq![]
    } else {
        let t = newest_first(s.drop_last());
        t.insert(newer_pos(t, s.last()), s.last())
    }
}

pub proof fn lemma_newer_pos<S>(t: Seq<FindingV<S>>, x: FindingV<S>)
    ensures
        0 <= newer_pos(t, x) <= t.len(),
        forall|i: int| 0 <= i < newer_pos(t, x) ==> !seq_lt((#[trigger] t[i]).created_at, x.created_at),
        newer_pos(t, x) < t.len() ==> seq_lt(t[newer_pos(t, x)].created_at, x.created_at),
    decreases t.len(),
{
    if t.len() > 0 && !seq_lt(t[0].created_at, x.created_at) {
        lemma_newer_pos(t.drop_first(), x);
        assert forall|i: int| 0 <= i < newer_pos(t, x) implies !seq_lt((#[trigger] t[i]).created_at, x.created_at) by {
            if i > 0 {
                assert(t[i] == t.drop_first()[i - 1]);
            }
        }
    }
}

/// Listing newest first arranges the same findings so that none comes
/// before one created later.
pub proof fn newest_first_sorted_permutation<S>(s: Seq<FindingV<S>>)
    ensures
        forall|i: int, j: int|
            0 <= i < j < newest_first(s).len() ==> !seq_lt(
                (#[trigger] newest_first(s)[i]).created_at,
                (#[trigger] newest_first(s)[j]).created_at,
            ),
        newest_first(s).to_multiset() == s.to_multiset(),
        newest_first(s).len() == s.len(),
    decreases s.len(),
{
    broadcast use vstd::seq_lib::to_multiset_insert, vstd::seq_lib::to_multiset_build;

    if s.len() == 0 {
        assert(s =~= Seq::<FindingV<S>>::empty());
    } else {
        let init = s.drop_last();
        let x = s.last();
        newest_first_sorted_permutation(init);
        let t = newest_first(init);
        lemma_newer_pos(t, x);
        let p = newer_pos(t, x);
        let u = t.insert(p, x);
        assert forall|i: int, j: int| 0 <= i < j < u.len() implies !seq_lt(
            (#[trigger] u[i]).created_at,
            (#[trigger] u[j]).created_at,
        ) by {
            if j < p {
                assert(u[i] == t[i] && u[j] == t[j]);
            } else if j == p {
                assert(u[i] == t[i]);
            } else if i == p {
                assert(u[j] == t[j - 1]);
                if seq_lt(x.created_at, t[j - 1].created_at) {
                    lemma_seq_lt_transitive(t[p].created_at, x.created_at, t[j - 1].created_at);
                    if j - 1 > p {
                        assert(!seq_lt(t[p].created_at, t[j - 1].created_at));
                    } else {
                        lemma_seq_lt_irreflexive(t[p].created_at);
                    }
                }
            } else if i < p {
                assert(u[i] == t[i] && u[j] == t[j - 1]);
            } else {
                assert(u[i] == t[i - 1] && u[j] == t[j - 1]);
            }
        }
        assert(s =~= init.push(x));
    }
}

fn sort_newest_first<S: Copy>(v: Vec<Finding<S>>) -> (r: Vec<Finding<S>>)
    ensures
        findings_view(r@) == newest_first(findings_view(v@)),
{
    let ghost input = findings_view(v@);
    assert(input.len() == v.len());
    let mut rest = v;
    let mut out: Vec<Finding<S>> = Vec::new();
    let mut k: usize = 0;
    assert(input.skip(0) =~= input);
    while rest.len() > 0
        invariant
            k <= input.len(),
            input.len() <= usize::MAX,
            findings_view(rest@) == input.skip(k as int),
            findings_view(out@) == newest_first(input.take(k as int)),
        decreases rest@.len(),
    {
        assert(findings_view(rest@).len() == rest@.len());
        assert(input.take(k + 1).drop_last() =~= input.take(k as int));
        assert(input.skip(k as int)[0] == input[k as int]);
        assert(input.take(k + 1).last() == input[k as int]);
        let ghost r0 = rest@;
        let x = rest.remove(0);
        assert(findings_view(rest@) =~= input.skip(k + 1)) by {
            assert forall|j: int| 0 <= j < rest@.len() implies finding_v(#[trigger] rest@[j]) == input.skip(k + 1)[j] by {
                assert(rest@[j] == r0[j + 1]);
                assert(findings_view(r0)[j + 1] == input.skip(k as int)[j + 1]);
            }
        }
        assert(finding_v(x) == findings_view(r0)[0]);
        let ghost t = findings_view(out@);
        let ghost xv = finding_v(x);
        proof {
            lemma_newer_pos(t, xv);
        }
        let mut pos: usize = 0;
        assert(t.skip(0) =~= t);
        while pos < out.len() && !str_lt(out[pos].created_at.as_str(), x.created_at.as_str())
            invariant
                pos <= out@.len(),
                t == findings_view(out@),
                xv == finding_v(x),
                newer_pos(t, xv) == pos + newer_pos(t.skip(pos as int), xv),
            decreases out@.len() - pos,
        {
            assert(t.skip(pos as int)[0] == finding_v(out@[pos as int]));
            assert(t.skip(pos as int).drop_first() =~= t.skip(pos + 1));
            pos = pos + 1;
        }
        proof {
            if pos < out@.len() {
                assert(t.skip(pos as int)[0] == finding_v(out@[pos as int]));
            } else {
                assert(t.skip(pos as int) =~= Seq::<FindingV<S>>::empty());
            }
        }
        out.insert(pos, x);
        assert(findings_view(out@) =~= t.insert(pos as int, xv));
        k = k + 1;
    }
    assert(input.take(k as int) =~= input);
    out
}

pub open spec fn ov_str(o: Option<String>) -> Option<Seq<char>> {
    match o {
        Some(s) => Some(s@),
        None => None,
    }
}

// ─── Records by id ──────────────────────────────────────────────────────────

/// The position of the first finding with this id.
pub open spec fn index_of_id<S>(fs: Seq<FindingV<S>>, id: Seq<char>) -> Option<int>
    decreases fs.len(),
{
    if fs.len() == 0 {
        None
    } else {
        match index_of_id(fs.drop_last(), id) {
            Some(i) => Some(i),
            None => if fs.last().id == id {
                Some(fs.len() - 1)
            } else {
                None
            },
        }
    }
}

pub proof fn lemma_index_of_id<S>(fs: Seq<FindingV<S>>, id: Seq<char>)
    ensures
        match index_of_id(fs, id) {
            Some(i) => 0 <= i < fs.len() && fs[i].id == id && forall|j: int|
                0 <= j < i ==> (#[trigger] fs[j]).id != id,
            None => forall|j: int| 0 <= j < fs.len() ==> (#[trigger] fs[j]).id != id,
        },
    decreases fs.len(),
{
    if fs.len() > 0 {
        let p = fs.drop_last();
        lemma_index_of_id(p, id);
        match index_of_id(p, id) {
            Some(i) => {
                assert forall|j: int| 0 <= j < i implies (#[trigger] fs[j]).id != id by {
                    assert(fs[j] == p[j]);
                }
                assert(fs[i] == p[i]);
            },
            None => {
                assert forall|j: int| 0 <= j < fs.len() - 1 implies (#[trigger] fs[j]).id != id by {
                    assert(fs[j] == p[j]);
                }
            },
        }
    }
}

fn find_id<S>(all: &Vec<Finding<S>>, id: &str) -> (r: Option<usize>)
    ensures
        match r {
            Some(i) => index_of_id(findings_view(all@), id@) == Some(i as int),
            None => index_of_id(findings_view(all@), id@) is None,
        },
{
    let ghost av = findings_view(all@);
    proof {
        lemma_index_of_id(av, id@);
    }
    let mut i: usize = 0;
    while i < all.len()
        invariant
            i <= all@.len(),
            av == findings_view(all@),
            forall|j: int| 0 <= j < i ==> (#[trigger] av[j]).id != id@,
            match index_of_id(av, id@) {
                Some(k) => 0 <= k < av.len() && av[k].id == id@ && forall|j: int|
                    0 <= j < k ==> (#[trigger] av[j]).id != id@,
                None => forall|j: int| 0 <= j < av.len() ==> (#[trigger] av[j]).id != id@,
            },
        decreases all@.len() - i,
    {
        if str_eq(all[i].id.as_str(), id) {
            assert(av[i as int].id == id@);
            return Some(i);
        }
        i = i + 1;
    }
    None
}

/// The "not found" error of an id.
pub open spec fn not_found_spec(id: Seq<char>) -> Seq<char> {
    "Finding "@ + id + " not found"@
}

fn not_found(id: &str) -> (r: String)
    ensures
        r@ == not_found_spec(id@),
{
    let mut m = chars_of("Finding ");
    crate::text::push_str(&mut m, id);
    crate::text::push_str(&mut m, " not found");
    string_of(m.as_slice())
}

/// The finding with this id.
pub fn get_finding<S: Copy>(all: &Vec<Finding<S>>, id: &str) -> (r: Result<Finding<S>, String>)
    ensures
        match r {
            Ok(f) => index_of_id(findings_view(all@), id@) matches Some(i) && finding_v(f)
                == findings_view(all@)[i],
            Err(e) => index_of_id(findings_view(all@), id@) is None && e@ == not_found_spec(id@),
        },
{
    proof {
        lemma_index_of_id(findings_view(all@), id@);
    }
    match find_id(all, id) {
        Some(i) => Ok(clone_finding(&all[i])),
        None => Err(not_found(id)),
    }
}

/// Adds a finding made from a valid submission, under a fresh id and
/// timestamp chosen by the caller; returns the stored record.
pub fn create_finding<S: Copy>(all: &mut Vec<Finding<S>>, input: &FindingInput<S>, id: &str, now: &str) -> (r:
    Result<Finding<S>, String>)
    ensures
        match r {
            Ok(f) => validate_spec(*input) is Ok && finding_v(f) == record_spec(*input, id@, now@, now@)
                && findings_view(final(all)@) == findings_view(old(all)@).push(finding_v(f)),
            Err(e) => validate_spec(*input) == Err::<(), Seq<char>>(e@) && final(all)@ == old(all)@,
        },
{
    match validate(input) {
        Err(e) => Err(e),
        Ok(()) => {
            let f = make_record(input, id, now, now);
            let ghost prev = findings_view(all@);
            let ghost fv = finding_v(f);
            all.push(clone_finding(&f));
            assert(findings_view(all@) =~= prev.push(fv));
            Ok(f)
        },
    }
}

/// Replaces the finding with this id by one made from a valid submission,
/// keeping its id and creation time; returns the stored record.
pub fn update_finding<S: Copy>(all: &mut Vec<Finding<S>>, id: &str, input: &FindingInput<S>, now: &str) -> (r:
    Result<Finding<S>, String>)
    ensures
        match r {
            Ok(f) => validate_spec(*input) is Ok && (index_of_id(findings_view(old(all)@), id@) matches Some(
                i,
            ) && finding_v(f) == record_spec(
                *input,
                findings_view(old(all)@)[i].id,
                findings_view(old(all)@)[i].created_at,
                now@,
            ) && findings_view(final(all)@) == findings_view(old(all)@).update(i, finding_v(f))),
            Err(e) => final(all)@ == old(all)@ && match validate_spec(*input) {
                Err(x) => e@ == x,
                Ok(()) => index_of_id(findings_view(old(all)@), id@) is None && e@ == not_found_spec(id@),
            },
        },
{
    match validate(input) {
        Err(e) => Err(e),
        Ok(()) => match find_id(all, id) {
            None => Err(not_found(id)),
            Some(i) => {
                proof {
                    lemma_index_of_id(findings_view(all@), id@);
                }
                let old_id = all[i].id.clone();
                let created = all[i].created_at.clone();
                let f = make_record(input, old_id.as_str(), created.as_str(), now);
                let ghost prev = findings_view(all@);
                let ghost fv = finding_v(f);
                all.set(i, clone_finding(&f));
                assert(findings_view(all@) =~= prev.update(i as int, fv));
                Ok(f)
            },
        },
    }
}

/// The findings without this id.
pub open spec fn without_id<S>(fs: Seq<FindingV<S>>, id: Seq<char>) -> Seq<FindingV<S>>
    decreases fs.len(),
{
    if fs.len() == 0 {
        seq![]
    } else if fs.last().id != id {
        without_id(fs.drop_last(), id).push(fs.last())
    } else {
        without_id(fs.drop_last(), id)
    }
}

/// Deletes every finding with this id; an id that is not there is refused.
pub fn delete_finding<S: Copy>(all: &mut Vec<Finding<S>>, id: &str) -> (r: Result<(), String>)
    ensures
        match r {
            Ok(()) => index_of_id(findings_view(old(all)@), id@) is Some && findings_view(final(all)@)
                == without_id(findings_view(old(all)@), id@),
            Err(e) => index_of_id(findings_view(old(all)@), id@) is None && e@ == not_found_spec(id@)
                && final(all)@ == old(all)@,
        },
{
    let ghost av = findings_view(all@);
    proof {
        lemma_index_of_id(av, id@);
    }
    let mut kept: Vec<Finding<S>> = Vec::new();
    let mut removed = false;
    let mut i: usize = 0;
    while i < all.len()
        invariant
            i <= all@.len(),
            av == findings_view(all@),
            findings_view(kept@) == without_id(av.take(i as int), id@),
            removed <==> exists|j: int| 0 <= j < i && (#[trigger] av[j]).id == id@,
        decreases all@.len() - i,
    {
        let ghost t = av.take(i + 1);
        assert(t.drop_last() =~= av.take(i as int));
        assert(t.last() == av[i as int]);
        assert(without_id(t, id@) == (if t.last().id != id@ {
            without_id(t.drop_last(), id@).push(t.last())
        } else {
            without_id(t.drop_last(), id@)
        }));
        if str_eq(all[i].id.as_str(), id) {
            removed = true;
        } else {
            let ghost prev = findings_view(kept@);
            let c = clone_finding(&all[i]);
            kept.push(c);
            assert(t =~= av.take(i as int).push(av[i as int]));
            assert(findings_view(kept@) =~= prev.push(av[i as int]));
        }
        i = i + 1;
    }
    assert(av.take(all@.len() as int) =~= av);
    if !removed {
        return Err(not_found(id));
    }
    *all = kept;
    Ok(())
}

/// A finding created under a fresh id is what a read of that id gives.
pub proof fn created_finding_is_found<S>(before: Seq<FindingV<S>>, f: FindingV<S>)
    requires
        index_of_id(before, f.id) is None,
    ensures
        index_of_id(before.push(f), f.id) == Some(before.len() as int),
        before.push(f)[before.len() as int] == f,
{
    assert(before.push(f).drop_last() =~= before);
}

/// After an update, a read of the id gives the updated record, at the same
/// place.
pub proof fn updated_finding_is_found<S>(before: Seq<FindingV<S>>, i: int, f: FindingV<S>)
    requires
        index_of_id(before, f.id) == Some(i),
    ensures
        index_of_id(before.update(i, f), f.id) == Some(i),
        before.update(i, f)[i] == f,
    decreases before.len(),
{
    lemma_index_of_id(before, f.id);
    let after = before.update(i, f);
    lemma_index_of_id(after, f.id);
    assert(after[i] == f);
    match index_of_id(after, f.id) {
        Some(k) => {
            if k < i {
                assert(after[k] == before[k]);
            } else if k > i {
                assert(after[i].id == f.id);
            }
        },
        None => {
            assert(after[i].id == f.id);
        },
    }
}

proof fn lemma_push_contains<A>(s: Seq<A>, x: A, g: A)
    ensures
        s.push(x).contains(g) <==> (s.contains(g) || x == g),
{
    if s.contains(g) {
        let k = choose|k: int| 0 <= k < s.len() && s[k] == g;
        assert(s.push(x)[k] == g);
    }
    if x == g {
        assert(s.push(x)[s.len() as int] == g);
    }
    if s.push(x).contains(g) {
        let k = choose|k: int| 0 <= k < s.push(x).len() && s.push(x)[k] == g;
        if k < s.len() {
            assert(s[k] == g);
        }
    }
}

/// After a delete, no finding with the id is left, and every other finding
/// stays.
pub proof fn deleted_finding_is_gone<S>(fs: Seq<FindingV<S>>, id: Seq<char>)
    ensures
        index_of_id(without_id(fs, id), id) is None,
        forall|g: FindingV<S>| g.id != id ==> (fs.contains(g) <==> #[trigger] without_id(fs, id).contains(g)),
    decreases fs.len(),
{
    if fs.len() > 0 {
        let p = fs.drop_last();
        let x = fs.last();
        deleted_finding_is_gone(p, id);
        let w = without_id(p, id);
        assert(fs =~= p.push(x));
        if x.id != id {
            assert(without_id(fs, id) == w.push(x));
            assert(w.push(x).drop_last() =~= w);
        }
        assert forall|g: FindingV<S>| g.id != id implies (fs.contains(g) <==> #[trigger] without_id(
            fs,
            id,
        ).contains(g)) by {
            lemma_push_contains(p, x, g);
            if x.id != id {
                lemma_push_contains(w, x, g);
            }
        }
    } else {
        assert(without_id(fs, id) =~= Seq::<FindingV<S>>::empty());
        assert forall|g: FindingV<S>| g.id != id implies (fs.contains(g) <==> #[trigger] without_id(
            fs,
            id,
        ).contains(g)) by {}
    }
}

} // verus!
