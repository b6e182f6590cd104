//! CVE lookup against the NVD API: the request (an exact id, checked, or a
//! keyword), the request URLs, and the parts of an NVD record kept
//! (description, weaknesses, references). The HTTP exchange, the JSON and
//! the on-disk cache are the caller's.

use vstd::prelude::*;

use crate::text::{all_ascii_digits, digits_only};

use crate::text::ov;
use crate::common::{byte_len, res_view, utf8_len};
use crate::open_redirect::{status_display, status_text};
use crate::text::{
    chars_of, lit, push_str, seqs_view, split_char, split_chars, str_eq, str_to_uppercase,
    string_of, strs_view, trim, trim_str, uppercase, lemma_split_nonempty,
};

verus! {

pub struct LookupParams {
    pub cve: Option<String>,
    pub q: Option<String>,
}

pub struct CveReference {
    pub url: String,
    pub source: String,
    pub tags: Vec<String>,
}

/// How long a cached record is trusted, in seconds.
pub const CACHE_TTL: i64 = 86400;

/// Whether a cached record of this age (seconds) is still used.
pub fn cache_is_fresh(age_secs: i64) -> (b: bool)
    ensures
        b == (age_secs <= CACHE_TTL),
{
    age_secs <= CACHE_TTL
}

// ─── CVE ids ────────────────────────────────────────────────────────────────

/// A CVE id: trimmed and uppercased, exactly `CVE`, a dash, a 4-digit year,
/// a dash and a number (`CVE-YYYY-NNNNN`).
pub open spec fn normalize_cve_id_spec(raw: Seq<char>) -> Result<Seq<char>, Seq<char>> {
    let t = str_to_uppercase(trim(raw));
    let parts = split_char(t, '-');
    let year = if parts.len() > 1 {
        parts[1]
    } else {
        seq![]
    };
    let num = if parts.len() > 2 {
        parts[2]
    } else {
        seq![]
    };
    if parts[0] != "CVE"@ {
        Err("Expected format CVE-YYYY-NNNNN, e.g. CVE-2024-12345"@)
    } else if utf8_len(year) != 4 || !all_ascii_digits(year) {
        Err("CVE year must be 4 digits"@)
    } else if num.len() == 0 || !all_ascii_digits(num) {
        Err("CVE number must be digits"@)
    } else if parts.len() > 3 {
        Err("Expected format CVE-YYYY-NNNNN, e.g. CVE-2024-12345"@)
    } else {
        Ok(t)
    }
}

pub fn normalize_cve_id(raw: &str) -> (r: Result<String, String>)
    ensures
        res_view(r) == normalize_cve_id_spec(raw@),
{
    let t = uppercase(trim_str(raw).as_str());
    let tv = chars_of(t.as_str());
    let parts = split_chars(tv.as_slice(), '-');
    proof {
        lemma_split_nonempty(tv@, '-');
    }
    let ghost pv = seqs_view(parts@);
    assert(pv[0] == parts@[0]@);
    if !str_eq(string_of(parts[0].as_slice()).as_str(), "CVE") {
        return Err(lit("Expected format CVE-YYYY-NNNNN, e.g. CVE-2024-12345"));
    }
    let year: Vec<char> = if parts.len() > 1 {
        assert(pv[1] == parts@[1]@);
        crate::text::slice_chars(parts[1].as_slice(), 0, parts[1].len())
    } else {
        Vec::new()
    };
    assert(year@ =~= (if pv.len() > 1 {
        pv[1]
    } else {
        Seq::<char>::empty()
    }));
    let num: Vec<char> = if parts.len() > 2 {
        assert(pv[2] == parts@[2]@);
        crate::text::slice_chars(parts[2].as_slice(), 0, parts[2].len())
    } else {
        Vec::new()
    };
    assert(num@ =~= (if pv.len() > 2 {
        pv[2]
    } else {
        Seq::<char>::empty()
    }));
    if byte_len(string_of(year.as_slice()).as_str()) != 4 || !digits_only(year.as_slice()) {
        return Err(lit("CVE year must be 4 digits"));
    }
    if num.len() == 0 || !digits_only(num.as_slice()) {
        return Err(lit("CVE number must be digits"));
    }
    if parts.len() > 3 {
        return Err(lit("Expected format CVE-YYYY-NNNNN, e.g. CVE-2024-12345"));
    }
    Ok(t)
}

// ─── The request ────────────────────────────────────────────────────────────

/// What a lookup asks for.
pub enum LookupRequest {
    /// One CVE, by its normalized id.
    Exact(String),
    /// A keyword search.
    Keyword(String),
}

/// The request: an id when given (checked), else a keyword (trimmed,
/// non-empty), else refused.
pub open spec fn lookup_request_spec(cve: Option<Seq<char>>, q: Option<Seq<char>>) -> Result<
    (bool, Seq<char>),
    Seq<char>,
> {
    match cve {
        Some(c) => match normalize_cve_id_spec(c) {
            Ok(id) => Ok((true, id)),
            Err(e) => Err(e),
        },
        None => match q {
            Some(k) => if trim(k).len() == 0 {
                Err("Query is empty"@)
            } else {
                Ok((false, trim(k)))
            },
            None => Err("Provide ?cve=CVE-… or ?q=keyword"@),
        },
    }
}

pub fn lookup_request(params: &LookupParams) -> (r: Result<LookupRequest, String>)
    ensures
        match r {
            Ok(LookupRequest::Exact(id)) => lookup_request_spec(ov(params.cve), ov(params.q))
                == Ok::<(bool, Seq<char>), Seq<char>>((true, id@)),
            Ok(LookupRequest::Keyword(k)) => lookup_request_spec(ov(params.cve), ov(params.q))
                == Ok::<(bool, Seq<char>), Seq<char>>((false, k@)),
            Err(e) => lookup_request_spec(ov(params.cve), ov(params.q)) == Err::<
                (bool, Seq<char>),
                Seq<char>,
            >(e@),
        },
{
    match &params.cve {
        Some(c) => match normalize_cve_id(c.as_str()) {
            Ok(id) => Ok(LookupRequest::Exact(id)),
            Err(e) => Err(e),
        },
        None => match &params.q {
            Some(k) => {
                let t = trim_str(k.as_str());
                if chars_of(t.as_str()).len() == 0 {
                    Err(lit("Query is empty"))
                } else {
                    Ok(LookupRequest::Keyword(t))
                }
            },
            None => Err(lit("Provide ?cve=CVE-… or ?q=keyword")),
        },
    }
}

// ─── URLs ───────────────────────────────────────────────────────────────────

/// The UTF-8 encoding of one char.
pub open spec fn utf8_char(c: char) -> Seq<u8> {
    let u = c as u32;
    if u < 0x80 {
        seq![u as u8]
    } else if u < 0x800 {
        seq![(0xC0 + u / 64) as u8, (0x80 + u % 64) as u8]
    } else if u < 0x10000 {
        seq![(0xE0 + u / 4096) as u8, (0x80 + (u / 64) % 64) as u8, (0x80 + u % 64) as u8]
    } else {
        seq![
            (0xF0 + u / 262144) as u8,
            (0x80 + (u / 4096) % 64) as u8,
            (0x80 + (u / 64) % 64) as u8,
            (0x80 + u % 64) as u8,
        ]
    }
}

/// The UTF-8 encoding of a text.
pub open spec fn utf8_encode(s: Seq<char>) -> Seq<u8>
    decreases s.len(),
{
    if s.len() == 0 {
        seq![]
    } else {
        utf8_encode(s.drop_last()) + utf8_char(s.last())
    }
}

/// `str::as_bytes`: a string's bytes are its UTF-8 encoding, as `str`'s
/// documentation states.
#[verifier::external_body]
fn str_bytes(s: &str) -> (r: Vec<u8>)
    ensures
        r@ == utf8_encode(s@),
{
    s.as_bytes().to_vec()
}

/// A byte left as is in a query: ASCII letters, digits, `-`, `_`, `.`, `~`.
pub open spec fn unreserved(b: u8) -> bool {
    (0x41 <= b <= 0x5A) || (0x61 <= b <= 0x7A) || (0x30 <= b <= 0x39) || b == 0x2D || b == 0x5F
        || b == 0x2E || b == 0x7E
}

pub open spec fn hex_digit(d: u8) -> char {
    if d < 10 {
        ((d + 0x30) as u8) as char
    } else {
        ((d - 10 + 0x41) as u8) as char
    }
}

/// Percent-encoding of one byte (uppercase hex).
pub open spec fn encode_byte(b: u8) -> Seq<char> {
    if unreserved(b) {
        seq![b as char]
    } else {
        seq!['%', hex_digit(b / 16), hex_digit(b % 16)]
    }
}

pub open spec fn encode_bytes(bs: Seq<u8>) -> Seq<char>
    decreases bs.len(),
{
    if bs.len() == 0 {
        seq![]
    } else {
        encode_bytes(bs.drop_last()) + encode_byte(bs.last())
    }
}

fn hex_digit_exec(d: u8) -> (c: char)
    requires
        d < 16,
    ensures
        c == hex_digit(d),
{
    if d < 10 {
        ((d + 0x30) as u8) as char
    } else {
        ((d - 10 + 0x41) as u8) as char
    }
}

/// Percent-encodes a text's UTF-8 bytes for a query string.
pub fn urlencode(s: &str) -> (r: String)
    ensures
        r@ == encode_bytes(utf8_encode(s@)),
{
    let bs = str_bytes(s);
    let mut out: Vec<char> = Vec::new();
    let mut i: usize = 0;
    while i < bs.len()
        invariant
            i <= bs@.len(),
            out@ == encode_bytes(bs@.take(i as int)),
        decreases bs@.len() - i,
    {
        assert(bs@.take(i + 1).drop_last() =~= bs@.take(i as int));
        let b = bs[i];
        if (0x41 <= b && b <= 0x5A) || (0x61 <= b && b <= 0x7A) || (0x30 <= b && b <= 0x39) || b
            == 0x2D || b == 0x5F || b == 0x2E || b == 0x7E {
            out.push(b as char);
        } else {
            out.push('%');
            out.push(hex_digit_exec(b / 16));
            out.push(hex_digit_exec(b % 16));
        }
        assert(out@ =~= encode_bytes(bs@.take(i as int)) + encode_byte(b));
        i = i + 1;
    }
    assert(bs@.take(bs@.len() as int) =~= bs@);
    string_of(out.as_slice())
}

/// The NVD CVE API.
pub open spec fn nvd_api() -> Seq<char> {
    "https://services.nvd.nist.gov/rest/json/cves/2.0"@
}

/// The request URL of a lookup.
pub open spec fn request_url_spec(exact: bool, value: Seq<char>) -> Seq<char> {
    if exact {
        nvd_api() + "?cveId="@ + value
    } else {
        nvd_api() + "?keywordSearch="@ + encode_bytes(utf8_encode(value)) + "&resultsPerPage=10"@
    }
}

pub fn request_url(req: &LookupRequest) -> (r: String)
    ensures
        r@ == match req {
            LookupRequest::Exact(id) => request_url_spec(true, id@),
            LookupRequest::Keyword(k) => request_url_spec(false, k@),
        },
{
    let mut v = chars_of("https://services.nvd.nist.gov/rest/json/cves/2.0");
    match req {
        LookupRequest::Exact(id) => {
            push_str(&mut v, "?cveId=");
            push_str(&mut v, id.as_str());
        },
        LookupRequest::Keyword(k) => {
            push_str(&mut v, "?keywordSearch=");
            push_str(&mut v, urlencode(k.as_str()).as_str());
            push_str(&mut v, "&resultsPerPage=10");
        },
    }
    string_of(v.as_slice())
}

/// The error of a refused NVD request: the status and the first 200 chars
/// of the answer.
pub open spec fn nvd_http_error_spec(status: u16, body: Seq<char>) -> Seq<char> {
    "NVD returned HTTP "@ + status_display(status) + ": "@ + (if body.len() > 200 {
        body.take(200)
    } else {
        body
    })
}

pub fn nvd_http_error(status: u16, body: &str) -> (r: String)
    ensures
        r@ == nvd_http_error_spec(status, body@),
{
    let mut v = chars_of("NVD returned HTTP ");
    push_str(&mut v, status_text(status).as_str());
    push_str(&mut v, ": ");
    let b = chars_of(body);
    let n: usize = if b.len() > 200 {
        200
    } else {
        b.len()
    };
    let head = crate::text::slice_chars(b.as_slice(), 0, n);
    assert(head@ =~= (if body@.len() > 200 {
        body@.take(200)
    } else {
        body@
    }));
    crate::text::push_all(&mut v, head.as_slice());
    string_of(v.as_slice())
}

// ─── What is kept of a record ───────────────────────────────────────────────

/// One entry of a record's `descriptions`.
pub struct NvdText {
    pub lang: Option<String>,
    pub value: Option<String>,
}

/// One entry of a record's `references`: its `url`, `source`, and each tag
/// (`None` for a tag that is not a string).
pub struct NvdRef {
    pub url: Option<String>,
    pub source: Option<String>,
    pub tags: Option<Vec<Option<String>>>,
}

pub open spec fn text_v(t: NvdText) -> (Option<Seq<char>>, Option<Seq<char>>) {
    (ov(t.lang), ov(t.value))
}

/// The index of the first English description.
pub open spec fn first_en(ds: Seq<(Option<Seq<char>>, Option<Seq<char>>)>) -> Option<int>
    decreases ds.len(),
{
    if ds.len() == 0 {
        None
    } else {
        match first_en(ds.drop_last()) {
            Some(i) => Some(i),
            None => if ds.last().0 == Some("en"@) {
                Some(ds.len() - 1)
            } else {
                None
            },
        }
    }
}

/// The description kept: the English one, else the first, trimmed (empty
/// when there is none or it has no text).
pub open spec fn description_spec(ds: Option<Seq<(Option<Seq<char>>, Option<Seq<char>>)>>) -> Seq<char> {
    let chosen = match ds {
        Some(d) => match first_en(d) {
            Some(i) => Some(d[i]),
            None => if d.len() > 0 {
                Some(d[0])
            } else {
                None
            },
        },
        None => None,
    };
    match chosen {
        Some((_, Some(v))) => trim(v),
        _ => seq![],
    }
}

pub fn pick_description(ds: &Option<Vec<NvdText>>) -> (r: String)
    ensures
        r@ == description_spec(
            match ds {
                Some(d) => Some(d@.map_values(|t: NvdText| text_v(t))),
                None => None,
            },
        ),
{
    proof {
        reveal_strlit("");
        reveal_strlit("en");
    }
    match ds {
        None => {
            let e = lit("");
            assert(e@ =~= Seq::<char>::empty());
            e
        },
        Some(d) => {
            let ghost dv = d@.map_values(|t: NvdText| text_v(t));
            let mut found: Option<usize> = None;
            let mut i: usize = 0;
            while i < d.len() && found.is_none()
                invariant
                    i <= d@.len(),
                    dv == d@.map_values(|t: NvdText| text_v(t)),
                    match found {
                        Some(k) => first_en(dv) == Some(k as int) && k < d@.len(),
                        None => first_en(dv.take(i as int)) is None,
                    },
                decreases d@.len() - i,
            {
                assert(dv.take(i + 1).drop_last() =~= dv.take(i as int));
                assert(dv.take(i + 1).last() == text_v(d@[i as int]));
                let en = match &d[i].lang {
                    Some(l) => str_eq(l.as_str(), "en"),
                    None => false,
                };
                if en {
                    proof {
                        lemma_first_en_prefix(dv, i + 1);
                    }
                    found = Some(i);
                }
                i = i + 1;
            }
            proof {
                if found is None {
                    assert(dv.take(d@.len() as int) =~= dv);
                }
            }
            let pick: Option<usize> = match found {
                Some(k) => Some(k),
                None => if d.len() > 0 {
                    Some(0)
                } else {
                    None
                },
            };
            match pick {
                Some(k) => match &d[k].value {
                    Some(v) => trim_str(v.as_str()),
                    None => {
                        let e = lit("");
                        assert(e@ =~= Seq::<char>::empty());
                        e
                    },
                },
                None => {
                    let e = lit("");
                    assert(e@ =~= Seq::<char>::empty());
                    e
                },
            }
        },
    }
}

proof fn lemma_first_en_prefix(ds: Seq<(Option<Seq<char>>, Option<Seq<char>>)>, k: int)
    requires
        0 < k <= ds.len(),
        first_en(ds.take(k)) is Some,
    ensures
        first_en(ds) == first_en(ds.take(k)),
    decreases ds.len() - k,
{
    if k < ds.len() {
        assert(ds.take(k + 1).drop_last() =~= ds.take(k));
        lemma_first_en_prefix(ds, k + 1);
    } else {
        assert(ds.take(k) =~= ds);
    }
}

/// The weaknesses kept: the first description value of each weakness that
/// has one.
pub open spec fn cwes_spec(ws: Seq<Option<Seq<char>>>) -> Seq<Seq<char>>
    decreases ws.len(),
{
    if ws.len() == 0 {
        seq![]
    } else {
        let p = cwes_spec(ws.drop_last());
        match ws.last() {
            Some(v) => p.push(v),
            None => p,
        }
    }
}

/// Collects the CWE ids (`weaknesses`: per weakness, its first description
/// value when it is a string).
pub fn pick_cwes(weaknesses: &Option<Vec<Option<String>>>) -> (r: Vec<String>)
    ensures
        strs_view(r@) == match weaknesses {
            Some(w) => cwes_spec(w@.map_values(|o: Option<String>| ov(o))),
            None => seq![],
        },
{
    let mut out: Vec<String> = Vec::new();
    match weaknesses {
        None => {
            assert(strs_view(out@) =~= Seq::<Seq<char>>::empty());
        },
        Some(w) => {
            let ghost wv = w@.map_values(|o: Option<String>| ov(o));
            let mut i: usize = 0;
            while i < w.len()
                invariant
                    i <= w@.len(),
                    wv == w@.map_values(|o: Option<String>| ov(o)),
                    strs_view(out@) == cwes_spec(wv.take(i as int)),
                decreases w@.len() - i,
            {
                assert(wv.take(i + 1).drop_last() =~= wv.take(i as int));
                assert(wv.take(i + 1).last() == ov(w@[i as int]));
                match &w[i] {
                    Some(v) => {
                        let ghost prev = strs_view(out@);
                        out.push(v.clone());
                        assert(strs_view(out@) =~= prev.push(v@));
                    },
                    None => {},
                }
                i = i + 1;
            }
            assert(wv.take(w@.len() as int) =~= wv);
        },
    }
    out
}

pub open spec fn opt_strs(v: Seq<Option<Seq<char>>>) -> Seq<Seq<char>>
    decreases v.len(),
{
    if v.len() == 0 {
        seq![]
    } else {
        let p = opt_strs(v.drop_last());
        match v.last() {
            Some(s) => p.push(s),
            None => p,
        }
    }
}

pub open spec fn ref_v(r: NvdRef) -> (Option<Seq<char>>, Option<Seq<char>>, Option<Seq<Option<Seq<char>>>>) {
    (
        ov(r.url),
        ov(r.source),
        match r.tags {
            Some(t) => Some(t@.map_values(|o: Option<String>| ov(o))),
            None => None,
        },
    )
}

pub open spec fn cve_ref_v(r: CveReference) -> (Seq<char>, Seq<char>, Seq<Seq<char>>) {
    (r.url@, r.source@, strs_view(r.tags@))
}

/// The references kept: those with a URL, their source (empty if none)
/// and their string tags.
pub open spec fn refs_spec(
    rs: Seq<(Option<Seq<char>>, Option<Seq<char>>, Option<Seq<Option<Seq<char>>>>)>,
) -> Seq<(Seq<char>, Seq<char>, Seq<Seq<char>>)>
    decreases rs.len(),
{
    if rs.len() == 0 {
        seq![]
    } else {
        let p = refs_spec(rs.drop_last());
        let (u, s, t) = rs.last();
        match u {
            Some(url) => p.push(
                (
                    url,
                    match s {
                        Some(x) => x,
                        None => seq![],
                    },
                    match t {
                        Some(ts) => opt_strs(ts),
                        None => seq![],
                    },
                ),
            ),
            None => p,
        }
    }
}

fn string_tags(t: &Option<Vec<Option<String>>>) -> (r: Vec<String>)
    ensures
        strs_view(r@) == match t {
            Some(ts) => opt_strs(ts@.map_values(|o: Option<String>| ov(o))),
            None => seq![],
        },
{
    let mut out: Vec<String> = Vec::new();
    match t {
        None => {
            assert(strs_view(out@) =~= Seq::<Seq<char>>::empty());
        },
        Some(ts) => {
            let ghost tv = ts@.map_values(|o: Option<String>| ov(o));
            let mut i: usize = 0;
            while i < ts.len()
                invariant
                    i <= ts@.len(),
                    tv == ts@.map_values(|o: Option<String>| ov(o)),
                    strs_view(out@) == opt_strs(tv.take(i as int)),
                decreases ts@.len() - i,
            {
                assert(tv.take(i + 1).drop_last() =~= tv.take(i as int));
                assert(tv.take(i + 1).last() == ov(ts@[i as int]));
                match &ts[i] {
                    Some(v) => {
                        let ghost prev = strs_view(out@);
                        out.push(v.clone());
                        assert(strs_view(out@) =~= prev.push(v@));
                    },
                    None => {},
                }
                i = i + 1;
            }
            assert(tv.take(ts@.len() as int) =~= tv);
        },
    }
    out
}

/// Collects a record's references.
pub fn pick_references(refs: &Option<Vec<NvdRef>>) -> (r: Vec<CveReference>)
    ensures
        r@.map_values(|c: CveReference| cve_ref_v(c)) == match refs {
            Some(v) => refs_spec(v@.map_values(|x: NvdRef| ref_v(x))),
            None => seq![],
        },
{
    let mut out: Vec<CveReference> = Vec::new();
    match refs {
        None => {
            assert(out@.map_values(|c: CveReference| cve_ref_v(c)) =~= Seq::<
                (Seq<char>, Seq<char>, Seq<Seq<char>>),
            >::empty());
        },
        Some(v) => {
            let ghost rv = v@.map_values(|x: NvdRef| ref_v(x));
            let mut i: usize = 0;
            assert(out@.map_values(|c: CveReference| cve_ref_v(c)) =~= refs_spec(rv.take(0)));
            while i < v.len()
                invariant
                    i <= v@.len(),
                    rv == v@.map_values(|x: NvdRef| ref_v(x)),
                    out@.map_values(|c: CveReference| cve_ref_v(c)) == refs_spec(rv.take(i as int)),
                decreases v@.len() - i,
            {
                assert(rv.take(i + 1).drop_last() =~= rv.take(i as int));
                assert(rv.take(i + 1).last() == ref_v(v@[i as int]));
                let x = &v[i];
                match &x.url {
                    Some(url) => {
                        proof {
                            reveal_strlit("");
                        }
                        let c = CveReference {
                            url: url.clone(),
                            source: match &x.source {
                                Some(s) => s.clone(),
                                None => {
                                    let e = lit("");
                                    assert(e@ =~= Seq::<char>::empty());
                                    e
                                },
                            },
                            tags: string_tags(&x.tags),
                        };
                        let ghost prev = out@.map_values(|c: CveReference| cve_ref_v(c));
                        let ghost cv = cve_ref_v(c);
                        out.push(c);
                        assert(out@.map_values(|c: CveReference| cve_ref_v(c)) =~= prev.push(cv));
                    },
                    None => {},
                }
                i = i + 1;
            }
            assert(rv.take(v@.len() as int) =~= rv);
        },
    }
    out
}

/// Which CVSS v3-or-later metric a record's score is read from: v4.0, else
/// v3.1, else v3.0 (`has_*`: that metric list has an entry).
pub fn cvss_v3_source(has_v40: bool, has_v31: bool, has_v30: bool) -> (r: Option<&'static str>)
    ensures
        match r {
            Some(v) => (has_v40 && v@ == "4.0"@) || (!has_v40 && has_v31 && v@ == "3.1"@) || (!has_v40
                && !has_v31 && has_v30 && v@ == "3.0"@),
            None => !has_v40 && !has_v31 && !has_v30,
        },
{
    if has_v40 {
        Some("4.0")
    } else if has_v31 {
        Some("3.1")
    } else if has_v30 {
        Some("3.0")
    } else {
        None
    }
}


// ─── Dates ──────────────────────────────────────────────────────────────────

/// What `chrono::DateTime::parse_from_rfc3339` followed by `to_rfc3339`
/// makes of a text: `None` when it is not an RFC 3339 timestamp.
pub uninterp spec fn rfc3339_of(s: Seq<char>) -> Option<Seq<char>>;

/// `DateTime::parse_from_rfc3339`, then `DateTime::to_rfc3339` on the parsed
/// value (its offset kept); the rendering is named by `rfc3339_of`.
#[verifier::external_body]
fn reformat_rfc3339(s: &str) -> (r: Option<String>)
    ensures
        ov(r) == rfc3339_of(s@),
{
    chrono::DateTime::parse_from_rfc3339(s).ok().map(|d| d.to_rfc3339())
}

/// A record's date as NVD sends it, rewritten as RFC 3339; `None` when it is
/// absent or not a timestamp.
pub fn nvd_date(raw: Option<&str>) -> (r: Option<String>)
    ensures
        ov(r) == match raw {
            Some(s) => rfc3339_of(s@),
            None => None,
        },
{
    match raw {
        Some(s) => reformat_rfc3339(s),
        None => None,
    }
}

} // verus!
