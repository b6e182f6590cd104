//! Text scraping shared by the WordPress tools: reading `str::lines`,
//! the `Stable tag:` of a plugin readme, `Field:` headers of a theme's
//! style.css, slugs referenced under `/wp-content/...` in a page, author
//! slugs, and the method names of an XML-RPC `listMethods` answer.

use vstd::prelude::*;

use crate::common::char_width;
use crate::text::{
    chars_of, first_match, find_chars, lemma_first_match, lemma_split_nonempty, lower_chars,
    seqs_view, slice_chars, split_char, split_chars, starts_with, str_to_lowercase, string_of,
    strs_view, trim, trim_chars, match_at, is_ascii_char, has_prefix,
};

verus! {

// ─── Lines ──────────────────────────────────────────────────────────────────

pub open spec fn strip_cr(p: Seq<char>) -> Seq<char> {
    if p.len() > 0 && p.last() == '\r' {
        p.drop_last()
    } else {
        p
    }
}

/// `str::lines`: pieces ended by `\n` (a `\r` before it is dropped); a last
/// piece without `\n` counts only when non-empty.
pub open spec fn lines_spec(s: Seq<char>) -> Seq<Seq<char>> {
    let parts = split_char(s, '\n');
    let body = parts.take(parts.len() - 1).map_values(|p: Seq<char>| strip_cr(p));
    if parts.last().len() == 0 {
        body
    } else {
        body.push(parts.last())
    }
}

pub fn lines_of(s: &str) -> (r: Vec<Vec<char>>)
    ensures
        seqs_view(r@) == lines_spec(s@),
{
    let v = chars_of(s);
    let parts = split_chars(v.as_slice(), '\n');
    proof {
        lemma_split_nonempty(v@, '\n');
    }
    let ghost pv = seqs_view(parts@);
    let n = parts.len();
    let mut out: Vec<Vec<char>> = Vec::new();
    let mut i: usize = 0;
    while i + 1 < n
        invariant
            n == parts@.len(),
            n >= 1,
            i + 1 <= n,
            pv == seqs_view(parts@),
            seqs_view(out@) == pv.take(i as int).map_values(|p: Seq<char>| strip_cr(p)),
        decreases n - i,
    {
        let p = &parts[i];
        let mut q: Vec<char> = Vec::new();
        let m = p.len();
        if m > 0 && p[m - 1] == '\r' {
            q = slice_chars(p.as_slice(), 0, m - 1);
            assert(q@ =~= p@.drop_last());
        } else {
            q = slice_chars(p.as_slice(), 0, m);
            assert(q@ =~= p@);
        }
        let ghost prev = seqs_view(out@);
        out.push(q);
        assert(seqs_view(out@) =~= prev.push(strip_cr(pv[i as int])));
        assert(pv.take(i + 1).map_values(|p: Seq<char>| strip_cr(p)) =~= pv.take(i as int).map_values(
            |p: Seq<char>| strip_cr(p),
        ).push(strip_cr(pv[i as int])));
        i = i + 1;
    }
    let last = &parts[n - 1];
    assert(pv.last() == last@);
    if last.len() > 0 {
        let ghost prev = seqs_view(out@);
        let lv = slice_chars(last.as_slice(), 0, last.len());
        assert(lv@ =~= last@);
        out.push(lv);
        assert(seqs_view(out@) =~= prev.push(pv.last()));
    }
    assert(seqs_view(out@) =~= lines_spec(s@));
    out
}

// ─── Readme stable tag ──────────────────────────────────────────────────────

/// The first `Stable tag:` line (case-insensitive) with a non-empty value
/// after its first `:`; a matching line without a second piece ends the
/// search.
pub open spec fn stable_tag_in(lines: Seq<Seq<char>>) -> Option<Seq<char>>
    decreases lines.len(),
{
    if lines.len() == 0 {
        None
    } else {
        let line = lines[0];
        if starts_with(str_to_lowercase(line), "stable tag:"@) {
            let parts = split_char(line, ':');
            if parts.len() < 2 {
                None
            } else {
                let v = trim(parts[1]);
                if v.len() > 0 {
                    Some(v)
                } else {
                    stable_tag_in(lines.drop_first())
                }
            }
        } else {
            stable_tag_in(lines.drop_first())
        }
    }
}

pub open spec fn stable_tag_spec(readme: Seq<char>) -> Option<Seq<char>> {
    stable_tag_in(lines_spec(readme))
}

pub fn extract_stable_tag(readme: &str) -> (r: Option<String>)
    ensures
        match r {
            Some(v) => stable_tag_spec(readme@) == Some(v@),
            None => stable_tag_spec(readme@) is None,
        },
{
    let lines = lines_of(readme);
    let ghost ls = seqs_view(lines@);
    let marker = chars_of("stable tag:");
    let mut i: usize = 0;
    assert(ls.skip(0) =~= ls);
    while i < lines.len()
        invariant
            i <= lines@.len(),
            ls == seqs_view(lines@),
            marker@ == "stable tag:"@,
            ls == lines_spec(readme@),
            stable_tag_in(ls) == stable_tag_in(ls.skip(i as int)),
        decreases lines@.len() - i,
    {
        assert(ls.skip(i as int)[0] == lines@[i as int]@);
        assert(ls.skip(i as int).drop_first() =~= ls.skip(i + 1));
        let line = &lines[i];
        let lower = lower_chars(line.as_slice());
        let ghost cur = ls.skip(i as int);
        assert(cur[0] == line@);
        if has_prefix(lower.as_slice(), marker.as_slice()) {
            assert(starts_with(str_to_lowercase(cur[0]), "stable tag:"@));
            let parts = split_chars(line.as_slice(), ':');
            assert(seqs_view(parts@) == split_char(cur[0], ':'));
            if parts.len() < 2 {
                assert(stable_tag_in(cur) is None);
                return None;
            }
            assert(seqs_view(parts@)[1] == parts@[1]@);
            let v = trim_chars(parts[1].as_slice());
            if v.len() > 0 {
                assert(stable_tag_in(cur) == Some(v@));
                return Some(string_of(v.as_slice()));
            }
        }
        i = i + 1;
    }
    None
}

// ─── Slugs referenced in a page ─────────────────────────────────────────────

pub open spec fn is_slug_char(c: char) -> bool {
    ('0' <= c && c <= '9') || ('a' <= c && c <= 'z') || ('A' <= c && c <= 'Z') || c == '-' || c
        == '_'
}

/// Length of the leading run of slug characters.
pub open spec fn slug_len(s: Seq<char>) -> nat
    decreases s.len(),
{
    if s.len() > 0 && is_slug_char(s[0]) {
        1 + slug_len(s.drop_first())
    } else {
        0
    }
}

/// The scan of `html` for `marker` from `start`, collecting distinct slugs
/// of two characters or more until more than `cap` are found. `None` when
/// the scan would slice the page inside a character or past its end (the
/// marker is at the very end, or followed by a non-ASCII character, before
/// the cap is passed).
pub open spec fn scan_refs(
    html: Seq<char>,
    marker: Seq<char>,
    cap: nat,
    start: int,
    out: Seq<Seq<char>>,
) -> Option<Seq<Seq<char>>>
    decreases html.len() + 1 - start,
{
    if start < 0 || start > html.len() {
        None
    } else {
        match first_match(html, marker, start) {
            None => Some(out),
            Some(i) => {
                proof {
                    lemma_first_match(html, marker, start);
                }
                let abs = i + marker.len();
                let rest = html.skip(abs);
                let slug = rest.take(slug_len(rest) as int);
                let out2 = if slug.len() >= 2 && !out.contains(slug) {
                    out.push(slug)
                } else {
                    out
                };
                if out2.len() > cap {
                    Some(out2)
                } else if abs < html.len() && is_ascii_char(html[abs]) {
                    scan_refs(html, marker, cap, abs + 1, out2)
                } else {
                    None
                }
            },
        }
    }
}

pub open spec fn slugs_spec(html: Seq<char>, marker: Seq<char>, cap: nat) -> Option<Seq<Seq<char>>> {
    scan_refs(html, marker, cap, 0, seq![])
}

fn seq_in(out: &Vec<Vec<char>>, x: &Vec<char>) -> (b: bool)
    ensures
        b == seqs_view(out@).contains(x@),
{
    let mut i: usize = 0;
    while i < out.len()
        invariant
            i <= out@.len(),
            forall|j: int| 0 <= j < i ==> seqs_view(out@)[j] != x@,
        decreases out@.len() - i,
    {
        if crate::text::chars_eq(out[i].as_slice(), x.as_slice()) {
            assert(seqs_view(out@)[i as int] == x@);
            return true;
        }
        i = i + 1;
    }
    false
}

fn slug_at(v: &Vec<char>, at: usize) -> (r: Vec<char>)
    requires
        at <= v@.len(),
    ensures
        r@ == v@.skip(at as int).take(slug_len(v@.skip(at as int)) as int),
{
    let ghost rest = v@.skip(at as int);
    let mut k: usize = at;
    assert(rest.skip(0) =~= rest);
    while k < v.len() && (('0' <= v[k] && v[k] <= '9') || ('a' <= v[k] && v[k] <= 'z') || ('A'
        <= v[k] && v[k] <= 'Z') || v[k] == '-' || v[k] == '_')
        invariant
            at <= k <= v@.len(),
            rest == v@.skip(at as int),
            slug_len(rest) == (k - at) + slug_len(rest.skip(k - at)),
        decreases v@.len() - k,
    {
        assert(rest.skip(k - at)[0] == v@[k as int]);
        assert(rest.skip(k - at).drop_first() =~= rest.skip(k - at + 1));
        k = k + 1;
    }
    proof {
        if k < v@.len() {
            assert(rest.skip(k - at)[0] == v@[k as int]);
        }
    }
    let r = slice_chars(v.as_slice(), at, k);
    assert(r@ =~= rest.take((k - at) as int));
    r
}

/// Runs the scan; `None` exactly where the scan would fail (see `scan_refs`).
pub fn scan_slugs(html: &str, marker: &str, cap: usize) -> (r: Option<Vec<String>>)
    ensures
        match r {
            Some(v) => slugs_spec(html@, marker@, cap as nat) == Some(strs_view(v@)),
            None => slugs_spec(html@, marker@, cap as nat) is None,
        },
{
    let h = chars_of(html);
    let m = chars_of(marker);
    let mut out: Vec<Vec<char>> = Vec::new();
    let mut start: usize = 0;
    let hn = h.len();
    assert(seqs_view(out@) =~= Seq::<Seq<char>>::empty());
    loop
        invariant
            hn == h@.len(),
            start <= h@.len(),
            h@ == html@,
            m@ == marker@,
            slugs_spec(html@, marker@, cap as nat) == scan_refs(
                h@,
                m@,
                cap as nat,
                start as int,
                seqs_view(out@),
            ),
        decreases h@.len() + 1 - start,
    {
        proof {
            lemma_first_match(h@, m@, start as int);
        }
        match find_chars(h.as_slice(), m.as_slice(), start) {
            None => {
                let mut res: Vec<String> = Vec::new();
                let mut j: usize = 0;
                while j < out.len()
                    invariant
                        j <= out@.len(),
                        strs_view(res@) == seqs_view(out@).take(j as int),
                    decreases out@.len() - j,
                {
                    let ghost prev = strs_view(res@);
                    res.push(string_of(out[j].as_slice()));
                    assert(strs_view(res@) =~= prev.push(out@[j as int]@));
                    assert(seqs_view(out@).take(j + 1) =~= seqs_view(out@).take(j as int).push(
                        out@[j as int]@,
                    ));
                    j = j + 1;
                }
                assert(seqs_view(out@).take(out@.len() as int) =~= seqs_view(out@));
                return Some(res);
            },
            Some(i) => {
                assert(match_at(h@, m@, i as int));
                assert(i + m@.len() <= hn);
                let abs = i + m.len();
                let slug = slug_at(&h, abs);
                if slug.len() >= 2 && !seq_in(&out, &slug) {
                    let ghost prev = seqs_view(out@);
                    out.push(slug);
                    assert(seqs_view(out@) =~= prev.push(slug@));
                }
                if out.len() > cap {
                    let mut res: Vec<String> = Vec::new();
                    let mut j: usize = 0;
                    while j < out.len()
                        invariant
                            j <= out@.len(),
                            strs_view(res@) == seqs_view(out@).take(j as int),
                        decreases out@.len() - j,
                    {
                        let ghost prev = strs_view(res@);
                        res.push(string_of(out[j].as_slice()));
                        assert(strs_view(res@) =~= prev.push(out@[j as int]@));
                        assert(seqs_view(out@).take(j + 1) =~= seqs_view(out@).take(j as int).push(
                            out@[j as int]@,
                        ));
                        j = j + 1;
                    }
                    assert(seqs_view(out@).take(out@.len() as int) =~= seqs_view(out@));
                    return Some(res);
                }
                if abs < h.len() && (h[abs] as u32) < 128 {
                    start = abs + 1;
                } else {
                    return None;
                }
            },
        }
    }
}

/// Distinct slugs referenced after `marker` in a page, stopping once more
/// than `cap` are found (callers check `scan_slugs` first: the scan is only
/// defined where it does not slice the page inside a character).
pub fn extract_slugs_from_html(html: &str, marker: &str, cap: usize) -> (r: Vec<String>)
    requires
        slugs_spec(html@, marker@, cap as nat) is Some,
    ensures
        slugs_spec(html@, marker@, cap as nat) == Some(strs_view(r@)),
{
    match scan_slugs(html, marker, cap) {
        Some(v) => v,
        None => Vec::new(),
    }
}


// ─── style.css header fields ────────────────────────────────────────────────

/// Char position where byte offset `n` falls on a char boundary of `s`.
pub open spec fn char_index_at_byte(s: Seq<char>, n: int) -> Option<int>
    decreases s.len(),
{
    if n == 0 {
        Some(0)
    } else if n < 0 || s.len() == 0 {
        None
    } else {
        let w = char_width(s[0]);
        if w > n {
            None
        } else {
            match char_index_at_byte(s.drop_first(), n - w) {
                Some(k) => Some(k + 1),
                None => None,
            }
        }
    }
}

pub proof fn lemma_char_index_at_byte(s: Seq<char>, n: int)
    ensures
        match char_index_at_byte(s, n) {
            Some(k) => 0 <= k <= s.len(),
            None => true,
        },
    decreases s.len(),
{
    if n != 0 && n >= 0 && s.len() > 0 {
        lemma_char_index_at_byte(s.drop_first(), n - char_width(s[0]));
    }
}

/// The value of the first `prefix` line (compared lower-cased, trimmed)
/// among `lines` whose value is non-empty. `None` when a matching line
/// is cut inside a character (slicing would fail).
pub open spec fn field_in(lines: Seq<Seq<char>>, prefix: Seq<char>) -> Option<Option<Seq<char>>>
    decreases lines.len(),
{
    if lines.len() == 0 {
        Some(None)
    } else {
        let t = trim(lines[0]);
        if starts_with(str_to_lowercase(t), str_to_lowercase(prefix)) {
            match char_index_at_byte(t, crate::common::utf8_len(prefix) as int) {
                None => None,
                Some(k) => {
                    let v = trim(t.skip(k));
                    if v.len() > 0 {
                        Some(Some(v))
                    } else {
                        field_in(lines.drop_first(), prefix)
                    }
                },
            }
        } else {
            field_in(lines.drop_first(), prefix)
        }
    }
}

/// `Field: value` from the first 40 lines of a style.css header.
pub open spec fn header_field_spec(css: Seq<char>, field: Seq<char>) -> Option<Option<Seq<char>>> {
    let ls = lines_spec(css);
    field_in(
        if ls.len() > 40 {
            ls.take(40)
        } else {
            ls
        },
        field + ":"@,
    )
}

pub fn char_index_at_byte_exec(v: &[char], n: usize) -> (r: Option<usize>)
    ensures
        match r {
            Some(k) => char_index_at_byte(v@, n as int) == Some(k as int),
            None => char_index_at_byte(v@, n as int) is None,
        },
{
    let mut k: usize = 0;
    let mut left: usize = n;
    assert(v@.skip(0) =~= v@);
    while left > 0
        invariant
            k <= v@.len(),
            match char_index_at_byte(v@, n as int) {
                Some(x) => match char_index_at_byte(v@.skip(k as int), left as int) {
                    Some(y) => x == y + k,
                    None => false,
                },
                None => char_index_at_byte(v@.skip(k as int), left as int) is None,
            },
        decreases left,
    {
        if k >= v.len() {
            return None;
        }
        assert(v@.skip(k as int)[0] == v@[k as int]);
        assert(v@.skip(k as int).drop_first() =~= v@.skip(k + 1));
        let w = crate::common::char_len_utf8(v[k]);
        if w > left {
            return None;
        }
        left = left - w;
        k = k + 1;
    }
    Some(k)
}

fn utf8_len_of(v: &[char]) -> (n: usize)
    requires
        crate::common::utf8_len(v@) <= usize::MAX,
    ensures
        n == crate::common::utf8_len(v@),
{
    let mut total: usize = 0;
    let mut i: usize = 0;
    while i < v.len()
        invariant
            i <= v@.len(),
            total == crate::common::utf8_len(v@.take(i as int)),
            crate::common::utf8_len(v@) <= usize::MAX,
        decreases v@.len() - i,
    {
        assert(v@.take(i + 1).drop_last() =~= v@.take(i as int));
        proof {
            crate::common::lemma_utf8_len_prefix(v@, i + 1);
        }
        total = total + crate::common::char_len_utf8(v[i]);
        i = i + 1;
    }
    assert(v@.take(v@.len() as int) =~= v@);
    total
}

/// `Field: value` from a style.css header; `None` outside its domain (where
/// cutting the line at the field's byte length would land inside a
/// character).
pub fn header_field_checked(css: &str, field: &str) -> (r: Option<Option<String>>)
    requires
        crate::common::utf8_len(field@ + ":"@) <= usize::MAX,
    ensures
        match r {
            Some(Some(v)) => header_field_spec(css@, field@) == Some(Some(v@)),
            Some(None) => header_field_spec(css@, field@) == Some(None::<Seq<char>>),
            None => header_field_spec(css@, field@) is None,
        },
{
    let lines = lines_of(css);
    let mut prefix = chars_of(field);
    crate::text::push_str(&mut prefix, ":");
    let plen = utf8_len_of(prefix.as_slice());
    let lp = lower_chars(prefix.as_slice());
    let ghost all = seqs_view(lines@);
    let limit: usize = if lines.len() > 40 {
        40
    } else {
        lines.len()
    };
    let ghost ls = if all.len() > 40 {
        all.take(40)
    } else {
        all
    };
    assert(ls.skip(0) =~= ls);
    let mut i: usize = 0;
    while i < limit
        invariant
            i <= limit,
            limit == ls.len(),
            limit <= lines@.len(),
            all == seqs_view(lines@),
            ls == (if all.len() > 40 {
                all.take(40)
            } else {
                all
            }),
            all == lines_spec(css@),
            prefix@ == field@ + ":"@,
            plen == crate::common::utf8_len(prefix@),
            lp@ == str_to_lowercase(prefix@),
            field_in(ls, prefix@) == field_in(ls.skip(i as int), prefix@),
        decreases limit - i,
    {
        let ghost cur = ls.skip(i as int);
        assert(cur[0] == lines@[i as int]@);
        assert(cur.drop_first() =~= ls.skip(i + 1));
        let t = trim_chars(lines[i].as_slice());
        let tl = lower_chars(t.as_slice());
        if has_prefix(tl.as_slice(), lp.as_slice()) {
            proof {
                lemma_char_index_at_byte(t@, plen as int);
            }
            match char_index_at_byte_exec(t.as_slice(), plen) {
                None => {
                    return None;
                },
                Some(k) => {
                    let rest = slice_chars(t.as_slice(), k, t.len());
                    assert(rest@ =~= t@.skip(k as int));
                    let v = trim_chars(rest.as_slice());
                    if v.len() > 0 {
                        return Some(Some(string_of(v.as_slice())));
                    }
                },
            }
        }
        i = i + 1;
    }
    Some(None)
}

/// Detection confidence (0–100) and its explanation for an evidence source.
pub fn confidence_for(evidence: &str) -> (r: (u8, &'static str))
    ensures
        evidence@ == "style.css"@ ==> r.0 == 90 && r.1@
            == "Theme style.css header with a Version — strong fingerprint"@,
        evidence@ == "html_reference"@ ==> r.0 == 60 && r.1@
            == "Slug referenced in page HTML — presence inferred, verify manually"@,
        evidence@ != "style.css"@ && evidence@ != "html_reference"@ ==> r.0 == 50 && r.1@
            == "Indirect signal — verify manually"@,
{
    proof {
        reveal_strlit("style.css");
        reveal_strlit("html_reference");
        assert("style.css"@.len() != "html_reference"@.len());
    }
    if crate::text::str_eq(evidence, "style.css") {
        (90, "Theme style.css header with a Version — strong fingerprint")
    } else if crate::text::str_eq(evidence, "html_reference") {
        (60, "Slug referenced in page HTML — presence inferred, verify manually")
    } else {
        (50, "Indirect signal — verify manually")
    }
}

// ─── Author slugs ───────────────────────────────────────────────────────────

pub open spec fn is_author_stop(c: char) -> bool {
    c == '/' || c == '?' || c == '#'
}

/// Length of the first `/`, `?` or `#`-separated segment.
pub open spec fn segment_len(s: Seq<char>) -> nat
    decreases s.len(),
{
    if s.len() > 0 && !is_author_stop(s[0]) {
        1 + segment_len(s.drop_first())
    } else {
        0
    }
}

pub open spec fn is_author_char(c: char) -> bool {
    is_slug_char(c) || c == '.'
}

/// The characters of `s` allowed in an author slug, in order.
pub open spec fn author_chars(s: Seq<char>) -> Seq<char>
    decreases s.len(),
{
    if s.len() == 0 {
        seq![]
    } else {
        let p = author_chars(s.drop_last());
        if is_author_char(s.last()) {
            p.push(s.last())
        } else {
            p
        }
    }
}

/// Author slug of an archive URL (`…/author/<slug>/…`); `page` is not a slug.
pub open spec fn author_slug_spec(url: Seq<char>) -> Option<Seq<char>> {
    match first_match(url, "/author/"@, 0) {
        None => None,
        Some(i) => {
            let rest = url.skip(i + 8);
            let slug = author_chars(rest.take(segment_len(rest) as int));
            if slug.len() == 0 || slug == "page"@ {
                None
            } else {
                Some(slug)
            }
        },
    }
}

/// First author slug linked in a page body.
pub open spec fn author_in_body_spec(body: Seq<char>) -> Option<Seq<char>> {
    match first_match(body, "/author/"@, 0) {
        None => None,
        Some(i) => {
            let rest = body.skip(i + 8);
            let slug = rest.take(slug_len(rest) as int);
            if slug.len() == 0 {
                None
            } else {
                Some(slug)
            }
        },
    }
}

fn author_rest(v: &Vec<char>) -> (r: Option<Vec<char>>)
    ensures
        match r {
            Some(x) => first_match(v@, "/author/"@, 0) matches Some(i) && x@ == v@.skip(i + 8),
            None => first_match(v@, "/author/"@, 0) is None,
        },
{
    let m = chars_of("/author/");
    proof {
        lemma_first_match(v@, m@, 0);
        reveal_strlit("/author/");
    }
    match find_chars(v.as_slice(), m.as_slice(), 0) {
        None => None,
        Some(i) => {
            assert(m@.len() == 8);
            assert(match_at(v@, m@, i as int));
            let n = v.len();
            assert(i + 8 <= n);
            let r = slice_chars(v.as_slice(), i + 8, n);
            assert(r@ =~= v@.skip(i + 8));
            Some(r)
        },
    }
}

pub fn extract_author_slug(url: &str) -> (r: Option<String>)
    ensures
        match r {
            Some(s) => author_slug_spec(url@) == Some(s@),
            None => author_slug_spec(url@) is None,
        },
{
    let v = chars_of(url);
    match author_rest(&v) {
        None => None,
        Some(rest) => {
            let mut slug: Vec<char> = Vec::new();
            let mut k: usize = 0;
            assert(rest@.skip(0) =~= rest@);
            while k < rest.len() && !(rest[k] == '/' || rest[k] == '?' || rest[k] == '#')
                invariant
                    k <= rest@.len(),
                    segment_len(rest@) == k + segment_len(rest@.skip(k as int)),
                    slug@ == author_chars(rest@.take(k as int)),
                decreases rest@.len() - k,
            {
                assert(rest@.skip(k as int)[0] == rest@[k as int]);
                assert(rest@.skip(k as int).drop_first() =~= rest@.skip(k + 1));
                assert(rest@.take(k + 1).drop_last() =~= rest@.take(k as int));
                let c = rest[k];
                if ('0' <= c && c <= '9') || ('a' <= c && c <= 'z') || ('A' <= c && c <= 'Z') || c
                    == '-' || c == '_' || c == '.' {
                    slug.push(c);
                }
                k = k + 1;
            }
            proof {
                if k < rest@.len() {
                    assert(rest@.skip(k as int)[0] == rest@[k as int]);
                }
            }
            let page = chars_of("page");
            if slug.len() == 0 || crate::text::chars_eq(slug.as_slice(), page.as_slice()) {
                None
            } else {
                Some(string_of(slug.as_slice()))
            }
        },
    }
}

pub fn extract_author_from_body(body: &str) -> (r: Option<String>)
    ensures
        match r {
            Some(s) => author_in_body_spec(body@) == Some(s@),
            None => author_in_body_spec(body@) is None,
        },
{
    let v = chars_of(body);
    match author_rest(&v) {
        None => None,
        Some(rest) => {
            let slug = slug_at(&rest, 0);
            assert(rest@.skip(0) =~= rest@);
            if slug.len() == 0 {
                None
            } else {
                Some(string_of(slug.as_slice()))
            }
        },
    }
}

// ─── XML-RPC method names ───────────────────────────────────────────────────

/// Distinct trimmed, non-empty `<string>…</string>` values, in order.
pub open spec fn methods_from(rest: Seq<char>, out: Seq<Seq<char>>) -> Seq<Seq<char>>
    decreases rest.len(),
{
    match first_match(rest, "<string>"@, 0) {
        None => out,
        Some(start) => {
            proof {
                lemma_first_match(rest, "<string>"@, 0);
                reveal_strlit("<string>");
            }
            let after = rest.skip(start + 8);
            match first_match(after, "</string>"@, 0) {
                None => out,
                Some(end) => {
                    proof {
                        lemma_first_match(after, "</string>"@, 0);
                        reveal_strlit("</string>");
                    }
                    let s = trim(after.take(end));
                    let out2 = if s.len() > 0 && !out.contains(s) {
                        out.push(s)
                    } else {
                        out
                    };
                    methods_from(after.skip(end + 9), out2)
                },
            }
        },
    }
}

pub fn parse_method_strings(xml: &str) -> (r: Vec<String>)
    ensures
        strs_view(r@) == methods_from(xml@, seq![]),
{
    let open = chars_of("<string>");
    let close = chars_of("</string>");
    proof {
        reveal_strlit("<string>");
        reveal_strlit("</string>");
    }
    let mut rest = chars_of(xml);
    let mut out: Vec<Vec<char>> = Vec::new();
    assert(seqs_view(out@) =~= Seq::<Seq<char>>::empty());
    loop
        invariant
            open@ == "<string>"@,
            close@ == "</string>"@,
            open@.len() == 8,
            close@.len() == 9,
            methods_from(xml@, seq![]) == methods_from(rest@, seqs_view(out@)),
        ensures
            methods_from(xml@, seq![]) == seqs_view(out@),
        decreases rest@.len(),
    {
        proof {
            lemma_first_match(rest@, open@, 0);
        }
        match find_chars(rest.as_slice(), open.as_slice(), 0) {
            None => {
                break;
            },
            Some(start) => {
                assert(match_at(rest@, open@, start as int));
                let n = rest.len();
                let after = slice_chars(rest.as_slice(), start + 8, n);
                assert(after@ =~= rest@.skip(start + 8));
                proof {
                    lemma_first_match(after@, close@, 0);
                }
                match find_chars(after.as_slice(), close.as_slice(), 0) {
                    None => {
                        break;
                    },
                    Some(end) => {
                        assert(match_at(after@, close@, end as int));
                        let inner = slice_chars(after.as_slice(), 0, end);
                        assert(inner@ =~= after@.take(end as int));
                        let s = trim_chars(inner.as_slice());
                        if s.len() > 0 && !seq_in(&out, &s) {
                            let ghost prev = seqs_view(out@);
                            out.push(s);
                            assert(seqs_view(out@) =~= prev.push(s@));
                        }
                        let an = after.len();
                        let next = slice_chars(after.as_slice(), end + 9, an);
                        assert(next@ =~= after@.skip(end + 9));
                        rest = next;
                    },
                }
            },
        }
    }
    let mut res: Vec<String> = Vec::new();
    let mut j: usize = 0;
    while j < out.len()
        invariant
            j <= out@.len(),
            strs_view(res@) == seqs_view(out@).take(j as int),
        decreases out@.len() - j,
    {
        let ghost prev = strs_view(res@);
        res.push(string_of(out[j].as_slice()));
        assert(strs_view(res@) =~= prev.push(out@[j as int]@));
        assert(seqs_view(out@).take(j + 1) =~= seqs_view(out@).take(j as int).push(out@[j as int]@));
        j = j + 1;
    }
    assert(seqs_view(out@).take(out@.len() as int) =~= seqs_view(out@));
    res
}

} // verus!
