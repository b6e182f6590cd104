//! WordPress.org plugin/theme metadata: cleaning the info API's strings
//! (tags stripped, whitespace collapsed, HTML entities decoded), the
//! per-component record, and the session cache the attack surface reads.

use vstd::prelude::*;

use crate::text::ov;
use crate::pattern::{regex_captures, regex_captures_of, regex_compiles, regex_split, row_view, rows_view};
use crate::text::{
    chars_of, is_whitespace, is_ws, join, join_chars, lit, lowercase, parse_unsigned,
    parse_unsigned_spec, push_all, push_str, seqs_view, starts_with, starts_with_at, str_eq,
    str_to_lowercase, string_of, strs_view, trim, trim_str,
};

verus! {

// ─── Tags and whitespace ────────────────────────────────────────────────────

/// Whether a `<` is still open after the text.
pub open spec fn in_tag_after(s: Seq<char>) -> bool
    decreases s.len(),
{
    if s.len() == 0 {
        false
    } else if s.last() == '<' {
        true
    } else if s.last() == '>' {
        false
    } else {
        in_tag_after(s.drop_last())
    }
}

/// The text outside `<...>` tags (the angle brackets themselves dropped).
pub open spec fn untagged(s: Seq<char>) -> Seq<char>
    decreases s.len(),
{
    if s.len() == 0 {
        seq![]
    } else {
        let p = s.drop_last();
        let c = s.last();
        if c == '<' || c == '>' || in_tag_after(p) {
            untagged(p)
        } else {
            untagged(p).push(c)
        }
    }
}

/// The whitespace-separated words of a text (`str::split_whitespace`).
pub open spec fn ws_words(s: Seq<char>) -> Seq<Seq<char>>
    decreases s.len(),
{
    if s.len() == 0 {
        seq![]
    } else {
        let p = ws_words(s.drop_last());
        let c = s.last();
        if is_ws(c) {
            p
        } else if s.len() >= 2 && !is_ws(s[s.len() - 2]) && p.len() > 0 {
            p.update(p.len() - 1, p.last().push(c))
        } else {
            p.push(seq![c])
        }
    }
}

/// Tags removed, then runs of whitespace collapsed to one space.
pub open spec fn strip_html_spec(s: Seq<char>) -> Seq<char> {
    join(ws_words(untagged(s)), " "@)
}

fn untag(v: &[char]) -> (r: Vec<char>)
    ensures
        r@ == untagged(v@),
{
    let mut out: Vec<char> = Vec::new();
    let mut in_tag = false;
    let mut i: usize = 0;
    while i < v.len()
        invariant
            i <= v@.len(),
            out@ == untagged(v@.take(i as int)),
            in_tag == in_tag_after(v@.take(i as int)),
        decreases v@.len() - i,
    {
        assert(v@.take(i + 1).drop_last() =~= v@.take(i as int));
        let c = v[i];
        if c == '<' {
            in_tag = true;
        } else if c == '>' {
            in_tag = false;
        } else if !in_tag {
            out.push(c);
        }
        i = i + 1;
    }
    assert(v@.take(v@.len() as int) =~= v@);
    out
}

fn split_words(v: &[char]) -> (r: Vec<Vec<char>>)
    ensures
        seqs_view(r@) == ws_words(v@),
{
    let mut out: Vec<Vec<char>> = Vec::new();
    let mut i: usize = 0;
    while i < v.len()
        invariant
            i <= v@.len(),
            seqs_view(out@) == ws_words(v@.take(i as int)),
        decreases v@.len() - i,
    {
        let ghost s = v@.take(i + 1);
        assert(s.drop_last() =~= v@.take(i as int));
        let ghost prev = seqs_view(out@);
        let c = v[i];
        if is_whitespace(c) {
        } else if i >= 1 && !is_whitespace(v[i - 1]) && out.len() > 0 {
            assert(s[s.len() - 2] == v@[i - 1]);
            let last = out.len() - 1;
            let mut w = out.remove(last);
            w.push(c);
            out.push(w);
            assert(seqs_view(out@) =~= prev.update(prev.len() - 1, prev.last().push(c)));
        } else {
            proof {
                if i >= 1 {
                    assert(s[s.len() - 2] == v@[i - 1]);
                }
            }
            let mut w: Vec<char> = Vec::new();
            w.push(c);
            out.push(w);
            assert(seqs_view(out@) =~= prev.push(seq![c]));
        }
        i = i + 1;
    }
    assert(v@.take(v@.len() as int) =~= v@);
    out
}

/// Drops HTML tags and collapses whitespace (an author field such as
/// `<a href="…">Jane</a>` becomes `Jane`).
pub fn strip_html(s: &str) -> (r: String)
    ensures
        r@ == strip_html_spec(s@),
{
    let v = chars_of(s);
    let text = untag(v.as_slice());
    let words = split_words(text.as_slice());
    string_of(join_chars(&words, " ").as_slice())
}

// ─── Entities ───────────────────────────────────────────────────────────────

/// `str::replace`: every non-overlapping occurrence of `from`, left to
/// right, becomes `to`.
pub open spec fn replace_spec(s: Seq<char>, from: Seq<char>, to: Seq<char>) -> Seq<char>
    decreases s.len(),
{
    if s.len() == 0 {
        seq![]
    } else if from.len() > 0 && starts_with(s, from) {
        to + replace_spec(s.skip(from.len() as int), from, to)
    } else {
        seq![s[0]] + replace_spec(s.skip(1), from, to)
    }
}

pub fn replace_str(s: &str, from: &str, to: &str) -> (r: String)
    ensures
        r@ == replace_spec(s@, from@, to@),
{
    let v = chars_of(s);
    let f = chars_of(from);
    let t = chars_of(to);
    let n = v.len();
    let mut out: Vec<char> = Vec::new();
    let mut i: usize = 0;
    assert(v@.skip(0) =~= v@);
    while i < n
        invariant
            i <= n,
            n == v@.len(),
            f@ == from@,
            t@ == to@,
            out@ + replace_spec(v@.skip(i as int), from@, to@) == replace_spec(v@, from@, to@),
        decreases n - i,
    {
        let ghost s1 = v@.skip(i as int);
        if f.len() > 0 && starts_with_at(v.as_slice(), i, f.as_slice()) {
            assert(s1.take(f@.len() as int) =~= v@.subrange(i as int, i + f@.len()));
            assert(s1.skip(f@.len() as int) =~= v@.skip(i + f@.len()));
            assert(out@ + t@ + replace_spec(v@.skip(i + f@.len()), from@, to@) =~= out@ + (t@
                + replace_spec(s1.skip(f@.len() as int), from@, to@)));
            push_all(&mut out, t.as_slice());
            i = i + f.len();
        } else {
            proof {
                if f@.len() > 0 && starts_with(s1, f@) {
                    assert(v@.subrange(i as int, i + f@.len()) =~= s1.take(f@.len() as int));
                }
            }
            assert(s1[0] == v@[i as int]);
            assert(s1.skip(1) =~= v@.skip(i + 1));
            assert(out@.push(v@[i as int]) + replace_spec(v@.skip(i + 1), from@, to@) =~= out@ + (
            seq![s1[0]] + replace_spec(s1.skip(1), from@, to@)));
            out.push(v[i]);
            i = i + 1;
        }
    }
    assert(v@.skip(n as int) =~= Seq::<char>::empty());
    assert(out@ + replace_spec(v@.skip(i as int), from@, to@) =~= out@);
    string_of(out.as_slice())
}

/// Number of named entities decoded.
pub const NAMED_ENTITIES: usize = 14;

pub open spec fn entity_name(k: int) -> Seq<char> {
    if k == 0 {
        "&amp;"@
    } else if k == 1 {
        "&lt;"@
    } else if k == 2 {
        "&gt;"@
    } else if k == 3 {
        "&quot;"@
    } else if k == 4 {
        "&#039;"@
    } else if k == 5 {
        "&apos;"@
    } else if k == 6 {
        "&#39;"@
    } else if k == 7 {
        "&#8211;"@
    } else if k == 8 {
        "&#8212;"@
    } else if k == 9 {
        "&#8216;"@
    } else if k == 10 {
        "&#8217;"@
    } else if k == 11 {
        "&#8220;"@
    } else if k == 12 {
        "&#8221;"@
    } else {
        "&#8230;"@
    }
}

pub open spec fn entity_text(k: int) -> Seq<char> {
    if k == 0 {
        "&"@
    } else if k == 1 {
        "<"@
    } else if k == 2 {
        ">"@
    } else if k == 3 {
        "\""@
    } else if k == 4 || k == 5 || k == 6 {
        "'"@
    } else if k == 7 {
        "\u{2013}"@
    } else if k == 8 {
        "\u{2014}"@
    } else if k == 9 {
        "\u{2018}"@
    } else if k == 10 {
        "\u{2019}"@
    } else if k == 11 {
        "\u{201c}"@
    } else if k == 12 {
        "\u{201d}"@
    } else {
        "\u{2026}"@
    }
}

fn entity_pair(k: usize) -> (r: (&'static str, &'static str))
    requires
        k < NAMED_ENTITIES,
    ensures
        r.0@ == entity_name(k as int),
        r.1@ == entity_text(k as int),
{
    if k == 0 {
        ("&amp;", "&")
    } else if k == 1 {
        ("&lt;", "<")
    } else if k == 2 {
        ("&gt;", ">")
    } else if k == 3 {
        ("&quot;", "\"")
    } else if k == 4 {
        ("&#039;", "'")
    } else if k == 5 {
        ("&apos;", "'")
    } else if k == 6 {
        ("&#39;", "'")
    } else if k == 7 {
        ("&#8211;", "\u{2013}")
    } else if k == 8 {
        ("&#8212;", "\u{2014}")
    } else if k == 9 {
        ("&#8216;", "\u{2018}")
    } else if k == 10 {
        ("&#8217;", "\u{2019}")
    } else if k == 11 {
        ("&#8220;", "\u{201c}")
    } else if k == 12 {
        ("&#8221;", "\u{201d}")
    } else {
        ("&#8230;", "\u{2026}")
    }
}

/// The first `n` named entities replaced, in table order.
pub open spec fn named_decoded(s: Seq<char>, n: nat) -> Seq<char>
    decreases n,
{
    if n == 0 {
        s
    } else {
        replace_spec(named_decoded(s, (n - 1) as nat), entity_name(n - 1), entity_text(n - 1))
    }
}

/// A Unicode scalar value: what `char::from_u32` accepts.
pub open spec fn is_scalar(v: u32) -> bool {
    v <= 0x10FFFF && !(0xD800 <= v && v <= 0xDFFF)
}

/// `char::from_u32`: the char with that code point, `None` for a surrogate
/// or a value past `0x10FFFF` (as its documentation states).
#[verifier::external_body]
fn char_from_u32(v: u32) -> (r: Option<char>)
    ensures
        r == (if is_scalar(v) {
            Some(v as char)
        } else {
            None
        }),
{
    char::from_u32(v)
}

/// What a numeric entity's digits decode to: the char when they parse as a
/// `u32` scalar value, else nothing.
pub open spec fn numeric_entity(digits: Seq<char>) -> Seq<char> {
    match parse_unsigned_spec(digits, u32::MAX as nat) {
        Some(v) => if is_scalar(v as u32) {
            seq![(v as u32) as char]
        } else {
            seq![]
        },
        None => seq![],
    }
}

fn numeric_entity_exec(digits: &str) -> (r: Vec<char>)
    ensures
        r@ == numeric_entity(digits@),
{
    let d = chars_of(digits);
    let mut out: Vec<char> = Vec::new();
    match parse_unsigned(d.as_slice(), 0xFFFF_FFFFu64) {
        Some(v) => {
            let x: u32 = v as u32;
            match char_from_u32(x) {
                Some(c) => out.push(c),
                None => {},
            }
            assert(out@ =~= numeric_entity(digits@));
        },
        None => {
            assert(out@ =~= numeric_entity(digits@));
        },
    }
    out
}

/// The pattern of a numeric entity, `&#` digits `;`.
pub open spec fn numeric_pattern() -> Seq<char> {
    "&#(\\d+);"@
}

/// What one numeric-entity match becomes (its digits are group 1).
pub open spec fn entity_replacement(row: Seq<Option<Seq<char>>>) -> Seq<char> {
    if row.len() > 1 {
        match row[1] {
            Some(d) => numeric_entity(d),
            None => seq![],
        }
    } else {
        seq![]
    }
}

/// The pieces between matches with each match replaced.
pub open spec fn weave(pieces: Seq<Seq<char>>, rows: Seq<Seq<Option<Seq<char>>>>, n: nat) -> Seq<char>
    decreases n,
{
    if n == 0 {
        pieces[0]
    } else {
        weave(pieces, rows, (n - 1) as nat) + entity_replacement(rows[n - 1]) + pieces[n as int]
    }
}

/// Named entities first, then `&#NNN;` numeric ones.
pub open spec fn decode_entities_spec(s: Seq<char>) -> Seq<char> {
    let named = named_decoded(s, NAMED_ENTITIES as nat);
    if regex_compiles(numeric_pattern()) {
        let rows = regex_captures_of(numeric_pattern(), named);
        weave(crate::pattern::regex_pieces_of(numeric_pattern(), named), rows, rows.len())
    } else {
        named
    }
}

/// Decodes the HTML entities the info API uses in names and authors.
pub fn decode_entities(s: &str) -> (r: String)
    ensures
        r@ == decode_entities_spec(s@),
{
    let mut out = lit(s);
    let mut k: usize = 0;
    while k < NAMED_ENTITIES
        invariant
            k <= NAMED_ENTITIES,
            out@ == named_decoded(s@, k as nat),
        decreases NAMED_ENTITIES - k,
    {
        let (from, to) = entity_pair(k);
        out = replace_str(out.as_str(), from, to);
        k = k + 1;
    }
    let pieces = regex_split("&#(\\d+);", out.as_str());
    let caps = regex_captures("&#(\\d+);", out.as_str());
    match (pieces, caps) {
        (Some(ps), Some(rows)) => {
            let ghost rv = rows_view(rows@);
            let ghost pv = strs_view(ps@);
            let mut res = chars_of(ps[0].as_str());
            let mut i: usize = 0;
            while i < rows.len()
                invariant
                    i <= rows@.len(),
                    ps@.len() == rows@.len() + 1,
                    rv == rows_view(rows@),
                    pv == strs_view(ps@),
                    res@ == weave(pv, rv, i as nat),
                decreases rows@.len() - i,
            {
                let row = &rows[i];
                assert(rv[i as int] == row_view(row@));
                if row.len() > 1 {
                    match &row[1] {
                        Some(d) => {
                            assert(rv[i as int][1] == Some(d@));
                            push_all(&mut res, numeric_entity_exec(d.as_str()).as_slice());
                        },
                        None => {
                            assert(rv[i as int][1] is None);
                        },
                    }
                }
                push_str(&mut res, ps[i + 1].as_str());
                assert(pv[i + 1] == ps@[i + 1]@);
                i = i + 1;
            }
            string_of(res.as_slice())
        },
        _ => out,
    }
}

// ─── The metadata record ────────────────────────────────────────────────────

/// What WordPress.org knows of one plugin or theme (`found` is false for a
/// slug that is not hosted there).
pub struct RepoMeta {
    pub found: bool,
    pub name: Option<String>,
    pub version: Option<String>,
    pub author: Option<String>,
    pub homepage: Option<String>,
    pub download_link: Option<String>,
    pub downloads: Option<u64>,
    pub active_installs: Option<u64>,
    pub last_updated: Option<String>,
    pub requires: Option<String>,
    pub tested: Option<String>,
    pub tags: Vec<String>,
}

pub struct RepoMetaV {
    pub found: bool,
    pub name: Option<Seq<char>>,
    pub version: Option<Seq<char>>,
    pub author: Option<Seq<char>>,
    pub homepage: Option<Seq<char>>,
    pub download_link: Option<Seq<char>>,
    pub downloads: Option<u64>,
    pub active_installs: Option<u64>,
    pub last_updated: Option<Seq<char>>,
    pub requires: Option<Seq<char>>,
    pub tested: Option<Seq<char>>,
    pub tags: Seq<Seq<char>>,
}

pub open spec fn meta_v(m: RepoMeta) -> RepoMetaV {
    RepoMetaV {
        found: m.found,
        name: ov(m.name),
        version: ov(m.version),
        author: ov(m.author),
        homepage: ov(m.homepage),
        download_link: ov(m.download_link),
        downloads: m.downloads,
        active_installs: m.active_installs,
        last_updated: ov(m.last_updated),
        requires: ov(m.requires),
        tested: ov(m.tested),
        tags: strs_view(m.tags@),
    }
}

/// The record of a slug that is not on WordPress.org.
pub open spec fn empty_meta_v() -> RepoMetaV {
    RepoMetaV {
        found: false,
        name: None,
        version: None,
        author: None,
        homepage: None,
        download_link: None,
        downloads: None,
        active_installs: None,
        last_updated: None,
        requires: None,
        tested: None,
        tags: seq![],
    }
}

impl Default for RepoMeta {
    fn default() -> (r: RepoMeta)
        ensures
            meta_v(r) == empty_meta_v(),
    {
        let r = RepoMeta {
            found: false,
            name: None,
            version: None,
            author: None,
            homepage: None,
            download_link: None,
            downloads: None,
            active_installs: None,
            last_updated: None,
            requires: None,
            tested: None,
            tags: Vec::new(),
        };
        assert(meta_v(r).tags =~= Seq::<Seq<char>>::empty());
        r
    }
}

fn clone_opt(o: &Option<String>) -> (r: Option<String>)
    ensures
        ov(r) == ov(*o),
{
    match o {
        Some(s) => Some(s.clone()),
        None => None,
    }
}

pub fn clone_strings(v: &Vec<String>) -> (r: Vec<String>)
    ensures
        strs_view(r@) == strs_view(v@),
{
    let mut out: Vec<String> = Vec::new();
    let mut i: usize = 0;
    while i < v.len()
        invariant
            i <= v@.len(),
            strs_view(out@) =~= strs_view(v@).take(i as int),
        decreases v@.len() - i,
    {
        let ghost prev = strs_view(out@);
        out.push(v[i].clone());
        assert(strs_view(out@) =~= prev.push(v@[i as int]@));
        i = i + 1;
    }
    out
}

pub fn clone_meta(m: &RepoMeta) -> (r: RepoMeta)
    ensures
        meta_v(r) == meta_v(*m),
{
    RepoMeta {
        found: m.found,
        name: clone_opt(&m.name),
        version: clone_opt(&m.version),
        author: clone_opt(&m.author),
        homepage: clone_opt(&m.homepage),
        download_link: clone_opt(&m.download_link),
        downloads: m.downloads,
        active_installs: m.active_installs,
        last_updated: clone_opt(&m.last_updated),
        requires: clone_opt(&m.requires),
        tested: clone_opt(&m.tested),
        tags: clone_strings(&m.tags),
    }
}

/// The info API's answer as read: the HTTP status, whether it carries an
/// `error` string, each string field as sent, and the tag keys.
pub struct WpOrgInfo {
    pub status: u16,
    pub has_error: bool,
    pub name: Option<String>,
    pub version: Option<String>,
    pub author: Option<String>,
    pub homepage: Option<String>,
    pub download_link: Option<String>,
    pub downloaded: Option<u64>,
    pub active_installs: Option<u64>,
    pub last_updated: Option<String>,
    pub requires: Option<String>,
    pub tested: Option<String>,
    pub tags: Vec<String>,
}

/// A string field trimmed; empty counts as absent.
pub open spec fn clean_field(o: Option<Seq<char>>) -> Option<Seq<char>> {
    match o {
        Some(s) => if trim(s).len() > 0 {
            Some(trim(s))
        } else {
            None
        },
        None => None,
    }
}

/// The record built from an answer: nothing found unless the status is 200
/// and no error was reported; names have their entities decoded, authors
/// their tags stripped too.
pub open spec fn repo_meta_spec(i: WpOrgInfo) -> RepoMetaV {
    if i.status != 200 || i.has_error {
        empty_meta_v()
    } else {
        RepoMetaV {
            found: true,
            name: match clean_field(ov(i.name)) {
                Some(n) => Some(decode_entities_spec(n)),
                None => None,
            },
            version: clean_field(ov(i.version)),
            author: match clean_field(ov(i.author)) {
                Some(a) => Some(decode_entities_spec(strip_html_spec(a))),
                None => None,
            },
            homepage: clean_field(ov(i.homepage)),
            download_link: clean_field(ov(i.download_link)),
            downloads: i.downloaded,
            active_installs: i.active_installs,
            last_updated: clean_field(ov(i.last_updated)),
            requires: clean_field(ov(i.requires)),
            tested: clean_field(ov(i.tested)),
            tags: strs_view(i.tags@),
        }
    }
}

fn clean(o: &Option<String>) -> (r: Option<String>)
    ensures
        ov(r) == clean_field(ov(*o)),
{
    match o {
        Some(s) => {
            let t = trim_str(s.as_str());
            if chars_of(t.as_str()).len() > 0 {
                Some(t)
            } else {
                None
            }
        },
        None => None,
    }
}

pub fn repo_meta_from(info: &WpOrgInfo) -> (m: RepoMeta)
    ensures
        meta_v(m) == repo_meta_spec(*info),
{
    if info.status != 200 || info.has_error {
        return RepoMeta::default();
    }
    let name = match clean(&info.name) {
        Some(n) => Some(decode_entities(n.as_str())),
        None => None,
    };
    let author = match clean(&info.author) {
        Some(a) => Some(decode_entities(strip_html(a.as_str()).as_str())),
        None => None,
    };
    RepoMeta {
        found: true,
        name,
        version: clean(&info.version),
        author,
        homepage: clean(&info.homepage),
        download_link: clean(&info.download_link),
        downloads: info.downloaded,
        active_installs: info.active_installs,
        last_updated: clean(&info.last_updated),
        requires: clean(&info.requires),
        tested: clean(&info.tested),
        tags: clone_strings(&info.tags),
    }
}

// ─── Where to ask, and the cache ────────────────────────────────────────────

/// Cache key of a component: `type:slug`.
pub open spec fn meta_key_spec(comp_type: Seq<char>, slug: Seq<char>) -> Seq<char> {
    comp_type + ":"@ + slug
}

pub fn meta_key(comp_type: &str, slug: &str) -> (r: String)
    ensures
        r@ == meta_key_spec(comp_type@, slug@),
{
    let mut v = chars_of(comp_type);
    push_str(&mut v, ":");
    push_str(&mut v, slug);
    string_of(v.as_slice())
}

/// The info API request for a component (themes have their own API).
pub open spec fn meta_url_spec(comp_type: Seq<char>, slug: Seq<char>) -> Seq<char> {
    if comp_type == "theme"@ {
        "https://api.wordpress.org/themes/info/1.2/?action=theme_information&request[slug]="@ + slug
    } else {
        "https://api.wordpress.org/plugins/info/1.2/?action=plugin_information&request[slug]="@
            + slug
    }
}

pub fn meta_url(comp_type: &str, slug: &str) -> (r: String)
    ensures
        r@ == meta_url_spec(comp_type@, slug@),
{
    let mut v = if str_eq(comp_type, "theme") {
        chars_of("https://api.wordpress.org/themes/info/1.2/?action=theme_information&request[slug]=")
    } else {
        chars_of(
            "https://api.wordpress.org/plugins/info/1.2/?action=plugin_information&request[slug]=",
        )
    };
    push_str(&mut v, slug);
    string_of(v.as_slice())
}

/// The most recent record stored under `key`.
pub open spec fn latest_entry(es: Seq<(Seq<char>, RepoMetaV)>, key: Seq<char>) -> Option<RepoMetaV>
    decreases es.len(),
{
    if es.len() == 0 {
        None
    } else if es.last().0 == key {
        Some(es.last().1)
    } else {
        latest_entry(es.drop_last(), key)
    }
}

/// Metadata fetched this session, by component (off-repo answers included;
/// failed requests are never stored).
pub struct RepoCache {
    entries: Vec<(String, RepoMeta)>,
}

impl RepoCache {
    pub closed spec fn entries_v(&self) -> Seq<(Seq<char>, RepoMetaV)> {
        self.entries@.map_values(|e: (String, RepoMeta)| (e.0@, meta_v(e.1)))
    }

    /// The record stored for a component, if any.
    pub open spec fn lookup(&self, comp_type: Seq<char>, slug: Seq<char>) -> Option<RepoMetaV> {
        latest_entry(self.entries_v(), meta_key_spec(comp_type, slug))
    }

    pub fn new() -> (c: RepoCache)
        ensures
            forall|t: Seq<char>, s: Seq<char>| c.lookup(t, s) is None,
    {
        let c = RepoCache { entries: Vec::new() };
        assert(c.entries_v() =~= Seq::<(Seq<char>, RepoMetaV)>::empty());
        c
    }

    /// The position of the most recent entry under `key`.
    fn find_latest(&self, key: &str) -> (r: Option<usize>)
        ensures
            match r {
                Some(i) => i < self.entries_v().len() && self.entries_v()[i as int].0 == key@
                    && latest_entry(self.entries_v(), key@) == Some(self.entries_v()[i as int].1),
                None => latest_entry(self.entries_v(), key@) is None,
            },
    {
        let ghost es = self.entries_v();
        let mut i: usize = self.entries.len();
        assert(es.take(i as int) =~= es);
        while i > 0
            invariant
                i <= self.entries@.len(),
                es == self.entries_v(),
                latest_entry(es, key@) == latest_entry(es.take(i as int), key@),
            decreases i,
        {
            let ghost t = es.take(i as int);
            assert(t.drop_last() =~= es.take(i - 1));
            assert(t.last() == es[i - 1]);
            if str_eq(self.entries[i - 1].0.as_str(), key) {
                return Some(i - 1);
            }
            i = i - 1;
        }
        None
    }

    /// The record fetched earlier for this component, without any request.
    pub fn cached_repo_meta(&self, comp_type: &str, slug: &str) -> (r: Option<RepoMeta>)
        ensures
            match r {
                Some(m) => self.lookup(comp_type@, slug@) == Some(meta_v(m)),
                None => self.lookup(comp_type@, slug@) is None,
            },
    {
        let key = meta_key(comp_type, slug);
        match self.find_latest(key.as_str()) {
            Some(i) => Some(clone_meta(&self.entries[i].1)),
            None => None,
        }
    }

    /// Stores the record fetched for a component, replacing the one stored
    /// before for it: the cache grows only by components not seen yet.
    pub fn insert(&mut self, comp_type: &str, slug: &str, meta: RepoMeta)
        ensures
            final(self).lookup(comp_type@, slug@) == Some(meta_v(meta)),
            forall|t: Seq<char>, s: Seq<char>|
                meta_key_spec(t, s) != meta_key_spec(comp_type@, slug@) ==> final(self).lookup(t, s)
                    == old(self).lookup(t, s),
            final(self).entries_v().len() == old(self).entries_v().len() + if old(self).lookup(
                comp_type@,
                slug@,
            ) is Some {
                0int
            } else {
                1int
            },
    {
        let key = meta_key(comp_type, slug);
        let ghost kv = key@;
        let ghost prev = self.entries_v();
        let ghost mv = meta_v(meta);
        let ghost mid = prev;
        match self.find_latest(key.as_str()) {
            Some(i) => {
                let _ = self.entries.remove(i);
                proof {
                    mid = prev.remove(i as int);
                    assert(self.entries_v() =~= mid);
                    assert forall|k2: Seq<char>| k2 != kv implies latest_entry(mid, k2) == latest_entry(prev, k2) by {
                        lemma_latest_entry_remove(prev, i as int, k2);
                    }
                }
            },
            None => {},
        }
        self.entries.push((key, meta));
        assert(self.entries_v() =~= mid.push((kv, mv)));
        assert(self.entries_v().drop_last() =~= mid);
    }
}

impl RepoCache {
    /// Reads a WordPress.org answer for a component into its record and
    /// stores it (an off-repo answer too), replacing any record before.
    pub fn record_answer(&mut self, comp_type: &str, slug: &str, info: &WpOrgInfo) -> (m: RepoMeta)
        ensures
            meta_v(m) == repo_meta_spec(*info),
            final(self).lookup(comp_type@, slug@) == Some(repo_meta_spec(*info)),
            forall|t: Seq<char>, s: Seq<char>|
                meta_key_spec(t, s) != meta_key_spec(comp_type@, slug@) ==> final(self).lookup(t, s)
                    == old(self).lookup(t, s),
    {
        let meta = repo_meta_from(info);
        self.insert(comp_type, slug, clone_meta(&meta));
        meta
    }
}

/// Dropping an entry under another key leaves what a key's lookup finds.
proof fn lemma_latest_entry_remove(es: Seq<(Seq<char>, RepoMetaV)>, i: int, k2: Seq<char>)
    requires
        0 <= i < es.len(),
        es[i].0 != k2,
    ensures
        latest_entry(es.remove(i), k2) == latest_entry(es, k2),
    decreases es.len(),
{
    let r = es.remove(i);
    if i == es.len() - 1 {
        assert(r =~= es.drop_last());
    } else {
        assert(r.last() == es.last());
        assert(r.drop_last() =~= es.drop_last().remove(i));
        lemma_latest_entry_remove(es.drop_last(), i, k2);
    }
}

/// What a read gives back after a write: the record just stored, and for
/// every other component what was there before.
pub proof fn cache_read_after_write(
    before: RepoCache,
    after: RepoCache,
    comp_type: Seq<char>,
    slug: Seq<char>,
    meta: RepoMetaV,
    t: Seq<char>,
    s: Seq<char>,
)
    requires
        after.lookup(comp_type, slug) == Some(meta),
        forall|t2: Seq<char>, s2: Seq<char>|
            meta_key_spec(t2, s2) != meta_key_spec(comp_type, slug) ==> after.lookup(t2, s2)
                == before.lookup(t2, s2),
    ensures
        (t == comp_type && s == slug) ==> after.lookup(t, s) == Some(meta),
        meta_key_spec(t, s) != meta_key_spec(comp_type, slug) ==> after.lookup(t, s) == before.lookup(t, s),
{
}

/// The record of the last fetch stored under `key`, among fetches
/// `(type, slug, record)` in the order they were stored.
pub open spec fn latest_fetch(fetches: Seq<(Seq<char>, Seq<char>, RepoMetaV)>, key: Seq<char>) -> Option<
    RepoMetaV,
>
    decreases fetches.len(),
{
    if fetches.len() == 0 {
        None
    } else if meta_key_spec(fetches.last().0, fetches.last().1) == key {
        Some(fetches.last().2)
    } else {
        latest_fetch(fetches.drop_last(), key)
    }
}

/// The cache answers with the last fetch stored for a component, and with
/// nothing for one never stored: over a run of caches that starts empty and
/// where each next one is the previous after `insert` of the next fetch (as
/// `record_answer` does with each answer it reads).
pub proof fn cache_holds_latest_fetch(
    caches: Seq<RepoCache>,
    fetches: Seq<(Seq<char>, Seq<char>, RepoMetaV)>,
    t: Seq<char>,
    s: Seq<char>,
)
    requires
        caches.len() == fetches.len() + 1,
        forall|t2: Seq<char>, s2: Seq<char>| #[trigger] caches[0].lookup(t2, s2) is None,
        forall|i: int|
            0 <= i < fetches.len() ==> (#[trigger] caches[i + 1]).lookup(fetches[i].0, fetches[i].1)
                == Some(fetches[i].2),
        forall|i: int, t2: Seq<char>, s2: Seq<char>|
            0 <= i < fetches.len() && meta_key_spec(t2, s2) != meta_key_spec(fetches[i].0, fetches[i].1)
                ==> #[trigger] caches[i + 1].lookup(t2, s2) == caches[i].lookup(t2, s2),
    ensures
        caches.last().lookup(t, s) == latest_fetch(fetches, meta_key_spec(t, s)),
    decreases fetches.len(),
{
    let n: int = fetches.len() as int;
    if n == 0 {
        assert(caches[0].lookup(t, s) is None);
    } else {
        let c2 = caches.drop_last();
        let f2 = fetches.drop_last();
        assert forall|t2: Seq<char>, s2: Seq<char>| #[trigger] c2[0].lookup(t2, s2) is None by {
            assert(c2[0] == caches[0]);
            assert(caches[0].lookup(t2, s2) is None);
        }
        assert forall|i: int| 0 <= i < f2.len() implies (#[trigger] c2[i + 1]).lookup(f2[i].0, f2[i].1)
            == Some(f2[i].2) by {
            assert(c2[i + 1] == caches[i + 1] && f2[i] == fetches[i]);
        }
        assert forall|i: int, t2: Seq<char>, s2: Seq<char>|
            0 <= i < f2.len() && meta_key_spec(t2, s2) != meta_key_spec(f2[i].0, f2[i].1)
            implies #[trigger] c2[i + 1].lookup(t2, s2) == c2[i].lookup(t2, s2) by {
            assert(c2[i + 1] == caches[i + 1] && c2[i] == caches[i] && f2[i] == fetches[i]);
        }
        cache_holds_latest_fetch(c2, f2, t, s);
        let f = fetches[n - 1];
        assert(fetches.last() == f);
        assert(caches.last() == caches[n]);
        assert(c2.last() == caches[n - 1]);
        if meta_key_spec(t, s) == meta_key_spec(f.0, f.1) {
            assert(caches[n].lookup(f.0, f.1) == Some(f.2));
        } else {
            assert(caches[n].lookup(t, s) == caches[n - 1].lookup(t, s));
        }
    }
}

// ─── The component-intel request ────────────────────────────────────────────

/// A checked component-intel request.
pub struct IntelRequest {
    pub comp_type: String,
    pub slug: String,
    pub version: Option<String>,
}

/// The request's parameters: the type lowercased must be `plugin` or
/// `theme`; the slug trimmed must be non-empty; a blank version is none.
pub open spec fn intel_request_spec(
    comp_type: Option<Seq<char>>,
    slug: Option<Seq<char>>,
    version: Option<Seq<char>>,
) -> Result<(Seq<char>, Seq<char>, Option<Seq<char>>), Seq<char>> {
    let t = match comp_type {
        Some(c) => str_to_lowercase(c),
        None => str_to_lowercase(seq![]),
    };
    if t != "plugin"@ && t != "theme"@ {
        Err("Missing or invalid 'type' parameter (expected plugin|theme)"@)
    } else {
        match clean_field(slug) {
            None => Err("Missing 'slug' parameter"@),
            Some(s) => Ok((t, s, clean_field(version))),
        }
    }
}

pub fn intel_request(comp_type: Option<&str>, slug: Option<&str>, version: Option<&str>) -> (r:
    Result<IntelRequest, String>)
    ensures
        match r {
            Ok(q) => intel_request_spec(
                match comp_type {
                    Some(c) => Some(c@),
                    None => None,
                },
                match slug {
                    Some(s) => Some(s@),
                    None => None,
                },
                match version {
                    Some(v) => Some(v@),
                    None => None,
                },
            ) == Ok::<(Seq<char>, Seq<char>, Option<Seq<char>>), Seq<char>>(
                (q.comp_type@, q.slug@, ov(q.version)),
            ),
            Err(e) => intel_request_spec(
                match comp_type {
                    Some(c) => Some(c@),
                    None => None,
                },
                match slug {
                    Some(s) => Some(s@),
                    None => None,
                },
                match version {
                    Some(v) => Some(v@),
                    None => None,
                },
            ) == Err::<(Seq<char>, Seq<char>, Option<Seq<char>>), Seq<char>>(e@),
        },
{
    let t = match comp_type {
        Some(c) => lowercase(c),
        None => {
            proof {
                reveal_strlit("");
            }
            let e = lowercase("");
            assert(""@ =~= Seq::<char>::empty());
            e
        },
    };
    if !str_eq(t.as_str(), "plugin") && !str_eq(t.as_str(), "theme") {
        return Err(lit("Missing or invalid 'type' parameter (expected plugin|theme)"));
    }
    let s = match slug {
        Some(s) => clean(&Some(lit(s))),
        None => None,
    };
    match s {
        None => Err(lit("Missing 'slug' parameter")),
        Some(s) => {
            let v = match version {
                Some(v) => clean(&Some(lit(v))),
                None => None,
            };
            Ok(IntelRequest { comp_type: t, slug: s, version: v })
        },
    }
}

/// The component's page on WordPress.org.
pub open spec fn repo_url_spec(comp_type: Seq<char>, slug: Seq<char>) -> Seq<char> {
    if comp_type == "theme"@ {
        "https://wordpress.org/themes/"@ + slug + "/"@
    } else {
        "https://wordpress.org/plugins/"@ + slug + "/"@
    }
}

pub fn repo_url(comp_type: &str, slug: &str) -> (r: String)
    ensures
        r@ == repo_url_spec(comp_type@, slug@),
{
    let mut v = if str_eq(comp_type, "theme") {
        chars_of("https://wordpress.org/themes/")
    } else {
        chars_of("https://wordpress.org/plugins/")
    };
    push_str(&mut v, slug);
    push_str(&mut v, "/");
    string_of(v.as_slice())
}

/// The notes of an intel answer: no version means no vulnerability
/// matching; an off-repo slug has no latest version to compare with.
pub open spec fn intel_notes_spec(slug: Seq<char>, has_version: bool, found: bool) -> Seq<Seq<char>> {
    let a: Seq<Seq<char>> = if has_version {
        seq![]
    } else {
        seq!["Installed version unknown — vulnerability matching skipped."@]
    };
    if found {
        a
    } else {
        a.push(
            slug
                + " is not on wordpress.org (commercial/custom plugin) — latest-version comparison unavailable."@,
        )
    }
}

pub fn intel_notes(slug: &str, has_version: bool, found: bool) -> (r: Vec<String>)
    ensures
        strs_view(r@) == intel_notes_spec(slug@, has_version, found),
{
    let mut out: Vec<String> = Vec::new();
    if !has_version {
        out.push(lit("Installed version unknown — vulnerability matching skipped."));
    }
    if !found {
        let mut v = chars_of(slug);
        push_str(
            &mut v,
            " is not on wordpress.org (commercial/custom plugin) — latest-version comparison unavailable.",
        );
        out.push(string_of(v.as_slice()));
    }
    assert(strs_view(out@) =~= intel_notes_spec(slug@, has_version, found));
    out
}

} // verus!
