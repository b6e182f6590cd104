//! The vulnerability scan around the index: which core, plugins and themes
//! a site runs (from its pages and the files probed, which the caller
//! fetches), the scan's summary and notes, and which index row a detail
//! request shows.

use vstd::prelude::*;

use crate::text::ov;
use crate::common::{safe_prefix, spec_safe_prefix};
use crate::component_intel::{is_ver_char, ver_prefix, ver_prefix_len};
use crate::open_redirect::{status_display, status_text};
use crate::ordering::{sort_by_key, vsort, Keyed};
use crate::text::{
    chars_of, contains, decimal, decimal_chars, eq_ignore_ascii_case, find_chars, first_match,
    has_prefix, lemma_first_match, lit, lower_chars, lowercase, match_at, push_all, push_str,
    seqs_view, slice_chars, starts_with, str_contains, str_eq, str_eq_ignore_ascii_case,
    str_to_lowercase, string_of, strs_view, trim, trim_chars, trim_str,
};
use crate::wordpress_vuln_scan::{IndexedVuln, VulnIndex};
use crate::wp_html::{
    char_index_at_byte, char_index_at_byte_exec, lemma_char_index_at_byte, lines_of, lines_spec,
    stable_tag_spec, extract_stable_tag,
};

verus! {

/// A component found on the site.
pub struct DetectedComponent {
    pub software_type: String,
    pub slug: String,
    pub name: String,
    pub version: Option<String>,
    pub evidence: String,
}

pub struct CompV {
    pub software_type: Seq<char>,
    pub slug: Seq<char>,
    pub name: Seq<char>,
    pub version: Option<Seq<char>>,
    pub evidence: Seq<char>,
}

pub open spec fn comp_v(c: DetectedComponent) -> CompV {
    CompV {
        software_type: c.software_type@,
        slug: c.slug@,
        name: c.name@,
        version: ov(c.version),
        evidence: c.evidence@,
    }
}

pub open spec fn comps_view(v: Seq<DetectedComponent>) -> Seq<CompV> {
    v.map_values(|c: DetectedComponent| comp_v(c))
}

impl Keyed for DetectedComponent {
    open spec fn key_of(&self) -> Seq<char> {
        self.slug@
    }

    fn key(&self) -> (k: &str) {
        self.slug.as_str()
    }
}

fn clone_opt(o: &Option<String>) -> (r: Option<String>)
    ensures
        ov(r) == ov(*o),
{
    match o {
        Some(s) => Some(s.clone()),
        None => None,
    }
}

// ─── Core ───────────────────────────────────────────────────────────────────

/// The version in a `content="WordPress x.y"` generator tag.
pub open spec fn generator_version_spec(body: Seq<char>) -> Option<Seq<char>> {
    match first_match(body, "content=\"WordPress "@, 0) {
        Some(i) => {
            let rest = body.skip(i + 19);
            match first_match(rest, "\""@, 0) {
                Some(e) => Some(rest.take(e)),
                None => None,
            }
        },
        None => None,
    }
}

pub fn generator_version(body: &str) -> (r: Option<String>)
    ensures
        ov(r) == generator_version_spec(body@),
{
    let v = chars_of(body);
    let m = chars_of("content=\"WordPress ");
    proof {
        reveal_strlit("content=\"WordPress ");
        reveal_strlit("\"");
        lemma_first_match(v@, m@, 0);
    }
    match find_chars(v.as_slice(), m.as_slice(), 0) {
        Some(i) => {
            assert(m@.len() == 19);
            assert(match_at(v@, m@, i as int));
            let n = v.len();
            let rest = slice_chars(v.as_slice(), i + 19, n);
            assert(rest@ =~= v@.skip(i + 19));
            let q = chars_of("\"");
            match find_chars(rest.as_slice(), q.as_slice(), 0) {
                Some(e) => {
                    proof {
                        lemma_first_match(rest@, q@, 0);
                    }
                    let out = slice_chars(rest.as_slice(), 0, e);
                    assert(out@ =~= rest@.take(e as int));
                    Some(string_of(out.as_slice()))
                },
                None => None,
            }
        },
        None => None,
    }
}

/// The version after `Version ` in readme.html: the digits and dots among
/// the next 12 chars.
pub open spec fn readme_html_version_spec(body: Seq<char>) -> Option<Seq<char>> {
    match first_match(body, "Version "@, 0) {
        Some(i) => {
            let w = spec_safe_prefix(body.skip(i + 8), 12);
            let d = w.take(ver_prefix_len(w) as int);
            if d.len() > 0 {
                Some(d)
            } else {
                None
            }
        },
        None => None,
    }
}

pub fn readme_html_version(body: &str) -> (r: Option<String>)
    ensures
        ov(r) == readme_html_version_spec(body@),
{
    let v = chars_of(body);
    let m = chars_of("Version ");
    proof {
        reveal_strlit("Version ");
        lemma_first_match(v@, m@, 0);
    }
    match find_chars(v.as_slice(), m.as_slice(), 0) {
        Some(i) => {
            assert(m@.len() == 8);
            assert(match_at(v@, m@, i as int));
            let n = v.len();
            let rest = slice_chars(v.as_slice(), i + 8, n);
            assert(rest@ =~= v@.skip(i + 8));
            let w = chars_of(safe_prefix(string_of(rest.as_slice()).as_str(), 12));
            let d = ver_prefix(w.as_slice());
            if d.len() > 0 {
                Some(string_of(d.as_slice()))
            } else {
                None
            }
        },
        None => None,
    }
}

/// The core component: its version from the generator tag, else the REST
/// root's `version`, else readme.html (each source only when read).
pub open spec fn core_spec(
    home: Option<Seq<char>>,
    wp_json_version: Option<Seq<char>>,
    readme: Option<Seq<char>>,
) -> CompV {
    let g = match home {
        Some(b) => generator_version_spec(b),
        None => None,
    };
    let r = match readme {
        Some(b) => readme_html_version_spec(b),
        None => None,
    };
    let (version, evidence) = if g is Some {
        (g, "generator_meta"@)
    } else if wp_json_version is Some {
        (wp_json_version, "wp_json"@)
    } else if r is Some {
        (r, "readme_html"@)
    } else {
        (None, "not_found"@)
    };
    CompV {
        software_type: "core"@,
        slug: "wordpress"@,
        name: "WordPress Core"@,
        version,
        evidence,
    }
}

pub fn core_component(home: Option<&str>, wp_json_version: Option<&str>, readme: Option<&str>) -> (c:
    DetectedComponent)
    ensures
        comp_v(c) == core_spec(
            match home {
                Some(b) => Some(b@),
                None => None,
            },
            match wp_json_version {
                Some(v) => Some(v@),
                None => None,
            },
            match readme {
                Some(b) => Some(b@),
                None => None,
            },
        ),
{
    let g = match home {
        Some(b) => generator_version(b),
        None => None,
    };
    let (version, evidence) = if g.is_some() {
        (g, lit("generator_meta"))
    } else if wp_json_version.is_some() {
        (
            match wp_json_version {
                Some(v) => Some(lit(v)),
                None => None,
            },
            lit("wp_json"),
        )
    } else {
        let r = match readme {
            Some(b) => readme_html_version(b),
            None => None,
        };
        if r.is_some() {
            (r, lit("readme_html"))
        } else {
            (None, lit("not_found"))
        }
    };
    DetectedComponent {
        software_type: lit("core"),
        slug: lit("wordpress"),
        name: lit("WordPress Core"),
        version,
        evidence,
    }
}

// ─── Plugins ────────────────────────────────────────────────────────────────

/// Number of plugin slugs whose readme.txt is probed.
pub const SCAN_PLUGIN_COUNT: usize = 47;

pub open spec fn scan_plugin_slug(k: int) -> Seq<char> {
    if k == 0 {
        "akismet"@
    } else if k == 1 {
        "contact-form-7"@
    } else if k == 2 {
        "woocommerce"@
    } else if k == 3 {
        "elementor"@
    } else if k == 4 {
        "elementor-pro"@
    } else if k == 5 {
        "wordpress-seo"@
    } else if k == 6 {
        "jetpack"@
    } else if k == 7 {
        "wordfence"@
    } else if k == 8 {
        "all-in-one-wp-migration"@
    } else if k == 9 {
        "really-simple-ssl"@
    } else if k == 10 {
        "wpforms-lite"@
    } else if k == 11 {
        "updraftplus"@
    } else if k == 12 {
        "wp-super-cache"@
    } else if k == 13 {
        "w3-total-cache"@
    } else if k == 14 {
        "litespeed-cache"@
    } else if k == 15 {
        "advanced-custom-fields"@
    } else if k == 16 {
        "seo-by-rank-math"@
    } else if k == 17 {
        "all-in-one-seo-pack"@
    } else if k == 18 {
        "revslider"@
    } else if k == 19 {
        "js_composer"@
    } else if k == 20 {
        "wp-file-manager"@
    } else if k == 21 {
        "duplicator"@
    } else if k == 22 {
        "loginizer"@
    } else if k == 23 {
        "wp-mail-smtp"@
    } else if k == 24 {
        "tablepress"@
    } else if k == 25 {
        "wp-optimize"@
    } else if k == 26 {
        "buddypress"@
    } else if k == 27 {
        "bbpress"@
    } else if k == 28 {
        "wp-rocket"@
    } else if k == 29 {
        "smush"@
    } else if k == 30 {
        "polylang"@
    } else if k == 31 {
        "monsterinsights"@
    } else if k == 32 {
        "code-snippets"@
    } else if k == 33 {
        "classic-editor"@
    } else if k == 34 {
        "google-site-kit"@
    } else if k == 35 {
        "redirection"@
    } else if k == 36 {
        "autoptimize"@
    } else if k == 37 {
        "sucuri-scanner"@
    } else if k == 38 {
        "ithemes-security"@
    } else if k == 39 {
        "limit-login-attempts-reloaded"@
    } else if k == 40 {
        "essential-addons-for-elementor-lite"@
    } else if k == 41 {
        "ninja-forms"@
    } else if k == 42 {
        "formidable"@
    } else if k == 43 {
        "gravityforms"@
    } else if k == 44 {
        "memberpress"@
    } else if k == 45 {
        "learndash"@
    } else {
        "yoast-seo"@
    }
}

pub fn scan_plugin_slug_exec(k: usize) -> (r: &'static str)
    requires
        k < SCAN_PLUGIN_COUNT,
    ensures
        r@ == scan_plugin_slug(k as int),
{
    if k == 0 {
        "akismet"
    } else if k == 1 {
        "contact-form-7"
    } else if k == 2 {
        "woocommerce"
    } else if k == 3 {
        "elementor"
    } else if k == 4 {
        "elementor-pro"
    } else if k == 5 {
        "wordpress-seo"
    } else if k == 6 {
        "jetpack"
    } else if k == 7 {
        "wordfence"
    } else if k == 8 {
        "all-in-one-wp-migration"
    } else if k == 9 {
        "really-simple-ssl"
    } else if k == 10 {
        "wpforms-lite"
    } else if k == 11 {
        "updraftplus"
    } else if k == 12 {
        "wp-super-cache"
    } else if k == 13 {
        "w3-total-cache"
    } else if k == 14 {
        "litespeed-cache"
    } else if k == 15 {
        "advanced-custom-fields"
    } else if k == 16 {
        "seo-by-rank-math"
    } else if k == 17 {
        "all-in-one-seo-pack"
    } else if k == 18 {
        "revslider"
    } else if k == 19 {
        "js_composer"
    } else if k == 20 {
        "wp-file-manager"
    } else if k == 21 {
        "duplicator"
    } else if k == 22 {
        "loginizer"
    } else if k == 23 {
        "wp-mail-smtp"
    } else if k == 24 {
        "tablepress"
    } else if k == 25 {
        "wp-optimize"
    } else if k == 26 {
        "buddypress"
    } else if k == 27 {
        "bbpress"
    } else if k == 28 {
        "wp-rocket"
    } else if k == 29 {
        "smush"
    } else if k == 30 {
        "polylang"
    } else if k == 31 {
        "monsterinsights"
    } else if k == 32 {
        "code-snippets"
    } else if k == 33 {
        "classic-editor"
    } else if k == 34 {
        "google-site-kit"
    } else if k == 35 {
        "redirection"
    } else if k == 36 {
        "autoptimize"
    } else if k == 37 {
        "sucuri-scanner"
    } else if k == 38 {
        "ithemes-security"
    } else if k == 39 {
        "limit-login-attempts-reloaded"
    } else if k == 40 {
        "essential-addons-for-elementor-lite"
    } else if k == 41 {
        "ninja-forms"
    } else if k == 42 {
        "formidable"
    } else if k == 43 {
        "gravityforms"
    } else if k == 44 {
        "memberpress"
    } else if k == 45 {
        "learndash"
    } else {
        "yoast-seo"
    }
}

/// A readme.txt that really is one: it has a stable tag or a contributors
/// line.
pub open spec fn readme_hit_spec(body: Seq<char>) -> bool {
    contains(str_to_lowercase(body), "stable tag"@) || contains(body, "Contributors:"@)
}

/// The position of the component with this slug.
pub open spec fn slug_index(cs: Seq<CompV>, slug: Seq<char>) -> Option<int>
    decreases cs.len(),
{
    if cs.len() == 0 {
        None
    } else if cs.last().slug == slug {
        Some(cs.len() - 1)
    } else {
        slug_index(cs.drop_last(), slug)
    }
}

pub proof fn lemma_slug_index(cs: Seq<CompV>, slug: Seq<char>)
    ensures
        match slug_index(cs, slug) {
            Some(i) => 0 <= i < cs.len() && cs[i].slug == slug,
            None => forall|i: int| 0 <= i < cs.len() ==> (#[trigger] cs[i]).slug != slug,
        },
    decreases cs.len(),
{
    if cs.len() > 0 && cs.last().slug != slug {
        lemma_slug_index(cs.drop_last(), slug);
        if slug_index(cs.drop_last(), slug) is None {
            assert forall|i: int| 0 <= i < cs.len() implies (#[trigger] cs[i]).slug != slug by {
                if i < cs.len() - 1 {
                    assert(cs[i] == cs.drop_last()[i]);
                }
            }
        }
    }
}

/// The component replaces the one with its slug, or is added.
pub open spec fn upsert(cs: Seq<CompV>, c: CompV) -> Seq<CompV> {
    match slug_index(cs, c.slug) {
        Some(i) => cs.update(i, c),
        None => cs.push(c),
    }
}

/// A component seen only in the page's HTML.
pub open spec fn html_comp(software_type: Seq<char>, slug: Seq<char>) -> CompV {
    CompV { software_type, slug, name: slug, version: None, evidence: "html_reference"@ }
}

pub open spec fn html_comps(software_type: Seq<char>, slugs: Seq<Seq<char>>) -> Seq<CompV>
    decreases slugs.len(),
{
    if slugs.len() == 0 {
        seq![]
    } else {
        upsert(html_comps(software_type, slugs.drop_last()), html_comp(software_type, slugs.last()))
    }
}

/// After the readme probes: each probed readme that is one replaces (or
/// adds) its plugin, with the stable tag as version.
pub open spec fn probed_plugins(base: Seq<CompV>, readmes: Seq<Option<Seq<char>>>) -> Seq<CompV>
    decreases readmes.len(),
{
    if readmes.len() == 0 {
        base
    } else {
        let p = probed_plugins(base, readmes.drop_last());
        let k = readmes.len() - 1;
        match readmes.last() {
            Some(b) => if readme_hit_spec(b) {
                upsert(
                    p,
                    CompV {
                        software_type: "plugin"@,
                        slug: scan_plugin_slug(k),
                        name: scan_plugin_slug(k),
                        version: stable_tag_spec(b),
                        evidence: "readme.txt"@,
                    },
                )
            } else {
                p
            },
            None => p,
        }
    }
}

fn find_slug(cs: &Vec<DetectedComponent>, slug: &str) -> (r: Option<usize>)
    ensures
        match r {
            Some(i) => slug_index(comps_view(cs@), slug@) == Some(i as int),
            None => slug_index(comps_view(cs@), slug@) is None,
        },
{
    let ghost cv = comps_view(cs@);
    let mut i: usize = cs.len();
    assert(cv.take(i as int) =~= cv);
    while i > 0
        invariant
            i <= cs@.len(),
            cv == comps_view(cs@),
            slug_index(cv, slug@) == slug_index(cv.take(i as int), slug@),
        decreases i,
    {
        assert(cv.take(i as int).drop_last() =~= cv.take(i - 1));
        assert(cv.take(i as int).last() == comp_v(cs@[i - 1]));
        if str_eq(cs[i - 1].slug.as_str(), slug) {
            return Some(i - 1);
        }
        i = i - 1;
    }
    None
}

fn upsert_exec(cs: &mut Vec<DetectedComponent>, c: DetectedComponent)
    ensures
        comps_view(final(cs)@) == upsert(comps_view(old(cs)@), comp_v(c)),
{
    let ghost prev = comps_view(cs@);
    let ghost cvv = comp_v(c);
    proof {
        lemma_slug_index(prev, cvv.slug);
    }
    match find_slug(cs, c.slug.as_str()) {
        Some(i) => {
            cs.set(i, c);
            assert(comps_view(cs@) =~= prev.update(i as int, cvv));
        },
        None => {
            cs.push(c);
            assert(comps_view(cs@) =~= prev.push(cvv));
        },
    }
}

fn html_components(software_type: &str, slugs: &Vec<String>) -> (r: Vec<DetectedComponent>)
    ensures
        comps_view(r@) == html_comps(software_type@, strs_view(slugs@)),
{
    let ghost sv = strs_view(slugs@);
    let mut out: Vec<DetectedComponent> = Vec::new();
    let mut i: usize = 0;
    assert(comps_view(out@) =~= html_comps(software_type@, sv.take(0)));
    while i < slugs.len()
        invariant
            i <= slugs@.len(),
            sv == strs_view(slugs@),
            comps_view(out@) == html_comps(software_type@, sv.take(i as int)),
        decreases slugs@.len() - i,
    {
        assert(sv.take(i + 1).drop_last() =~= sv.take(i as int));
        assert(sv.take(i + 1).last() == slugs@[i as int]@);
        let c = DetectedComponent {
            software_type: lit(software_type),
            slug: slugs[i].clone(),
            name: slugs[i].clone(),
            version: None,
            evidence: lit("html_reference"),
        };
        upsert_exec(&mut out, c);
        i = i + 1;
    }
    assert(sv.take(slugs@.len() as int) =~= sv);
    out
}

/// The plugins found before versions are filled in: the slugs referenced
/// in the page, then the readme.txt probes of the curated slugs (one body
/// per slug, `None` where the probe failed), in slug order.
pub fn plugins_probed(html_slugs: &Vec<String>, readmes: &Vec<Option<String>>) -> (r: Vec<
    DetectedComponent,
>)
    requires
        readmes@.len() == SCAN_PLUGIN_COUNT,
    ensures
        comps_view(r@) == probed_plugins(
            html_comps("plugin"@, strs_view(html_slugs@)),
            readmes@.map_values(|o: Option<String>| ov(o)),
        ),
{
    let mut out = html_components("plugin", html_slugs);
    let ghost base = comps_view(out@);
    let ghost rv = readmes@.map_values(|o: Option<String>| ov(o));
    let mut k: usize = 0;
    while k < SCAN_PLUGIN_COUNT
        invariant
            k <= SCAN_PLUGIN_COUNT,
            readmes@.len() == SCAN_PLUGIN_COUNT,
            rv == readmes@.map_values(|o: Option<String>| ov(o)),
            comps_view(out@) == probed_plugins(base, rv.take(k as int)),
        decreases SCAN_PLUGIN_COUNT - k,
    {
        assert(rv.take(k + 1).drop_last() =~= rv.take(k as int));
        assert(rv.take(k + 1).last() == ov(readmes@[k as int]));
        match &readmes[k] {
            Some(b) => {
                let hit = str_contains(lowercase(b.as_str()).as_str(), "stable tag") || str_contains(
                    b.as_str(),
                    "Contributors:",
                );
                if hit {
                    let slug = scan_plugin_slug_exec(k);
                    let c = DetectedComponent {
                        software_type: lit("plugin"),
                        slug: lit(slug),
                        name: lit(slug),
                        version: extract_stable_tag(b.as_str()),
                        evidence: lit("readme.txt"),
                    };
                    upsert_exec(&mut out, c);
                }
            },
            None => {},
        }
        k = k + 1;
    }
    assert(rv.take(SCAN_PLUGIN_COUNT as int) =~= rv);
    out
}

/// The slugs still without a version, in order.
pub open spec fn versionless(cs: Seq<CompV>) -> Seq<Seq<char>>
    decreases cs.len(),
{
    if cs.len() == 0 {
        seq![]
    } else {
        let p = versionless(cs.drop_last());
        if cs.last().version is None {
            p.push(cs.last().slug)
        } else {
            p
        }
    }
}

pub fn need_version(cs: &Vec<DetectedComponent>) -> (r: Vec<String>)
    ensures
        strs_view(r@) == versionless(comps_view(cs@)),
{
    let ghost cv = comps_view(cs@);
    let mut out: Vec<String> = Vec::new();
    let mut i: usize = 0;
    while i < cs.len()
        invariant
            i <= cs@.len(),
            cv == comps_view(cs@),
            strs_view(out@) == versionless(cv.take(i as int)),
        decreases cs@.len() - i,
    {
        assert(cv.take(i + 1).drop_last() =~= cv.take(i as int));
        assert(cv.take(i + 1).last() == comp_v(cs@[i as int]));
        if cs[i].version.is_none() {
            let ghost prev = strs_view(out@);
            out.push(cs[i].slug.clone());
            assert(strs_view(out@) =~= prev.push(cs@[i as int].slug@));
        }
        i = i + 1;
    }
    assert(cv.take(cs@.len() as int) =~= cv);
    out
}

/// Second readme.txt probes: a stable tag found fills the version.
pub open spec fn filled(cs: Seq<CompV>, fills: Seq<(Seq<char>, Option<Seq<char>>)>) -> Seq<CompV>
    decreases fills.len(),
{
    if fills.len() == 0 {
        cs
    } else {
        let p = filled(cs, fills.drop_last());
        let (slug, body) = fills.last();
        match body {
            Some(b) => match stable_tag_spec(b) {
                Some(v) => match slug_index(p, slug) {
                    Some(i) => p.update(
                        i,
                        CompV { version: Some(v), evidence: "readme.txt"@, ..p[i] },
                    ),
                    None => p,
                },
                None => p,
            },
            None => p,
        }
    }
}

pub open spec fn fills_view(f: Seq<(String, Option<String>)>) -> Seq<(Seq<char>, Option<Seq<char>>)> {
    f.map_values(|e: (String, Option<String>)| (e.0@, ov(e.1)))
}

/// The plugins found, sorted by slug, once the versionless ones had their
/// readme.txt fetched again (`fills`: slug and body, `None` where it failed).
pub fn plugins_final(cs: Vec<DetectedComponent>, fills: &Vec<(String, Option<String>)>) -> (r: Vec<
    DetectedComponent,
>)
    ensures
        comps_view(r@) == vsort(
            filled(comps_view(cs@), fills_view(fills@)),
            |c: CompV| c.slug,
        ),
{
    let mut out = cs;
    let ghost base = comps_view(out@);
    let ghost fv = fills_view(fills@);
    let mut k: usize = 0;
    while k < fills.len()
        invariant
            k <= fills@.len(),
            fv == fills_view(fills@),
            comps_view(out@) == filled(base, fv.take(k as int)),
        decreases fills@.len() - k,
    {
        assert(fv.take(k + 1).drop_last() =~= fv.take(k as int));
        assert(fv.take(k + 1).last() == (fills@[k as int].0@, ov(fills@[k as int].1)));
        let (slug, body) = &fills[k];
        match body {
            Some(b) => match extract_stable_tag(b.as_str()) {
                Some(v) => match find_slug(&out, slug.as_str()) {
                    Some(i) => {
                        let ghost prev = comps_view(out@);
                        proof {
                            lemma_slug_index(prev, slug@);
                        }
                        let c = DetectedComponent {
                            software_type: out[i].software_type.clone(),
                            slug: out[i].slug.clone(),
                            name: out[i].name.clone(),
                            version: Some(v),
                            evidence: lit("readme.txt"),
                        };
                        let ghost cvv = comp_v(c);
                        out.set(i, c);
                        assert(comps_view(out@) =~= prev.update(
                            i as int,
                            CompV { version: cvv.version, evidence: "readme.txt"@, ..prev[i as int] },
                        ));
                    },
                    None => {},
                },
                None => {},
            },
            None => {},
        }
        k = k + 1;
    }
    assert(fv.take(fills@.len() as int) =~= fv);
    let ghost unsorted = out@;
    let sorted = sort_by_key(out);
    proof {
        crate::ordering::lemma_sort_view(
            unsorted,
            |c: DetectedComponent| comp_v(c),
            |c: CompV| c.slug,
        );
        assert(comps_view(unsorted) == unsorted.map_values(|c: DetectedComponent| comp_v(c)));
        assert(comps_view(sorted@) == sorted@.map_values(|c: DetectedComponent| comp_v(c)));
    }
    sorted
}

// ─── Themes ─────────────────────────────────────────────────────────────────

/// The value of the last `prefix` line (matched lower-cased, trimmed) among
/// `lines`; `None` where a matching line would be sliced inside a char.
pub open spec fn last_field(lines: Seq<Seq<char>>, prefix: Seq<char>) -> Option<Option<Seq<char>>>
    decreases lines.len(),
{
    if lines.len() == 0 {
        Some(None)
    } else {
        let prev = last_field(lines.drop_last(), prefix);
        let t = trim(lines.last());
        if starts_with(str_to_lowercase(t), prefix) {
            match (prev, char_index_at_byte(t, prefix.len() as int)) {
                (Some(_), Some(k)) => Some(Some(trim(t.skip(k)))),
                _ => None,
            }
        } else {
            prev
        }
    }
}

/// Version and theme name from the first 40 lines of a style.css (the last
/// line of each kind wins); `None` where a line would be sliced inside a
/// char.
pub open spec fn style_fields_spec(css: Seq<char>) -> Option<(Option<Seq<char>>, Option<Seq<char>>)> {
    let ls = lines_spec(css);
    let first = if ls.len() > 40 {
        ls.take(40)
    } else {
        ls
    };
    match (last_field(first, "version:"@), last_field(first, "theme name:"@)) {
        (Some(v), Some(n)) => Some((v, n)),
        _ => None,
    }
}

/// Once a line would be sliced inside a char, later lines do not matter.
proof fn lemma_last_field_stuck(all: Seq<Seq<char>>, prefix: Seq<char>, i: int, j: int)
    requires
        0 <= i <= j <= all.len(),
        last_field(all.take(i), prefix) is None,
    ensures
        last_field(all.take(j), prefix) is None,
    decreases j - i,
{
    if j > i {
        lemma_last_field_stuck(all, prefix, i, j - 1);
        assert(all.take(j).drop_last() =~= all.take(j - 1));
    }
}

fn last_field_exec(lines: &Vec<Vec<char>>, limit: usize, prefix: &str) -> (r: Option<Option<String>>)
    requires
        limit <= lines@.len(),
        prefix@.len() < 20,
        crate::text::all_ascii(prefix@),
    ensures
        match r {
            Some(Some(v)) => last_field(seqs_view(lines@).take(limit as int), prefix@) == Some(
                Some(v@),
            ),
            Some(None) => last_field(seqs_view(lines@).take(limit as int), prefix@) == Some(
                None::<Seq<char>>,
            ),
            None => last_field(seqs_view(lines@).take(limit as int), prefix@) is None,
        },
{
    let ghost all = seqs_view(lines@);
    let p = chars_of(prefix);
    let plen = p.len();
    let mut found: Option<String> = None;
    let mut i: usize = 0;
    while i < limit
        invariant
            i <= limit,
            limit <= lines@.len(),
            all == seqs_view(lines@),
            p@ == prefix@,
            plen == prefix@.len(),
            last_field(all.take(i as int), prefix@) == Some(ov(found)),
        decreases limit - i,
    {
        assert(all.take(i + 1).drop_last() =~= all.take(i as int));
        assert(all.take(i + 1).last() == lines@[i as int]@);
        let t = trim_chars(lines[i].as_slice());
        let tl = chars_of(lowercase(string_of(t.as_slice()).as_str()).as_str());
        if has_prefix(tl.as_slice(), p.as_slice()) {
            match char_index_at_byte_exec(t.as_slice(), plen) {
                None => {
                    proof {
                        assert(last_field(all.take(i + 1), prefix@) is None);
                        lemma_last_field_stuck(all, prefix@, i + 1, limit as int);
                    }
                    return None;
                },
                Some(k) => {
                    proof {
                        lemma_char_index_at_byte(t@, plen as int);
                    }
                    let n = t.len();
                    let rest = slice_chars(t.as_slice(), k, n);
                    assert(rest@ =~= t@.skip(k as int));
                    found = Some(string_of(trim_chars(rest.as_slice()).as_slice()));
                },
            }
        }
        i = i + 1;
    }
    Some(found)
}

/// Reads version and theme name from a style.css.
pub fn style_fields(css: &str) -> (r: Option<(Option<String>, Option<String>)>)
    ensures
        match r {
            Some((v, n)) => style_fields_spec(css@) == Some((ov(v), ov(n))),
            None => style_fields_spec(css@) is None,
        },
{
    let lines = lines_of(css);
    let limit: usize = if lines.len() > 40 {
        40
    } else {
        lines.len()
    };
    proof {
        reveal_strlit("version:");
        reveal_strlit("theme name:");
    }
    let ghost all = seqs_view(lines@);
    assert(all.take(limit as int) =~= (if all.len() > 40 {
        all.take(40)
    } else {
        all
    }));
    let v = last_field_exec(&lines, limit, "version:");
    let n = last_field_exec(&lines, limit, "theme name:");
    match (v, n) {
        (Some(v), Some(n)) => Some((v, n)),
        _ => None,
    }
}

/// A theme after its style.css was read: the version (with its evidence)
/// and the name, where given.
pub open spec fn styled(c: CompV, fields: (Option<Seq<char>>, Option<Seq<char>>)) -> CompV {
    let (v, n) = fields;
    let c1 = if v is Some {
        CompV { version: v, evidence: "style.css"@, ..c }
    } else {
        c
    };
    match n {
        Some(name) => CompV { name, ..c1 },
        None => c1,
    }
}

pub open spec fn styled_all(cs: Seq<CompV>, styles: Seq<(Seq<char>, Option<Seq<char>>)>) -> Seq<CompV>
    decreases styles.len(),
{
    if styles.len() == 0 {
        cs
    } else {
        let p = styled_all(cs, styles.drop_last());
        let (slug, body) = styles.last();
        match body {
            Some(b) => match (style_fields_spec(b), slug_index(p, slug)) {
                (Some(f), Some(i)) => p.update(i, styled(p[i], f)),
                _ => p,
            },
            None => p,
        }
    }
}

/// Every style.css read can be parsed.
pub open spec fn styles_readable(styles: Seq<(Seq<char>, Option<Seq<char>>)>) -> bool {
    forall|k: int|
        0 <= k < styles.len() ==> match (#[trigger] styles[k]).1 {
            Some(b) => style_fields_spec(b) is Some,
            None => true,
        }
}

/// The themes found: those the page references, with what each one's
/// style.css (`styles`: slug and body, `None` where the fetch failed)
/// gives, sorted by slug.
pub fn themes_found(html_slugs: &Vec<String>, styles: &Vec<(String, Option<String>)>) -> (r: Vec<
    DetectedComponent,
>)
    requires
        styles_readable(fills_view(styles@)),
    ensures
        comps_view(r@) == vsort(
            styled_all(html_comps("theme"@, strs_view(html_slugs@)), fills_view(styles@)),
            |c: CompV| c.slug,
        ),
{
    let mut out = html_components("theme", html_slugs);
    let ghost base = comps_view(out@);
    let ghost sv = fills_view(styles@);
    let mut k: usize = 0;
    while k < styles.len()
        invariant
            k <= styles@.len(),
            sv == fills_view(styles@),
            styles_readable(sv),
            comps_view(out@) == styled_all(base, sv.take(k as int)),
        decreases styles@.len() - k,
    {
        assert(sv.take(k + 1).drop_last() =~= sv.take(k as int));
        assert(sv.take(k + 1).last() == sv[k as int]);
        let (slug, body) = &styles[k];
        match body {
            Some(b) => {
                assert(sv[k as int].1 == Some(b@));
                match style_fields(b.as_str()) {
                    Some((v, n)) => match find_slug(&out, slug.as_str()) {
                        Some(i) => {
                            let ghost prev = comps_view(out@);
                            proof {
                                lemma_slug_index(prev, slug@);
                            }
                            let has_v = v.is_some();
                            let version = if has_v {
                                v
                            } else {
                                clone_opt(&out[i].version)
                            };
                            let evidence = if has_v {
                                lit("style.css")
                            } else {
                                out[i].evidence.clone()
                            };
                            let name = match n {
                                Some(n) => n,
                                None => out[i].name.clone(),
                            };
                            let c = DetectedComponent {
                                software_type: out[i].software_type.clone(),
                                slug: out[i].slug.clone(),
                                name,
                                version,
                                evidence,
                            };
                            let ghost cvv = comp_v(c);
                            out.set(i, c);
                            assert(cvv == styled(prev[i as int], style_fields_spec(b@)->Some_0));
                            assert(comps_view(out@) =~= prev.update(i as int, cvv));
                        },
                        None => {},
                    },
                    None => {},
                }
            },
            None => {},
        }
        k = k + 1;
    }
    assert(sv.take(styles@.len() as int) =~= sv);
    let ghost unsorted = out@;
    let sorted = sort_by_key(out);
    proof {
        crate::ordering::lemma_sort_view(
            unsorted,
            |c: DetectedComponent| comp_v(c),
            |c: CompV| c.slug,
        );
        assert(comps_view(unsorted) == unsorted.map_values(|c: DetectedComponent| comp_v(c)));
        assert(comps_view(sorted@) == sorted@.map_values(|c: DetectedComponent| comp_v(c)));
    }
    sorted
}

// ─── Summary and notes ──────────────────────────────────────────────────────

pub struct ScanSummary {
    pub components_scanned: usize,
    pub components_with_version: usize,
    pub total_findings: usize,
    pub critical: usize,
    pub high: usize,
    pub medium: usize,
    pub low: usize,
    pub none: usize,
}

/// The severity bucket a textual CVSS rating names (`None` when it names
/// none; the score decides then).
pub open spec fn rating_text_bucket(r: Seq<char>) -> Option<Seq<char>> {
    let l = str_to_lowercase(r);
    if contains(l, "critical"@) {
        Some("critical"@)
    } else if contains(l, "high"@) {
        Some("high"@)
    } else if contains(l, "medium"@) {
        Some("medium"@)
    } else if contains(l, "low"@) {
        Some("low"@)
    } else {
        None
    }
}

pub fn rating_bucket_text(r: &str) -> (b: Option<&'static str>)
    ensures
        match b {
            Some(x) => rating_text_bucket(r@) == Some(x@),
            None => rating_text_bucket(r@) is None,
        },
{
    let l = lowercase(r);
    if str_contains(l.as_str(), "critical") {
        Some("critical")
    } else if str_contains(l.as_str(), "high") {
        Some("high")
    } else if str_contains(l.as_str(), "medium") {
        Some("medium")
    } else if str_contains(l.as_str(), "low") {
        Some("low")
    } else {
        None
    }
}

pub open spec fn count_eq(bs: Seq<Seq<char>>, b: Seq<char>) -> nat
    decreases bs.len(),
{
    if bs.len() == 0 {
        0
    } else {
        count_eq(bs.drop_last(), b) + if bs.last() == b {
            1nat
        } else {
            0nat
        }
    }
}

pub open spec fn is_named_bucket(b: Seq<char>) -> bool {
    b == "critical"@ || b == "high"@ || b == "medium"@ || b == "low"@
}

pub open spec fn count_other(bs: Seq<Seq<char>>) -> nat
    decreases bs.len(),
{
    if bs.len() == 0 {
        0
    } else {
        count_other(bs.drop_last()) + if is_named_bucket(bs.last()) {
            0nat
        } else {
            1nat
        }
    }
}

pub open spec fn count_versioned(cs: Seq<CompV>) -> nat
    decreases cs.len(),
{
    if cs.len() == 0 {
        0
    } else {
        count_versioned(cs.drop_last()) + if cs.last().version is Some {
            1nat
        } else {
            0nat
        }
    }
}

/// The summary of a scan: components scanned and with a version, findings
/// in all and per severity bucket (`buckets`, one per finding).
pub fn scan_summary(components: &Vec<DetectedComponent>, buckets: &Vec<String>) -> (r: ScanSummary)
    ensures
        r.components_scanned == components@.len(),
        r.components_with_version == count_versioned(comps_view(components@)),
        r.total_findings == buckets@.len(),
        r.critical == count_eq(strs_view(buckets@), "critical"@),
        r.high == count_eq(strs_view(buckets@), "high"@),
        r.medium == count_eq(strs_view(buckets@), "medium"@),
        r.low == count_eq(strs_view(buckets@), "low"@),
        r.none == count_other(strs_view(buckets@)),
{
    let ghost cv = comps_view(components@);
    let mut with_version: usize = 0;
    let mut i: usize = 0;
    while i < components.len()
        invariant
            i <= components@.len(),
            cv == comps_view(components@),
            with_version == count_versioned(cv.take(i as int)),
            with_version <= i,
        decreases components@.len() - i,
    {
        assert(cv.take(i + 1).drop_last() =~= cv.take(i as int));
        assert(cv.take(i + 1).last() == comp_v(components@[i as int]));
        if components[i].version.is_some() {
            with_version = with_version + 1;
        }
        i = i + 1;
    }
    assert(cv.take(components@.len() as int) =~= cv);
    let ghost bv = strs_view(buckets@);
    let mut c: usize = 0;
    let mut h: usize = 0;
    let mut m: usize = 0;
    let mut l: usize = 0;
    let mut o: usize = 0;
    let mut j: usize = 0;
    while j < buckets.len()
        invariant
            j <= buckets@.len(),
            bv == strs_view(buckets@),
            c == count_eq(bv.take(j as int), "critical"@),
            h == count_eq(bv.take(j as int), "high"@),
            m == count_eq(bv.take(j as int), "medium"@),
            l == count_eq(bv.take(j as int), "low"@),
            o == count_other(bv.take(j as int)),
            c + h + m + l + o == j,
        decreases buckets@.len() - j,
    {
        assert(bv.take(j + 1).drop_last() =~= bv.take(j as int));
        assert(bv.take(j + 1).last() == buckets@[j as int]@);
        proof {
            reveal_strlit("critical");
            reveal_strlit("high");
            reveal_strlit("medium");
            reveal_strlit("low");
        }
        let b = buckets[j].as_str();
        if str_eq(b, "critical") {
            c = c + 1;
        } else if str_eq(b, "high") {
            h = h + 1;
        } else if str_eq(b, "medium") {
            m = m + 1;
        } else if str_eq(b, "low") {
            l = l + 1;
        } else {
            o = o + 1;
        }
        j = j + 1;
    }
    assert(bv.take(buckets@.len() as int) =~= bv);
    ScanSummary {
        components_scanned: components.len(),
        components_with_version: with_version,
        total_findings: buckets.len(),
        critical: c,
        high: h,
        medium: m,
        low: l,
        none: o,
    }
}

/// The summary of a scan that could not run.
pub fn empty_summary() -> (r: ScanSummary)
    ensures
        r.components_scanned == 0 && r.components_with_version == 0 && r.total_findings == 0
            && r.critical == 0 && r.high == 0 && r.medium == 0 && r.low == 0 && r.none == 0,
{
    ScanSummary {
        components_scanned: 0,
        components_with_version: 0,
        total_findings: 0,
        critical: 0,
        high: 0,
        medium: 0,
        low: 0,
        none: 0,
    }
}

/// A core component whose version was not found.
pub open spec fn core_unversioned(cs: Seq<CompV>) -> bool {
    exists|i: int|
        0 <= i < cs.len() && (#[trigger] cs[i]).software_type == "core"@ && cs[i].version is None
}

/// The notes of a scan: the three detection steps, the database matched
/// against, and a warning when the core version is unknown.
pub open spec fn scan_notes_spec(count: usize, updated_at: Seq<char>, cs: Seq<CompV>) -> Seq<Seq<char>> {
    let base = seq![
        "Detecting WordPress core version…"@,
        "Enumerating plugins…"@,
        "Enumerating themes…"@,
        "Matched against Wordfence DB ("@ + decimal(count as nat) + " vulns, updated "@ + updated_at
            + ")"@,
    ];
    if core_unversioned(cs) {
        base.push("Core version not detected — core CVEs may be incomplete."@)
    } else {
        base
    }
}

pub fn scan_notes(count: usize, updated_at: &str, components: &Vec<DetectedComponent>) -> (r: Vec<
    String,
>)
    ensures
        strs_view(r@) == scan_notes_spec(count, updated_at@, comps_view(components@)),
{
    let mut out: Vec<String> = Vec::new();
    out.push(lit("Detecting WordPress core version…"));
    out.push(lit("Enumerating plugins…"));
    out.push(lit("Enumerating themes…"));
    let mut m = chars_of("Matched against Wordfence DB (");
    push_all(&mut m, decimal_chars(count as u64).as_slice());
    push_str(&mut m, " vulns, updated ");
    push_str(&mut m, updated_at);
    push_str(&mut m, ")");
    out.push(string_of(m.as_slice()));
    let ghost cv = comps_view(components@);
    let mut found = false;
    let mut i: usize = 0;
    while i < components.len()
        invariant
            i <= components@.len(),
            cv == comps_view(components@),
            found ==> core_unversioned(cv),
            !found ==> forall|j: int|
                0 <= j < i ==> !((#[trigger] cv[j]).software_type == "core"@ && cv[j].version is None),
        decreases components@.len() - i,
    {
        if str_eq(components[i].software_type.as_str(), "core") && components[i].version.is_none() {
            assert(cv[i as int].software_type == "core"@);
            found = true;
        }
        i = i + 1;
    }
    if found {
        out.push(lit("Core version not detected — core CVEs may be incomplete."));
    }
    assert(strs_view(out@) =~= scan_notes_spec(count, updated_at@, cv));
    out
}

// ─── The vulnerability database ─────────────────────────────────────────────

/// The Wordfence feed the database is downloaded from.
pub open spec fn feed_url() -> Seq<char> {
    "https://www.wordfence.com/api/intelligence/v3/vulnerabilities"@
}

pub fn feed_url_exec() -> (r: &'static str)
    ensures
        r@ == feed_url(),
{
    "https://www.wordfence.com/api/intelligence/v3/vulnerabilities"
}

pub struct DbStatusResponse {
    pub present: bool,
    pub updated_at: Option<String>,
    pub count: Option<usize>,
    pub bytes: Option<u64>,
    pub indexed: bool,
    pub api_key_configured: bool,
    pub feed_path: String,
    pub source: String,
}

pub struct DbRefreshResponse {
    pub ok: bool,
    pub updated_at: String,
    pub count: usize,
    pub bytes: u64,
    pub duration_ms: u64,
    pub error: Option<String>,
}

/// The database status a scan reports: what the loaded index says, or, when
/// none could be loaded, that there is none.
pub fn scan_db_status(index: Option<&VulnIndex>, api_key_configured: bool, feed_path: &str) -> (r:
    DbStatusResponse)
    ensures
        r.api_key_configured == api_key_configured,
        r.feed_path@ == feed_path@,
        r.source@ == feed_url(),
        match index {
            Some(i) => r.present && r.indexed && ov(r.updated_at) == Some(i.spec_updated_at())
                && r.count == Some(i.spec_count()) && r.bytes == Some(i.spec_bytes()),
            None => !r.present && !r.indexed && r.updated_at is None && r.count is None
                && r.bytes is None,
        },
{
    match index {
        Some(i) => DbStatusResponse {
            present: true,
            updated_at: Some(i.updated_at().clone()),
            count: Some(i.count()),
            bytes: Some(i.bytes()),
            indexed: true,
            api_key_configured,
            feed_path: lit(feed_path),
            source: lit(feed_url_exec()),
        },
        None => DbStatusResponse {
            present: false,
            updated_at: None,
            count: None,
            bytes: None,
            indexed: false,
            api_key_configured,
            feed_path: lit(feed_path),
            source: lit(feed_url_exec()),
        },
    }
}

/// The error of a refused feed download: the status and at most 300
/// chars of the answer.
pub open spec fn refresh_http_error_spec(status: u16, body: Seq<char>) -> Seq<char> {
    "Wordfence API HTTP "@ + status_display(status) + ": "@ + spec_safe_prefix(body, 300)
}

pub fn refresh_http_error(status: u16, body: &str) -> (r: String)
    ensures
        r@ == refresh_http_error_spec(status, body@),
{
    let mut m = chars_of("Wordfence API HTTP ");
    push_str(&mut m, status_text(status).as_str());
    push_str(&mut m, ": ");
    push_str(&mut m, safe_prefix(body, 300));
    string_of(m.as_slice())
}

// ─── Detail requests ────────────────────────────────────────────────────────

/// The `id` of a detail request, trimmed; blank or missing is refused.
pub open spec fn detail_id_spec(id: Option<Seq<char>>) -> Result<Seq<char>, Seq<char>> {
    match id {
        Some(i) => if trim(i).len() > 0 {
            Ok(trim(i))
        } else {
            Err("Missing 'id' parameter"@)
        },
        None => Err("Missing 'id' parameter"@),
    }
}

pub fn detail_id(id: Option<&str>) -> (r: Result<String, String>)
    ensures
        crate::common::res_view(r) == detail_id_spec(
            match id {
                Some(i) => Some(i@),
                None => None,
            },
        ),
{
    match id {
        Some(i) => {
            let t = trim_str(i);
            if chars_of(t.as_str()).len() > 0 {
                Ok(t)
            } else {
                Err(lit("Missing 'id' parameter"))
            }
        },
        None => Err(lit("Missing 'id' parameter")),
    }
}

/// Whether an index row fits a detail request: its id, and the scan's
/// software type and slug where given (compared ignoring ASCII case).
pub open spec fn row_fits(
    x: IndexedVuln,
    id: Seq<char>,
    t: Option<Seq<char>>,
    s: Option<Seq<char>>,
    with_context: bool,
) -> bool {
    x.id@ == id && (!with_context || ((match t {
        Some(t) => eq_ignore_ascii_case(t, x.software_type@),
        None => true,
    }) && (match s {
        Some(s) => eq_ignore_ascii_case(s, x.slug@),
        None => true,
    })))
}

/// The first row that fits.
pub open spec fn first_fit(
    vs: Seq<IndexedVuln>,
    id: Seq<char>,
    t: Option<Seq<char>>,
    s: Option<Seq<char>>,
    with_context: bool,
) -> Option<int>
    decreases vs.len(),
{
    if vs.len() == 0 {
        None
    } else {
        match first_fit(vs.drop_last(), id, t, s, with_context) {
            Some(i) => Some(i),
            None => if row_fits(vs.last(), id, t, s, with_context) {
                Some(vs.len() - 1)
            } else {
                None
            },
        }
    }
}

fn first_fit_exec(
    vs: &Vec<IndexedVuln>,
    id: &str,
    t: Option<&str>,
    s: Option<&str>,
    with_context: bool,
) -> (r: Option<usize>)
    ensures
        match r {
            Some(i) => first_fit(
                vs@,
                id@,
                match t {
                    Some(x) => Some(x@),
                    None => None,
                },
                match s {
                    Some(x) => Some(x@),
                    None => None,
                },
                with_context,
            ) == Some(i as int),
            None => first_fit(
                vs@,
                id@,
                match t {
                    Some(x) => Some(x@),
                    None => None,
                },
                match s {
                    Some(x) => Some(x@),
                    None => None,
                },
                with_context,
            ) is None,
        },
{
    let ghost tv = match t {
        Some(x) => Some(x@),
        None => None,
    };
    let ghost sv = match s {
        Some(x) => Some(x@),
        None => None,
    };
    let mut i: usize = 0;
    while i < vs.len()
        invariant
            i <= vs@.len(),
            tv == match t {
                Some(x) => Some(x@),
                None => None,
            },
            sv == match s {
                Some(x) => Some(x@),
                None => None,
            },
            first_fit(vs@.take(i as int), id@, tv, sv, with_context) is None,
        decreases vs@.len() - i,
    {
        assert(vs@.take(i + 1).drop_last() =~= vs@.take(i as int));
        assert(vs@.take(i + 1).last() == vs@[i as int]);
        let x = &vs[i];
        let fits = str_eq(x.id.as_str(), id) && (!with_context || ((match t {
            Some(t) => str_eq_ignore_ascii_case(t, x.software_type.as_str()),
            None => true,
        }) && (match s {
            Some(s) => str_eq_ignore_ascii_case(s, x.slug.as_str()),
            None => true,
        })));
        if fits {
            proof {
                assert(row_fits(vs@[i as int], id@, tv, sv, with_context));
                assert(first_fit(vs@.take(i + 1), id@, tv, sv, with_context) == Some(i as int));
                lemma_first_fit_prefix(vs@, id@, tv, sv, with_context, i + 1);
            }
            return Some(i);
        }
        proof {
            assert(!row_fits(vs@[i as int], id@, tv, sv, with_context));
        }
        i = i + 1;
    }
    assert(vs@.take(vs@.len() as int) =~= vs@);
    None
}

proof fn lemma_first_fit_prefix(
    vs: Seq<IndexedVuln>,
    id: Seq<char>,
    t: Option<Seq<char>>,
    s: Option<Seq<char>>,
    c: bool,
    k: int,
)
    requires
        0 < k <= vs.len(),
        first_fit(vs.take(k), id, t, s, c) is Some,
    ensures
        first_fit(vs, id, t, s, c) == first_fit(vs.take(k), id, t, s, c),
    decreases vs.len() - k,
{
    if k < vs.len() {
        assert(vs.take(k + 1).drop_last() =~= vs.take(k));
        assert(first_fit(vs.take(k + 1), id, t, s, c) == first_fit(vs.take(k), id, t, s, c));
        lemma_first_fit_prefix(vs, id, t, s, c, k + 1);
    } else {
        assert(vs.take(k) =~= vs);
    }
}

/// The row a detail request shows: the first row with the id that fits the
/// scan's context, else the first row with the id; an unknown id is refused.
pub open spec fn detail_row_spec(
    vs: Seq<IndexedVuln>,
    id: Seq<char>,
    t: Option<Seq<char>>,
    s: Option<Seq<char>>,
) -> Result<int, Seq<char>> {
    match first_fit(vs, id, t, s, false) {
        None => Err("Vulnerability id not found: "@ + id),
        Some(i) => match first_fit(vs, id, t, s, true) {
            Some(j) => Ok(j),
            None => Ok(i),
        },
    }
}

pub fn detail_row(index: &VulnIndex, id: &str, software_type: Option<&str>, slug: Option<&str>) -> (r:
    Result<usize, String>)
    ensures
        match r {
            Ok(i) => detail_row_spec(
                index.entries(),
                id@,
                match software_type {
                    Some(x) => Some(x@),
                    None => None,
                },
                match slug {
                    Some(x) => Some(x@),
                    None => None,
                },
            ) == Ok::<int, Seq<char>>(i as int),
            Err(e) => detail_row_spec(
                index.entries(),
                id@,
                match software_type {
                    Some(x) => Some(x@),
                    None => None,
                },
                match slug {
                    Some(x) => Some(x@),
                    None => None,
                },
            ) == Err::<int, Seq<char>>(e@),
        },
{
    match first_fit_exec(index.vulns(), id, software_type, slug, false) {
        None => {
            let mut m = chars_of("Vulnerability id not found: ");
            push_str(&mut m, id);
            Err(string_of(m.as_slice()))
        },
        Some(i) => match first_fit_exec(index.vulns(), id, software_type, slug, true) {
            Some(j) => Ok(j),
            None => Ok(i),
        },
    }
}

} // verus!
