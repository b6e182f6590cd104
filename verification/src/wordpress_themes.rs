//! WordPress theme enumeration: themes referenced from the homepage (the
//! first one is the active-theme guess), a style.css probe per candidate
//! for its `Version` and `Theme Name`, and the sorted report. The caller
//! fetches the homepage and the style sheets in the order of
//! `themes_to_probe`.

use vstd::prelude::*;

use crate::text::ov;

use crate::ordering::{sort_by_key, vsort, Keyed};
use crate::text::{
    chars_of, contains, decimal, decimal_chars, lit, push_all, push_str, str_eq, string_of,
    strs_view,
};
use crate::wp_html::{confidence_for, header_field_checked, header_field_spec, scan_slugs, slugs_spec};

verus! {

pub struct WpThemeHit {
    pub slug: String,
    pub path: String,
    pub version: Option<String>,
    pub theme_name: Option<String>,
    pub evidence: String,
    pub confidence: u8,
    pub evidence_explainer: String,
}

pub struct WpThemesResponse {
    pub url: String,
    pub themes: Vec<WpThemeHit>,
    pub active_guess: Option<String>,
    pub notes: Vec<String>,
    pub error: Option<String>,
}

impl Keyed for WpThemeHit {
    open spec fn key_of(&self) -> Seq<char> {
        self.slug@
    }

    fn key(&self) -> (k: &str) {
        self.slug.as_str()
    }
}

/// Number of well-known theme slugs always probed.
pub const THEME_COUNT: usize = 47;

pub open spec fn theme_slug(k: int) -> Seq<char> {
    if k == 0 {
        "twentytwentyfive"@
    } else if k == 1 {
        "twentytwentyfour"@
    } else if k == 2 {
        "twentytwentythree"@
    } else if k == 3 {
        "twentytwentytwo"@
    } else if k == 4 {
        "twentytwentyone"@
    } else if k == 5 {
        "twentytwenty"@
    } else if k == 6 {
        "twentynineteen"@
    } else if k == 7 {
        "astra"@
    } else if k == 8 {
        "hello-elementor"@
    } else if k == 9 {
        "oceanwp"@
    } else if k == 10 {
        "generatepress"@
    } else if k == 11 {
        "neve"@
    } else if k == 12 {
        "kadence"@
    } else if k == 13 {
        "blocksy"@
    } else if k == 14 {
        "flot"@
    } else if k == 15 {
        "divi"@
    } else if k == 16 {
        "avada"@
    } else if k == 17 {
        "enfold"@
    } else if k == 18 {
        "the7"@
    } else if k == 19 {
        "jupiter"@
    } else if k == 20 {
        "salient"@
    } else if k == 21 {
        "bridge"@
    } else if k == 22 {
        "betheme"@
    } else if k == 23 {
        "flatsome"@
    } else if k == 24 {
        "woodmart"@
    } else if k == 25 {
        "porto"@
    } else if k == 26 {
        "xstore"@
    } else if k == 27 {
        "shopkeeper"@
    } else if k == 28 {
        "storefront"@
    } else if k == 29 {
        "sydney"@
    } else if k == 30 {
        "zerif-lite"@
    } else if k == 31 {
        "hestia"@
    } else if k == 32 {
        "customizr"@
    } else if k == 33 {
        "spacious"@
    } else if k == 34 {
        "colormag"@
    } else if k == 35 {
        "colibri-wp"@
    } else if k == 36 {
        "go"@
    } else if k == 37 {
        "popularfx"@
    } else if k == 38 {
        "zakra"@
    } else if k == 39 {
        "ashe"@
    } else if k == 40 {
        "inspiro"@
    } else if k == 41 {
        "flavor"@
    } else if k == 42 {
        "total"@
    } else if k == 43 {
        "newspaper"@
    } else if k == 44 {
        "soledad"@
    } else if k == 45 {
        "jnews"@
    } else {
        "rehub-theme"@
    }
}

pub fn theme_slug_exec(k: usize) -> (r: &'static str)
    requires
        k < THEME_COUNT,
    ensures
        r@ == theme_slug(k as int),
{
    if k == 0 {
        "twentytwentyfive"
    } else if k == 1 {
        "twentytwentyfour"
    } else if k == 2 {
        "twentytwentythree"
    } else if k == 3 {
        "twentytwentytwo"
    } else if k == 4 {
        "twentytwentyone"
    } else if k == 5 {
        "twentytwenty"
    } else if k == 6 {
        "twentynineteen"
    } else if k == 7 {
        "astra"
    } else if k == 8 {
        "hello-elementor"
    } else if k == 9 {
        "oceanwp"
    } else if k == 10 {
        "generatepress"
    } else if k == 11 {
        "neve"
    } else if k == 12 {
        "kadence"
    } else if k == 13 {
        "blocksy"
    } else if k == 14 {
        "flot"
    } else if k == 15 {
        "divi"
    } else if k == 16 {
        "avada"
    } else if k == 17 {
        "enfold"
    } else if k == 18 {
        "the7"
    } else if k == 19 {
        "jupiter"
    } else if k == 20 {
        "salient"
    } else if k == 21 {
        "bridge"
    } else if k == 22 {
        "betheme"
    } else if k == 23 {
        "flatsome"
    } else if k == 24 {
        "woodmart"
    } else if k == 25 {
        "porto"
    } else if k == 26 {
        "xstore"
    } else if k == 27 {
        "shopkeeper"
    } else if k == 28 {
        "storefront"
    } else if k == 29 {
        "sydney"
    } else if k == 30 {
        "zerif-lite"
    } else if k == 31 {
        "hestia"
    } else if k == 32 {
        "customizr"
    } else if k == 33 {
        "spacious"
    } else if k == 34 {
        "colormag"
    } else if k == 35 {
        "colibri-wp"
    } else if k == 36 {
        "go"
    } else if k == 37 {
        "popularfx"
    } else if k == 38 {
        "zakra"
    } else if k == 39 {
        "ashe"
    } else if k == 40 {
        "inspiro"
    } else if k == 41 {
        "flavor"
    } else if k == 42 {
        "total"
    } else if k == 43 {
        "newspaper"
    } else if k == 44 {
        "soledad"
    } else if k == 45 {
        "jnews"
    } else {
        "rehub-theme"
    }
}


/// A theme hit as plain values.
pub struct ThemeV {
    pub slug: Seq<char>,
    pub path: Seq<char>,
    pub version: Option<Seq<char>>,
    pub theme_name: Option<Seq<char>>,
    pub evidence: Seq<char>,
    pub confidence: u8,
    pub evidence_explainer: Seq<char>,
}

pub open spec fn theme_v(h: WpThemeHit) -> ThemeV {
    ThemeV {
        slug: h.slug@,
        path: h.path@,
        version: ov(h.version),
        theme_name: ov(h.theme_name),
        evidence: h.evidence@,
        confidence: h.confidence,
        evidence_explainer: h.evidence_explainer@,
    }
}

pub open spec fn themes_view(v: Seq<WpThemeHit>) -> Seq<ThemeV> {
    v.map_values(|h: WpThemeHit| theme_v(h))
}

pub open spec fn theme_path(slug: Seq<char>) -> Seq<char> {
    "/wp-content/themes/"@ + slug + "/"@
}

pub open spec fn html_explainer() -> Seq<char> {
    "Slug referenced in page HTML — presence inferred, verify manually"@
}

pub open spec fn style_explainer() -> Seq<char> {
    "Theme style.css header with a Version — strong fingerprint"@
}

/// Slugs the homepage references (none when it was not read).
pub open spec fn html_slugs(homepage: Option<Result<String, String>>) -> Seq<Seq<char>> {
    match homepage {
        Some(Ok(b)) => slugs_spec(b@, "/wp-content/themes/"@, 20).unwrap(),
        _ => seq![],
    }
}

pub open spec fn index_of_slug(ts: Seq<ThemeV>, slug: Seq<char>) -> Option<int>
    decreases ts.len(),
{
    if ts.len() == 0 {
        None
    } else if ts[0].slug == slug {
        Some(0)
    } else {
        match index_of_slug(ts.drop_first(), slug) {
            Some(i) => Some(i + 1),
            None => None,
        }
    }
}

pub proof fn lemma_index_of_slug(ts: Seq<ThemeV>, slug: Seq<char>)
    ensures
        match index_of_slug(ts, slug) {
            Some(i) => 0 <= i < ts.len() && ts[i].slug == slug,
            None => forall|i: int| 0 <= i < ts.len() ==> (#[trigger] ts[i]).slug != slug,
        },
    decreases ts.len(),
{
    if ts.len() > 0 && ts[0].slug != slug {
        lemma_index_of_slug(ts.drop_first(), slug);
        if index_of_slug(ts.drop_first(), slug) is None {
            assert forall|i: int| 0 <= i < ts.len() implies (#[trigger] ts[i]).slug != slug by {
                if i > 0 {
                    assert(ts[i] == ts.drop_first()[i - 1]);
                }
            }
        }
    }
}

/// Hits from the homepage's references, in order.
pub open spec fn html_hits(slugs: Seq<Seq<char>>) -> Seq<ThemeV>
    decreases slugs.len(),
{
    if slugs.len() == 0 {
        seq![]
    } else {
        let prev = html_hits(slugs.drop_last());
        let s = slugs.last();
        if index_of_slug(prev, s) is Some {
            prev
        } else {
            prev.push(
                ThemeV {
                    slug: s,
                    path: theme_path(s),
                    version: None,
                    theme_name: None,
                    evidence: "html_reference"@,
                    confidence: 60,
                    evidence_explainer: html_explainer(),
                },
            )
        }
    }
}

/// Candidates probed for a style.css: the homepage's themes, then the
/// well-known slugs not already listed.
pub open spec fn probe_list_from(base: Seq<Seq<char>>, k: nat) -> Seq<Seq<char>>
    decreases k,
{
    if k == 0 {
        base
    } else {
        let prev = probe_list_from(base, (k - 1) as nat);
        if prev.contains(theme_slug(k - 1)) {
            prev
        } else {
            prev.push(theme_slug(k - 1))
        }
    }
}

pub open spec fn probe_list(homepage: Option<Result<String, String>>) -> Seq<Seq<char>> {
    probe_list_from(html_hits(html_slugs(homepage)).map_values(|t: ThemeV| t.slug), THEME_COUNT as nat)
}

/// Outcome of one style.css probe.
pub enum StyleProbe {
    /// The request failed.
    Failed,
    /// A response: whether it was 2xx, and its body when readable.
    Response { success: bool, body: Option<String> },
}

/// A style sheet that identifies a theme, and what it says.
pub open spec fn style_fields(p: StyleProbe) -> Option<(Option<Seq<char>>, Option<Seq<char>>)> {
    match p {
        StyleProbe::Response { success: true, body: Some(b) } => if contains(b@, "Theme Name:"@)
            || contains(b@, "Version:"@) {
            Some(
                (
                    header_field_spec(b@, "Version"@).unwrap(),
                    header_field_spec(b@, "Theme Name"@).unwrap(),
                ),
            )
        } else {
            None
        },
        _ => None,
    }
}

/// The header lookups a probe needs are defined (no slicing inside a char).
pub open spec fn probe_ok(p: StyleProbe) -> bool {
    match p {
        StyleProbe::Response { success: true, body: Some(b) } => (contains(b@, "Theme Name:"@)
            || contains(b@, "Version:"@)) ==> (header_field_spec(b@, "Version"@) is Some
            && header_field_spec(b@, "Theme Name"@) is Some),
        _ => true,
    }
}

pub open spec fn apply_probe(ts: Seq<ThemeV>, slug: Seq<char>, p: StyleProbe) -> Seq<ThemeV> {
    match style_fields(p) {
        None => ts,
        Some((version, theme_name)) => match index_of_slug(ts, slug) {
            Some(i) => ts.update(
                i,
                ThemeV {
                    version,
                    theme_name,
                    evidence: "style.css"@,
                    confidence: 90,
                    evidence_explainer: style_explainer(),
                    ..ts[i]
                },
            ),
            None => ts.push(
                ThemeV {
                    slug,
                    path: theme_path(slug),
                    version,
                    theme_name,
                    evidence: "style.css"@,
                    confidence: 90,
                    evidence_explainer: style_explainer(),
                },
            ),
        },
    }
}

pub open spec fn apply_probes(ts: Seq<ThemeV>, slugs: Seq<Seq<char>>, ps: Seq<StyleProbe>) -> Seq<
    ThemeV,
>
    decreases ps.len(),
{
    if ps.len() == 0 {
        ts
    } else {
        apply_probe(
            apply_probes(ts, slugs, ps.drop_last()),
            slugs[ps.len() - 1],
            ps.last(),
        )
    }
}

pub open spec fn failures(ps: Seq<StyleProbe>) -> nat
    decreases ps.len(),
{
    if ps.len() == 0 {
        0
    } else {
        failures(ps.drop_last()) + if ps.last() is Failed {
            1nat
        } else {
            0nat
        }
    }
}

pub proof fn lemma_failures_bound(ps: Seq<StyleProbe>)
    ensures
        failures(ps) <= ps.len(),
    decreases ps.len(),
{
    if ps.len() > 0 {
        lemma_failures_bound(ps.drop_last());
    }
}

/// The themes before sorting.
pub open spec fn themes_found(homepage: Option<Result<String, String>>, ps: Seq<StyleProbe>) -> Seq<
    ThemeV,
> {
    apply_probes(html_hits(html_slugs(homepage)), probe_list(homepage), ps)
}

/// The homepage scan and every style lookup are defined.
pub open spec fn inputs_ok(homepage: Option<Result<String, String>>, ps: Seq<StyleProbe>) -> bool {
    &&& match homepage {
        Some(Ok(b)) => slugs_spec(b@, "/wp-content/themes/"@, 20) is Some,
        _ => true,
    }
    &&& forall|i: int| 0 <= i < ps.len() ==> probe_ok(#[trigger] ps[i])
}

pub open spec fn themes_error(homepage: Option<Result<String, String>>, ps: Seq<StyleProbe>) -> Option<
    Seq<char>,
> {
    let f = failures(ps);
    if f > 0 && f == ps.len() {
        Some(
            "All "@ + decimal(f) + " theme probes failed — target may be unreachable or blocking this tool"@,
        )
    } else {
        match homepage {
            Some(Err(e)) => Some("Failed reading homepage: "@ + e@),
            _ => None,
        }
    }
}

pub open spec fn themes_notes(homepage: Option<Result<String, String>>, ps: Seq<StyleProbe>) -> Seq<
    Seq<char>,
> {
    let f = failures(ps);
    (match homepage {
        Some(Ok(_)) => seq!["Found "@ + decimal(html_slugs(homepage).len()) + " theme path(s) in HTML"@],
        _ => seq![],
    }) + (if f > 0 && f != ps.len() {
        seq![decimal(f) + " style.css probe(s) failed (transient network errors — results may be incomplete)"@]
    } else {
        seq![]
    }) + seq!["Probed style.css for known + HTML-discovered themes"@]
}

fn theme_path_exec(slug: &str) -> (r: String)
    ensures
        r@ == theme_path(slug@),
{
    let mut p = chars_of("/wp-content/themes/");
    push_str(&mut p, slug);
    push_str(&mut p, "/");
    string_of(p.as_slice())
}

fn find_theme(ts: &Vec<WpThemeHit>, slug: &str) -> (r: Option<usize>)
    ensures
        match r {
            Some(i) => index_of_slug(themes_view(ts@), slug@) == Some(i as int),
            None => index_of_slug(themes_view(ts@), slug@) is None,
        },
{
    let ghost tv = themes_view(ts@);
    let mut i: usize = 0;
    assert(tv.skip(0) =~= tv);
    while i < ts.len()
        invariant
            i <= ts@.len(),
            tv == themes_view(ts@),
            match index_of_slug(tv, slug@) {
                Some(j) => match index_of_slug(tv.skip(i as int), slug@) {
                    Some(j2) => j == j2 + i,
                    None => false,
                },
                None => index_of_slug(tv.skip(i as int), slug@) is None,
            },
        decreases ts@.len() - i,
    {
        assert(tv.skip(i as int).drop_first() =~= tv.skip(i + 1));
        assert(tv.skip(i as int)[0] == theme_v(ts@[i as int]));
        if str_eq(ts[i].slug.as_str(), slug) {
            return Some(i);
        }
        i = i + 1;
    }
    assert(tv.skip(i as int).len() == 0);
    None
}

fn homepage_slugs(homepage: &Option<Result<String, String>>) -> (r: Vec<String>)
    requires
        match *homepage {
            Some(Ok(b)) => slugs_spec(b@, "/wp-content/themes/"@, 20) is Some,
            _ => true,
        },
    ensures
        strs_view(r@) == html_slugs(*homepage),
{
    match homepage {
        Some(Ok(b)) => match scan_slugs(b.as_str(), "/wp-content/themes/", 20) {
            Some(v) => v,
            None => Vec::new(),
        },
        _ => {
            let v: Vec<String> = Vec::new();
            assert(strs_view(v@) =~= Seq::<Seq<char>>::empty());
            v
        },
    }
}

fn html_theme_hits(slugs: &Vec<String>) -> (r: Vec<WpThemeHit>)
    ensures
        themes_view(r@) == html_hits(strs_view(slugs@)),
{
    let ghost sv = strs_view(slugs@);
    let mut out: Vec<WpThemeHit> = Vec::new();
    let mut j: usize = 0;
    assert(themes_view(out@) =~= html_hits(sv.take(0)));
    while j < slugs.len()
        invariant
            j <= slugs@.len(),
            sv == strs_view(slugs@),
            themes_view(out@) == html_hits(sv.take(j as int)),
        decreases slugs@.len() - j,
    {
        assert(sv.take(j + 1).drop_last() =~= sv.take(j as int));
        assert(sv.take(j + 1).last() == slugs@[j as int]@);
        let s = &slugs[j];
        if find_theme(&out, s.as_str()).is_none() {
            let (confidence, explainer) = confidence_for("html_reference");
            proof {
                reveal_strlit("html_reference");
                reveal_strlit("style.css");
                assert("html_reference"@.len() != "style.css"@.len());
            }
            let h = WpThemeHit {
                slug: s.clone(),
                path: theme_path_exec(s.as_str()),
                version: None,
                theme_name: None,
                evidence: lit("html_reference"),
                confidence,
                evidence_explainer: lit(explainer),
            };
            let ghost prev = themes_view(out@);
            out.push(h);
            assert(themes_view(out@) =~= prev.push(theme_v(h)));
        }
        j = j + 1;
    }
    assert(sv.take(slugs@.len() as int) =~= sv);
    out
}

/// The slugs whose style.css is probed, in probe order.
pub fn themes_to_probe(homepage: &Option<Result<String, String>>) -> (r: Vec<String>)
    requires
        match *homepage {
            Some(Ok(b)) => slugs_spec(b@, "/wp-content/themes/"@, 20) is Some,
            _ => true,
        },
    ensures
        strs_view(r@) == probe_list(*homepage),
{
    let slugs = homepage_slugs(homepage);
    let hits = html_theme_hits(&slugs);
    let mut out: Vec<String> = Vec::new();
    let mut i: usize = 0;
    while i < hits.len()
        invariant
            i <= hits@.len(),
            strs_view(out@) == themes_view(hits@).take(i as int).map_values(|t: ThemeV| t.slug),
        decreases hits@.len() - i,
    {
        let ghost prev = strs_view(out@);
        out.push(hits[i].slug.clone());
        assert(strs_view(out@) =~= prev.push(hits@[i as int].slug@));
        assert(themes_view(hits@).take(i + 1).map_values(|t: ThemeV| t.slug) =~= themes_view(
            hits@,
        ).take(i as int).map_values(|t: ThemeV| t.slug).push(hits@[i as int].slug@));
        i = i + 1;
    }
    assert(themes_view(hits@).take(hits@.len() as int) =~= themes_view(hits@));
    let ghost base = strs_view(out@);
    let mut k: usize = 0;
    while k < THEME_COUNT
        invariant
            k <= THEME_COUNT,
            strs_view(out@) == probe_list_from(base, k as nat),
        decreases THEME_COUNT - k,
    {
        let s = theme_slug_exec(k);
        let mut present = false;
        let mut j: usize = 0;
        while j < out.len()
            invariant
                j <= out@.len(),
                !present ==> forall|x: int| 0 <= x < j ==> strs_view(out@)[x] != s@,
                present ==> strs_view(out@).contains(s@),
            decreases out@.len() - j,
        {
            if str_eq(out[j].as_str(), s) {
                present = true;
                assert(strs_view(out@)[j as int] == s@);
            }
            j = j + 1;
        }
        if !present {
            let ghost prev = strs_view(out@);
            out.push(lit(s));
            assert(strs_view(out@) =~= prev.push(s@));
        }
        k = k + 1;
    }
    out
}


fn style_lookup(b: &str) -> (r: (Option<String>, Option<String>))
    requires
        header_field_spec(b@, "Version"@) is Some,
        header_field_spec(b@, "Theme Name"@) is Some,
    ensures
        ov(r.0) == header_field_spec(b@, "Version"@).unwrap(),
        ov(r.1) == header_field_spec(b@, "Theme Name"@).unwrap(),
{
    proof {
        reveal_strlit("Version");
        reveal_strlit("Theme Name");
        reveal_strlit(":");
        crate::common::lemma_utf8_len_bound("Version"@ + ":"@);
        crate::common::lemma_utf8_len_bound("Theme Name"@ + ":"@);
    }
    let v = match header_field_checked(b, "Version") {
        Some(x) => x,
        None => None,
    };
    let n = match header_field_checked(b, "Theme Name") {
        Some(x) => x,
        None => None,
    };
    (v, n)
}

/// Assembles the report from the homepage (`None` when the request failed,
/// `Some(Err)` when its body could not be read) and one style.css probe per
/// slug of `themes_to_probe`.
pub fn themes_report(base: &str, homepage: Option<Result<String, String>>, probes: &Vec<StyleProbe>) -> (r:
    WpThemesResponse)
    requires
        inputs_ok(homepage, probes@),
        probes@.len() == probe_list(homepage).len(),
    ensures
        r.url@ == base@,
        themes_view(r.themes@) == vsort(themes_found(homepage, probes@), |t: ThemeV| t.slug),
        ov(r.active_guess) == (if html_slugs(homepage).len() > 0 {
            Some(html_slugs(homepage)[0])
        } else {
            None
        }),
        strs_view(r.notes@) == themes_notes(homepage, probes@),
        ov(r.error) == themes_error(homepage, probes@),
{
    let slugs = homepage_slugs(&homepage);
    let mut themes = html_theme_hits(&slugs);
    let active_guess = if slugs.len() > 0 {
        Some(slugs[0].clone())
    } else {
        None
    };
    let to_probe = themes_to_probe(&homepage);
    let mut notes: Vec<String> = Vec::new();
    let mut error: Option<String> = None;
    match &homepage {
        Some(Ok(_)) => {
            let mut n = chars_of("Found ");
            push_all(&mut n, decimal_chars(slugs.len() as u64).as_slice());
            push_str(&mut n, " theme path(s) in HTML");
            notes.push(string_of(n.as_slice()));
        },
        Some(Err(e)) => {
            let mut m = chars_of("Failed reading homepage: ");
            push_all(&mut m, chars_of(e.as_str()).as_slice());
            error = Some(string_of(m.as_slice()));
        },
        None => {},
    }
    let ghost notes0 = strs_view(notes@);
    let ghost ts0 = themes_view(themes@);
    let ghost pl = strs_view(to_probe@);
    let mut failed: usize = 0;
    let mut k: usize = 0;
    while k < probes.len()
        invariant
            k <= probes@.len(),
            probes@.len() == pl.len(),
            pl == strs_view(to_probe@),
            inputs_ok(homepage, probes@),
            themes_view(themes@) == apply_probes(ts0, pl, probes@.take(k as int)),
            failed == failures(probes@.take(k as int)),
            failed <= k,
        decreases probes@.len() - k,
    {
        assert(probes@.take(k + 1).drop_last() =~= probes@.take(k as int));
        assert(probes@.take(k + 1).last() == probes@[k as int]);
        assert(probe_ok(probes@[k as int]));
        let ghost before = themes_view(themes@);
        let slug = &to_probe[k];
        match &probes[k] {
            StyleProbe::Failed => {
                failed = failed + 1;
            },
            StyleProbe::Response { success, body } => {
                if *success {
                    if let Some(b) = body {
                        if crate::text::str_contains(b.as_str(), "Theme Name:")
                            || crate::text::str_contains(b.as_str(), "Version:") {
                            let (version, theme_name) = style_lookup(b.as_str());
                            let (confidence, explainer) = confidence_for("style.css");
                            proof {
                                lemma_index_of_slug(themes_view(themes@), slug@);
                            }
                            match find_theme(&themes, slug.as_str()) {
                                Some(i) => {
                                    let mut h = themes.remove(i);
                                    h.version = version;
                                    h.theme_name = theme_name;
                                    h.evidence = lit("style.css");
                                    h.confidence = confidence;
                                    h.evidence_explainer = lit(explainer);
                                    themes.insert(i, h);
                                    assert(themes_view(themes@) =~= before.update(
                                        i as int,
                                        theme_v(h),
                                    ));
                                },
                                None => {
                                    let h = WpThemeHit {
                                        slug: slug.clone(),
                                        path: theme_path_exec(slug.as_str()),
                                        version,
                                        theme_name,
                                        evidence: lit("style.css"),
                                        confidence,
                                        evidence_explainer: lit(explainer),
                                    };
                                    themes.push(h);
                                    assert(themes_view(themes@) =~= before.push(theme_v(h)));
                                },
                            }
                        }
                    }
                }
            },
        }
        assert(pl[k as int] == slug@);
        k = k + 1;
    }
    assert(probes@.take(probes@.len() as int) =~= probes@);
    if failed > 0 {
        if failed == probes.len() {
            let mut m = chars_of("All ");
            push_all(&mut m, decimal_chars(failed as u64).as_slice());
            push_str(&mut m, " theme probes failed — target may be unreachable or blocking this tool");
            error = Some(string_of(m.as_slice()));
        } else {
            let mut m = decimal_chars(failed as u64);
            push_str(
                &mut m,
                " style.css probe(s) failed (transient network errors — results may be incomplete)",
            );
            notes.push(string_of(m.as_slice()));
        }
    }
    notes.push(lit("Probed style.css for known + HTML-discovered themes"));
    assert(strs_view(notes@) =~= themes_notes(homepage, probes@));
    let ghost unsorted = themes@;
    let sorted = sort_by_key(themes);
    proof {
        crate::ordering::lemma_sort_view(unsorted, |h: WpThemeHit| theme_v(h), |t: ThemeV| t.slug);
        assert(themes_view(unsorted) == unsorted.map_values(|h: WpThemeHit| theme_v(h)));
    }
    WpThemesResponse { url: lit(base), themes: sorted, active_guess, notes, error }
}

} // verus!
