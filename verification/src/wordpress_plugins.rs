//! WordPress plugin enumeration: the curated slug list, what a readme or a
//! directory probe must show to count as a plugin, slugs referenced from
//! the homepage, and the sorted report. The requests are made by the
//! caller, one readme probe per slug (and a directory probe when the readme
//! is not conclusive).

use vstd::prelude::*;

use crate::text::ov;

use crate::ordering::{sort_by_key, vsort, Keyed};
use crate::text::{
    chars_of, contains, decimal, decimal_chars, lit, lower_chars, push_all, push_str, str_eq,
    str_to_lowercase, string_of, strs_view, contains_chars,
};
use crate::wp_html::{extract_stable_tag, scan_slugs, slugs_spec, stable_tag_spec};

verus! {

pub struct WpPluginHit {
    pub slug: String,
    pub path: String,
    pub status: u16,
    pub version: Option<String>,
    pub evidence: String,
}

pub struct WpPluginsResponse {
    pub url: String,
    pub plugins: Vec<WpPluginHit>,
    pub probed: usize,
    pub notes: Vec<String>,
    pub error: Option<String>,
}

impl Keyed for WpPluginHit {
    open spec fn key_of(&self) -> Seq<char> {
        self.slug@
    }

    fn key(&self) -> (k: &str) {
        self.slug.as_str()
    }
}

/// Number of curated plugin slugs.
pub const PLUGIN_COUNT: usize = 84;

pub open spec fn plugin_slug(k: int) -> Seq<char> {
    if k == 0 {
        "akismet"@
    } else if k == 1 {
        "contact-form-7"@
    } else if k == 2 {
        "woocommerce"@
    } else if k == 3 {
        "elementor"@
    } else if k == 4 {
        "elementor-pro"@
    } else if k == 5 {
        "wordpress-seo"@
    } else if k == 6 {
        "jetpack"@
    } else if k == 7 {
        "wordfence"@
    } else if k == 8 {
        "all-in-one-wp-migration"@
    } else if k == 9 {
        "really-simple-ssl"@
    } else if k == 10 {
        "wpforms-lite"@
    } else if k == 11 {
        "duplicate-post"@
    } else if k == 12 {
        "classic-editor"@
    } else if k == 13 {
        "google-site-kit"@
    } else if k == 14 {
        "updraftplus"@
    } else if k == 15 {
        "wp-super-cache"@
    } else if k == 16 {
        "w3-total-cache"@
    } else if k == 17 {
        "litespeed-cache"@
    } else if k == 18 {
        "autoptimize"@
    } else if k == 19 {
        "redirection"@
    } else if k == 20 {
        "advanced-custom-fields"@
    } else if k == 21 {
        "advanced-custom-fields-pro"@
    } else if k == 22 {
        "yoast-seo"@
    } else if k == 23 {
        "seo-by-rank-math"@
    } else if k == 24 {
        "all-in-one-seo-pack"@
    } else if k == 25 {
        "mailchimp-for-wp"@
    } else if k == 26 {
        "ninja-forms"@
    } else if k == 27 {
        "gravityforms"@
    } else if k == 28 {
        "revslider"@
    } else if k == 29 {
        "js_composer"@
    } else if k == 30 {
        "js-composer"@
    } else if k == 31 {
        "essential-addons-for-elementor-lite"@
    } else if k == 32 {
        "wp-file-manager"@
    } else if k == 33 {
        "file-manager-advanced"@
    } else if k == 34 {
        "duplicator"@
    } else if k == 35 {
        "backupbuddy"@
    } else if k == 36 {
        "solid-security"@
    } else if k == 37 {
        "ithemes-security"@
    } else if k == 38 {
        "sucuri-scanner"@
    } else if k == 39 {
        "better-wp-security"@
    } else if k == 40 {
        "loginizer"@
    } else if k == 41 {
        "limit-login-attempts-reloaded"@
    } else if k == 42 {
        "wp-mail-smtp"@
    } else if k == 43 {
        "fluentform"@
    } else if k == 44 {
        "formidable"@
    } else if k == 45 {
        "tablepress"@
    } else if k == 46 {
        "wp-optimize"@
    } else if k == 47 {
        "broken-link-checker"@
    } else if k == 48 {
        "query-monitor"@
    } else if k == 49 {
        "debug-bar"@
    } else if k == 50 {
        "rest-api"@
    } else if k == 51 {
        "jwt-authentication-for-wp-rest-api"@
    } else if k == 52 {
        "memberpress"@
    } else if k == 53 {
        "learndash"@
    } else if k == 54 {
        "buddypress"@
    } else if k == 55 {
        "bbpress"@
    } else if k == 56 {
        "wp-rocket"@
    } else if k == 57 {
        "imagify"@
    } else if k == 58 {
        "smush"@
    } else if k == 59 {
        "ewww-image-optimizer"@
    } else if k == 60 {
        "polylang"@
    } else if k == 61 {
        "wpml-multilingual-cms"@
    } else if k == 62 {
        "translatepress-multilingual"@
    } else if k == 63 {
        "nextgen-gallery"@
    } else if k == 64 {
        "envira-gallery-lite"@
    } else if k == 65 {
        "popup-maker"@
    } else if k == 66 {
        "optinmonster"@
    } else if k == 67 {
        "monsterinsights"@
    } else if k == 68 {
        "google-analytics-for-wordpress"@
    } else if k == 69 {
        "insert-headers-and-footers"@
    } else if k == 70 {
        "code-snippets"@
    } else if k == 71 {
        "custom-css-js"@
    } else if k == 72 {
        "header-footer-code-manager"@
    } else if k == 73 {
        "svg-support"@
    } else if k == 74 {
        "safe-svg"@
    } else if k == 75 {
        "disable-comments"@
    } else if k == 76 {
        "user-role-editor"@
    } else if k == 77 {
        "members"@
    } else if k == 78 {
        "ultimate-member"@
    } else if k == 79 {
        "profile-builder"@
    } else if k == 80 {
        "wp-user-avatar"@
    } else if k == 81 {
        "theme-my-login"@
    } else if k == 82 {
        "login-customizer"@
    } else {
        "custom-login"@
    }
}

pub fn plugin_slug_exec(k: usize) -> (r: &'static str)
    requires
        k < PLUGIN_COUNT,
    ensures
        r@ == plugin_slug(k as int),
{
    if k == 0 {
        "akismet"
    } else if k == 1 {
        "contact-form-7"
    } else if k == 2 {
        "woocommerce"
    } else if k == 3 {
        "elementor"
    } else if k == 4 {
        "elementor-pro"
    } else if k == 5 {
        "wordpress-seo"
    } else if k == 6 {
        "jetpack"
    } else if k == 7 {
        "wordfence"
    } else if k == 8 {
        "all-in-one-wp-migration"
    } else if k == 9 {
        "really-simple-ssl"
    } else if k == 10 {
        "wpforms-lite"
    } else if k == 11 {
        "duplicate-post"
    } else if k == 12 {
        "classic-editor"
    } else if k == 13 {
        "google-site-kit"
    } else if k == 14 {
        "updraftplus"
    } else if k == 15 {
        "wp-super-cache"
    } else if k == 16 {
        "w3-total-cache"
    } else if k == 17 {
        "litespeed-cache"
    } else if k == 18 {
        "autoptimize"
    } else if k == 19 {
        "redirection"
    } else if k == 20 {
        "advanced-custom-fields"
    } else if k == 21 {
        "advanced-custom-fields-pro"
    } else if k == 22 {
        "yoast-seo"
    } else if k == 23 {
        "seo-by-rank-math"
    } else if k == 24 {
        "all-in-one-seo-pack"
    } else if k == 25 {
        "mailchimp-for-wp"
    } else if k == 26 {
        "ninja-forms"
    } else if k == 27 {
        "gravityforms"
    } else if k == 28 {
        "revslider"
    } else if k == 29 {
        "js_composer"
    } else if k == 30 {
        "js-composer"
    } else if k == 31 {
        "essential-addons-for-elementor-lite"
    } else if k == 32 {
        "wp-file-manager"
    } else if k == 33 {
        "file-manager-advanced"
    } else if k == 34 {
        "duplicator"
    } else if k == 35 {
        "backupbuddy"
    } else if k == 36 {
        "solid-security"
    } else if k == 37 {
        "ithemes-security"
    } else if k == 38 {
        "sucuri-scanner"
    } else if k == 39 {
        "better-wp-security"
    } else if k == 40 {
        "loginizer"
    } else if k == 41 {
        "limit-login-attempts-reloaded"
    } else if k == 42 {
        "wp-mail-smtp"
    } else if k == 43 {
        "fluentform"
    } else if k == 44 {
        "formidable"
    } else if k == 45 {
        "tablepress"
    } else if k == 46 {
        "wp-optimize"
    } else if k == 47 {
        "broken-link-checker"
    } else if k == 48 {
        "query-monitor"
    } else if k == 49 {
        "debug-bar"
    } else if k == 50 {
        "rest-api"
    } else if k == 51 {
        "jwt-authentication-for-wp-rest-api"
    } else if k == 52 {
        "memberpress"
    } else if k == 53 {
        "learndash"
    } else if k == 54 {
        "buddypress"
    } else if k == 55 {
        "bbpress"
    } else if k == 56 {
        "wp-rocket"
    } else if k == 57 {
        "imagify"
    } else if k == 58 {
        "smush"
    } else if k == 59 {
        "ewww-image-optimizer"
    } else if k == 60 {
        "polylang"
    } else if k == 61 {
        "wpml-multilingual-cms"
    } else if k == 62 {
        "translatepress-multilingual"
    } else if k == 63 {
        "nextgen-gallery"
    } else if k == 64 {
        "envira-gallery-lite"
    } else if k == 65 {
        "popup-maker"
    } else if k == 66 {
        "optinmonster"
    } else if k == 67 {
        "monsterinsights"
    } else if k == 68 {
        "google-analytics-for-wordpress"
    } else if k == 69 {
        "insert-headers-and-footers"
    } else if k == 70 {
        "code-snippets"
    } else if k == 71 {
        "custom-css-js"
    } else if k == 72 {
        "header-footer-code-manager"
    } else if k == 73 {
        "svg-support"
    } else if k == 74 {
        "safe-svg"
    } else if k == 75 {
        "disable-comments"
    } else if k == 76 {
        "user-role-editor"
    } else if k == 77 {
        "members"
    } else if k == 78 {
        "ultimate-member"
    } else if k == 79 {
        "profile-builder"
    } else if k == 80 {
        "wp-user-avatar"
    } else if k == 81 {
        "theme-my-login"
    } else if k == 82 {
        "login-customizer"
    } else {
        "custom-login"
    }
}


/// Outcome of one HTTP probe: the status and the body (when it could be
/// read as text), or the request error.
pub enum Probe {
    Failed { error: String },
    Response { status: u16, body: Option<String> },
}

/// A hit as plain values.
pub struct PluginV {
    pub slug: Seq<char>,
    pub path: Seq<char>,
    pub status: u16,
    pub version: Option<Seq<char>>,
    pub evidence: Seq<char>,
}

pub open spec fn plugin_v(h: WpPluginHit) -> PluginV {
    PluginV {
        slug: h.slug@,
        path: h.path@,
        status: h.status,
        version: ov(h.version),
        evidence: h.evidence@,
    }
}

pub open spec fn plugin_path(slug: Seq<char>) -> Seq<char> {
    "/wp-content/plugins/"@ + slug + "/"@
}

/// A readme that looks like a plugin readme.
pub open spec fn looks_like_readme(body: Seq<char>) -> bool {
    contains(str_to_lowercase(body), "stable tag"@) || contains(str_to_lowercase(body), "==="@)
        || contains(body, "Contributors:"@)
}

/// Hit from the readme probe of plugin `k`: a 200 plugin readme, with its
/// stable tag as version.
pub open spec fn readme_hit_spec(k: int, p: Probe) -> Option<PluginV> {
    match p {
        Probe::Response { status, body: Some(b) } => if status == 200 && looks_like_readme(b@) {
            Some(
                PluginV {
                    slug: plugin_slug(k),
                    path: plugin_path(plugin_slug(k)),
                    status,
                    version: stable_tag_spec(b@),
                    evidence: "readme.txt"@,
                },
            )
        } else {
            None
        },
        _ => None,
    }
}

/// Hit from the directory probe of plugin `k`: a 200 page that looks like
/// the plugin's directory (listing, or a titled page naming the slug).
pub open spec fn dir_hit_spec(k: int, p: Probe) -> Option<PluginV> {
    match p {
        Probe::Response { status, body: Some(b) } => {
            let slug = plugin_slug(k);
            let io = contains(b@, "Index of"@);
            let dl = contains(b@, "Directory listing"@);
            let looks_real = status == 403 || io || contains(str_to_lowercase(b@), slug) || dl;
            if status == 200 && looks_real && (io || dl || contains(b@, "<title>"@)) {
                Some(
                    PluginV {
                        slug,
                        path: plugin_path(slug),
                        status,
                        version: None,
                        evidence: if io {
                            "directory_listing"@
                        } else {
                            "plugin_path_200"@
                        },
                    },
                )
            } else {
                None
            }
        },
        _ => None,
    }
}

fn path_for(slug: &str) -> (r: String)
    ensures
        r@ == plugin_path(slug@),
{
    let mut p = chars_of("/wp-content/plugins/");
    push_str(&mut p, slug);
    push_str(&mut p, "/");
    string_of(p.as_slice())
}

fn has(b: &str, pat: &str) -> (r: bool)
    ensures
        r == contains(b@, pat@),
{
    crate::text::str_contains(b, pat)
}

fn lower_has(b: &str, pat: &str) -> (r: bool)
    ensures
        r == contains(str_to_lowercase(b@), pat@),
{
    let l = lower_chars(chars_of(b).as_slice());
    let pc = chars_of(pat);
    contains_chars(l.as_slice(), pc.as_slice())
}

/// The readme probe's verdict for plugin `k`.
pub fn readme_hit(k: usize, p: &Probe) -> (r: Option<WpPluginHit>)
    requires
        k < PLUGIN_COUNT,
    ensures
        match r {
            Some(h) => readme_hit_spec(k as int, *p) == Some(plugin_v(h)),
            None => readme_hit_spec(k as int, *p) is None,
        },
{
    match p {
        Probe::Response { status, body: Some(b) } => {
            if *status == 200 && (lower_has(b.as_str(), "stable tag") || lower_has(
                b.as_str(),
                "===",
            ) || has(b.as_str(), "Contributors:")) {
                let slug = plugin_slug_exec(k);
                Some(
                    WpPluginHit {
                        slug: lit(slug),
                        path: path_for(slug),
                        status: *status,
                        version: extract_stable_tag(b.as_str()),
                        evidence: lit("readme.txt"),
                    },
                )
            } else {
                None
            }
        },
        _ => None,
    }
}

/// The directory probe's verdict for plugin `k`.
pub fn dir_hit(k: usize, p: &Probe) -> (r: Option<WpPluginHit>)
    requires
        k < PLUGIN_COUNT,
    ensures
        match r {
            Some(h) => dir_hit_spec(k as int, *p) == Some(plugin_v(h)),
            None => dir_hit_spec(k as int, *p) is None,
        },
{
    match p {
        Probe::Response { status, body: Some(b) } => {
            let slug = plugin_slug_exec(k);
            let io = has(b.as_str(), "Index of");
            let dl = has(b.as_str(), "Directory listing");
            let looks_real = *status == 403 || io || lower_has(b.as_str(), slug) || dl;
            if *status == 200 && looks_real && (io || dl || has(b.as_str(), "<title>")) {
                Some(
                    WpPluginHit {
                        slug: lit(slug),
                        path: path_for(slug),
                        status: *status,
                        version: None,
                        evidence: if io {
                            lit("directory_listing")
                        } else {
                            lit("plugin_path_200")
                        },
                    },
                )
            } else {
                None
            }
        },
        _ => None,
    }
}

/// The probes of one slug: its readme, and its directory when the readme
/// did not settle it.
pub struct SlugProbes {
    pub readme: Probe,
    pub dir: Option<Probe>,
}

pub open spec fn slug_hit_spec(k: int, p: SlugProbes) -> Option<PluginV> {
    match readme_hit_spec(k, p.readme) {
        Some(h) => Some(h),
        None => match p.dir {
            Some(d) => dir_hit_spec(k, d),
            None => None,
        },
    }
}

/// Hits of the slug probes, in list order.
pub open spec fn probe_hits(ps: Seq<SlugProbes>) -> Seq<PluginV>
    decreases ps.len(),
{
    if ps.len() == 0 {
        seq![]
    } else {
        let prev = probe_hits(ps.drop_last());
        match slug_hit_spec(ps.len() - 1, ps.last()) {
            Some(h) => prev.push(h),
            None => prev,
        }
    }
}

/// The first readme request error.
pub open spec fn probe_error(ps: Seq<SlugProbes>) -> Option<Seq<char>>
    decreases ps.len(),
{
    if ps.len() == 0 {
        None
    } else {
        match probe_error(ps.drop_last()) {
            Some(e) => Some(e),
            None => match ps.last().readme {
                Probe::Failed { error } => Some("Request error (continuing): "@ + error@),
                _ => None,
            },
        }
    }
}

pub open spec fn has_slug(hs: Seq<PluginV>, slug: Seq<char>) -> bool {
    exists|i: int| 0 <= i < hs.len() && (#[trigger] hs[i]).slug == slug
}

/// Adds the homepage's slugs that no probe found, as `html_reference` hits.
pub open spec fn add_html_hits(hs: Seq<PluginV>, slugs: Seq<Seq<char>>) -> Seq<PluginV>
    decreases slugs.len(),
{
    if slugs.len() == 0 {
        hs
    } else {
        let prev = add_html_hits(hs, slugs.drop_last());
        let s = slugs.last();
        if has_slug(prev, s) {
            prev
        } else {
            prev.push(
                PluginV {
                    slug: s,
                    path: plugin_path(s),
                    status: 200,
                    version: None,
                    evidence: "html_reference"@,
                },
            )
        }
    }
}

pub open spec fn plugins_view(v: Seq<WpPluginHit>) -> Seq<PluginV> {
    v.map_values(|h: WpPluginHit| plugin_v(h))
}

/// The slug of a hit as a record key, for sorting at the level of views.
pub open spec fn hits_before_sort(ps: Seq<SlugProbes>, homepage: Option<String>) -> Seq<PluginV> {
    match homepage {
        Some(b) => add_html_hits(
            probe_hits(ps),
            slugs_spec(b@, "/wp-content/plugins/"@, 40).unwrap(),
        ),
        None => probe_hits(ps),
    }
}

/// The homepage scan is defined (see `slugs_spec`).
pub open spec fn homepage_ok(homepage: Option<String>) -> bool {
    match homepage {
        Some(b) => slugs_spec(b@, "/wp-content/plugins/"@, 40) is Some,
        None => true,
    }
}

fn plugin_has_slug(hs: &Vec<WpPluginHit>, slug: &str) -> (b: bool)
    ensures
        b == has_slug(plugins_view(hs@), slug@),
{
    let mut i: usize = 0;
    while i < hs.len()
        invariant
            i <= hs@.len(),
            forall|j: int| 0 <= j < i ==> (#[trigger] plugins_view(hs@)[j]).slug != slug@,
        decreases hs@.len() - i,
    {
        if str_eq(hs[i].slug.as_str(), slug) {
            assert(plugins_view(hs@)[i as int].slug == slug@);
            return true;
        }
        i = i + 1;
    }
    false
}

/// Assembles the report from one set of probes per curated slug and the
/// homepage body (`None` when it could not be fetched).
pub fn plugins_report(base: &str, probes: &Vec<SlugProbes>, homepage: Option<String>) -> (r:
    WpPluginsResponse)
    requires
        probes@.len() == PLUGIN_COUNT,
        homepage_ok(homepage),
    ensures
        r.url@ == base@,
        r.probed == PLUGIN_COUNT,
        plugins_view(r.plugins@) == vsort(hits_before_sort(probes@, homepage), |h: PluginV| h.slug),
        ov(r.error) == probe_error(probes@),
        r.notes@.len() == (if homepage is Some {
            1int
        } else {
            0int
        }),
        homepage is Some ==> r.notes@[0]@ == "HTML parse + readme probe of "@ + decimal(
            PLUGIN_COUNT as nat,
        ) + " popular plugins"@,
{
    let mut hits: Vec<WpPluginHit> = Vec::new();
    let mut error: Option<String> = None;
    let mut k: usize = 0;
    assert(plugins_view(hits@) =~= probe_hits(probes@.take(0)));
    while k < probes.len()
        invariant
            k <= probes@.len(),
            probes@.len() == PLUGIN_COUNT,
            plugins_view(hits@) == probe_hits(probes@.take(k as int)),
            ov(error) == probe_error(probes@.take(k as int)),
        decreases probes@.len() - k,
    {
        assert(probes@.take(k + 1).drop_last() =~= probes@.take(k as int));
        assert(probes@.take(k + 1).last() == probes@[k as int]);
        let p = &probes[k];
        if let Probe::Failed { error: e } = &p.readme {
            if error.is_none() {
                let mut m = chars_of("Request error (continuing): ");
                push_all(&mut m, chars_of(e.as_str()).as_slice());
                error = Some(string_of(m.as_slice()));
            }
        }
        let hit = match readme_hit(k, &p.readme) {
            Some(h) => Some(h),
            None => match &p.dir {
                Some(d) => dir_hit(k, d),
                None => None,
            },
        };
        if let Some(h) = hit {
            let ghost prev = plugins_view(hits@);
            hits.push(h);
            assert(plugins_view(hits@) =~= prev.push(plugin_v(h)));
        }
        k = k + 1;
    }
    assert(probes@.take(probes@.len() as int) =~= probes@);
    let mut notes: Vec<String> = Vec::new();
    if let Some(b) = &homepage {
        let found = match scan_slugs(b.as_str(), "/wp-content/plugins/", 40) {
            Some(v) => v,
            None => Vec::new(),
        };
        let ghost base_hits = plugins_view(hits@);
        let ghost sv = strs_view(found@);
        let mut j: usize = 0;
        while j < found.len()
            invariant
                j <= found@.len(),
                sv == strs_view(found@),
                plugins_view(hits@) == add_html_hits(base_hits, sv.take(j as int)),
            decreases found@.len() - j,
        {
            assert(sv.take(j + 1).drop_last() =~= sv.take(j as int));
            assert(sv.take(j + 1).last() == found@[j as int]@);
            let s = &found[j];
            if !plugin_has_slug(&hits, s.as_str()) {
                let h = WpPluginHit {
                    slug: s.clone(),
                    path: path_for(s.as_str()),
                    status: 200,
                    version: None,
                    evidence: lit("html_reference"),
                };
                let ghost prev = plugins_view(hits@);
                hits.push(h);
                assert(plugins_view(hits@) =~= prev.push(plugin_v(h)));
            }
            j = j + 1;
        }
        assert(sv.take(found@.len() as int) =~= sv);
        let mut n = chars_of("HTML parse + readme probe of ");
        push_all(&mut n, decimal_chars(PLUGIN_COUNT as u64).as_slice());
        push_str(&mut n, " popular plugins");
        notes.push(string_of(n.as_slice()));
    }
    let ghost unsorted = hits@;
    assert(plugins_view(unsorted) == hits_before_sort(probes@, homepage));
    let sorted = sort_by_key(hits);
    proof {
        crate::ordering::lemma_sort_view(
            unsorted,
            |h: WpPluginHit| plugin_v(h),
            |h: PluginV| h.slug,
        );
        assert(plugins_view(unsorted) == unsorted.map_values(|h: WpPluginHit| plugin_v(h)));
    }
    WpPluginsResponse { url: lit(base), plugins: sorted, probed: PLUGIN_COUNT, notes, error }
}

} // verus!
