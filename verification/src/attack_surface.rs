//! Attack Surface Explorer — aggregation layer for WordPress. It reads the
//! results other tools already produced (passed in here as plain values) and
//! builds one node per surface (core, authentication, REST, plugins, themes,
//! sensitive files, headers, vulnerabilities, infrastructure), each with
//! ranked items, plus a summary and the list of sources not yet run.

use vstd::prelude::*;

use crate::text::ov;

use crate::common::{normalize_url, spec_normalize_url};
use crate::severity::{
    rank_sev, rank_sev_spec, sev, sev_rank, sev_rank_of_rank_sev, sev_rank_spec, sev_spec,
};
use crate::text::{
    chars_of, decimal, decimal_chars, eq_ignore_ascii_case, lit, parse_unsigned,
    parse_unsigned_spec, push_all, push_str, str_eq, str_eq_ignore_ascii_case, string_of, trim,
    trim_str,
};

verus! {

// ─── Response types ─────────────────────────────────────────────────────────

pub struct AttackSurfaceItem {
    pub label: String,
    pub value: Option<String>,
    pub severity: String,
    pub detail: Option<String>,
    pub meta: Vec<[String; 2]>,
}

pub struct AttackSurfaceNode {
    pub id: String,
    pub label: String,
    pub category: String,
    pub status: String,
    pub count: usize,
    pub note: String,
    pub items: Vec<AttackSurfaceItem>,
}

pub struct AttackSurfaceSummary {
    pub core: String,
    pub plugins: usize,
    pub themes: usize,
    pub rest_routes: usize,
    pub authentication: usize,
    pub sensitive_files: usize,
    pub known_vulns: usize,
    pub total_findings: usize,
    pub overall: String,
}

pub struct MissingTool {
    pub tool: String,
    pub label: String,
}

pub struct AttackSurfaceResponse {
    pub url: String,
    pub generated_at: String,
    pub nodes: Vec<AttackSurfaceNode>,
    pub summary: AttackSurfaceSummary,
    pub missing: Vec<MissingTool>,
}

// ─── Source results (what the explorer reads of each tool's output) ─────────

/// One response header as the Version Check stored it (value `None` when it
/// is not a string).
pub struct HeaderEntry {
    pub name: String,
    pub value: Option<String>,
}

/// Version Check result.
pub struct WpCheckSource {
    pub detected: Option<bool>,
    pub version: Option<String>,
    pub version_source: Option<String>,
    pub wp_json_version: Option<String>,
    pub generator_tag: Option<String>,
    pub readme_accessible: Option<bool>,
    /// `None` when the result holds no `headers` object.
    pub headers: Option<Vec<HeaderEntry>>,
}

/// XML-RPC Probe result.
pub struct XmlrpcSource {
    pub available: Option<bool>,
    pub method_count: Option<usize>,
    pub multicall: Option<bool>,
    pub pingback: Option<bool>,
    pub system_get_capabilities: Option<bool>,
    pub interesting: Vec<String>,
}

/// User Enum result.
pub struct UsersSource {
    pub user_count: usize,
    pub rest_users_enabled: Option<bool>,
    pub author_enum_works: Option<bool>,
}

/// REST Surface result.
pub struct RestSource {
    pub available: Option<bool>,
    pub route_count: Option<usize>,
    pub interesting_routes: Vec<String>,
    pub namespaces: Vec<String>,
    pub wp_version: Option<String>,
}

/// One detected plugin or theme, with what the vulnerability index and the
/// WordPress.org cache say of it (looked up only when the version is known).
pub struct ComponentHit {
    pub slug: Option<String>,
    pub version: Option<String>,
    pub evidence: Option<String>,
    pub confidence: Option<u64>,
    pub evidence_explainer: Option<String>,
    /// Number of matching known vulnerabilities, `None` when the index lookup failed.
    pub vuln_count: Option<usize>,
    /// Latest version on WordPress.org, when previously fetched.
    pub latest_version: Option<String>,
}

pub struct PluginsSource {
    pub plugins: Vec<ComponentHit>,
}

pub struct ThemesSource {
    pub active_guess: Option<String>,
    pub themes: Vec<ComponentHit>,
}

pub struct PathFinding {
    pub path: Option<String>,
    pub status: Option<u64>,
    pub risk: Option<String>,
    pub note: Option<String>,
    pub length: Option<u64>,
}

/// Sensitive Paths result.
pub struct PathsSource {
    pub findings: Vec<PathFinding>,
    pub probed: Option<usize>,
}

/// One Wordfence finding. The CVSS score is a float: `score_severity` is the
/// severity band of the score and `cvss_display` its one-decimal rendering,
/// both computed where the float lives.
pub struct WfFinding {
    pub title: Option<String>,
    pub cve: Option<String>,
    pub cvss_rating: Option<String>,
    pub score_severity: Option<String>,
    pub cvss_display: Option<String>,
    pub name: Option<String>,
    pub slug: Option<String>,
    pub detected_version: Option<String>,
    pub patched: Option<bool>,
    pub remediation: Option<String>,
}

pub struct WfSummaryCounts {
    pub critical: Option<u64>,
    pub high: Option<u64>,
    pub medium: Option<u64>,
    pub low: Option<u64>,
}

/// WF Vuln Scanner result.
pub struct VulnSource {
    pub findings: Vec<WfFinding>,
    pub summary: Option<WfSummaryCounts>,
}

pub struct NucleiFinding {
    pub name: Option<String>,
    pub severity: Option<String>,
    pub matched_at: Option<String>,
    pub template_id: Option<String>,
}

/// WP Nuclei Scan result.
pub struct NucleiSource {
    pub findings: Vec<NucleiFinding>,
}

// ─── Views ──────────────────────────────────────────────────────────────────

pub open spec fn or_default(o: Option<String>, d: Seq<char>) -> Seq<char> {
    match o {
        Some(s) => s@,
        None => d,
    }
}

pub open spec fn bool_or(o: Option<bool>, d: bool) -> bool {
    match o {
        Some(b) => b,
        None => d,
    }
}

pub open spec fn bool_str(b: bool) -> Seq<char> {
    if b {
        "true"@
    } else {
        "false"@
    }
}

/// An item as plain values.
pub struct ItemV {
    pub label: Seq<char>,
    pub value: Option<Seq<char>>,
    pub severity: Seq<char>,
    pub detail: Option<Seq<char>>,
    pub meta: Seq<(Seq<char>, Seq<char>)>,
}

pub open spec fn iv(
    label: Seq<char>,
    value: Option<Seq<char>>,
    severity: Seq<char>,
    detail: Option<Seq<char>>,
    meta: Seq<(Seq<char>, Seq<char>)>,
) -> ItemV {
    ItemV { label, value, severity, detail, meta }
}

pub open spec fn pair_view(p: [String; 2]) -> (Seq<char>, Seq<char>) {
    (p@[0]@, p@[1]@)
}

pub open spec fn meta_view(m: Seq<[String; 2]>) -> Seq<(Seq<char>, Seq<char>)> {
    m.map_values(|p: [String; 2]| pair_view(p))
}

pub open spec fn item_view(it: AttackSurfaceItem) -> ItemV {
    ItemV {
        label: it.label@,
        value: ov(it.value),
        severity: it.severity@,
        detail: ov(it.detail),
        meta: meta_view(it.meta@),
    }
}

pub open spec fn items_view(v: Seq<AttackSurfaceItem>) -> Seq<ItemV> {
    v.map_values(|it: AttackSurfaceItem| item_view(it))
}

/// Highest severity rank among the items (0 for none).
pub open spec fn max_rank(s: Seq<ItemV>) -> u8
    decreases s.len(),
{
    if s.len() == 0 {
        0
    } else {
        let r = max_rank(s.drop_last());
        let x = sev_rank_spec(s.last().severity);
        if x > r {
            x
        } else {
            r
        }
    }
}

/// A node as plain values.
pub struct NodeV {
    pub id: Seq<char>,
    pub label: Seq<char>,
    pub category: Seq<char>,
    pub status: Seq<char>,
    pub count: nat,
    pub note: Seq<char>,
    pub items: Seq<ItemV>,
}

pub open spec fn node_view(n: AttackSurfaceNode) -> NodeV {
    NodeV {
        id: n.id@,
        label: n.label@,
        category: n.category@,
        status: n.status@,
        count: n.count as nat,
        note: n.note@,
        items: items_view(n.items@),
    }
}

/// The node `finish_node` builds: status is the highest item severity.
pub open spec fn finished(
    id: Seq<char>,
    label: Seq<char>,
    category: Seq<char>,
    note: Seq<char>,
    items: Seq<ItemV>,
) -> NodeV {
    NodeV {
        id,
        label,
        category,
        status: rank_sev_spec(max_rank(items)),
        count: items.len(),
        note,
        items,
    }
}

// ─── Exec helpers ───────────────────────────────────────────────────────────

fn opt_clone(o: &Option<String>) -> (r: Option<String>)
    ensures
        ov(r) == ov(*o),
{
    match o {
        Some(s) => Some(s.clone()),
        None => None,
    }
}

fn bool_string(b: bool) -> (r: String)
    ensures
        r@ == bool_str(b),
{
    if b {
        lit("true")
    } else {
        lit("false")
    }
}

pub fn decimal_string(n: u64) -> (r: String)
    ensures
        r@ == decimal(n as nat),
{
    string_of(decimal_chars(n).as_slice())
}

fn no_meta() -> (m: Vec<[String; 2]>)
    ensures
        meta_view(m@) == Seq::<(Seq<char>, Seq<char>)>::empty(),
{
    let m: Vec<[String; 2]> = Vec::new();
    assert(meta_view(m@) =~= Seq::<(Seq<char>, Seq<char>)>::empty());
    m
}

fn pair(a: String, b: String) -> (p: [String; 2])
    ensures
        pair_view(p) == (a@, b@),
{
    let p = [a, b];
    proof {
        assert(p@[0] == a);
        assert(p@[1] == b);
    }
    p
}

fn push_meta(meta: &mut Vec<[String; 2]>, a: String, b: String)
    ensures
        meta_view(final(meta)@) == meta_view(old(meta)@).push((a@, b@)),
{
    let p = pair(a, b);
    meta.push(p);
    proof {
        assert(meta_view(meta@) =~= meta_view(old(meta)@).push((a@, b@)));
    }
}

/// Appends one item.
pub fn add_item(
    items: &mut Vec<AttackSurfaceItem>,
    label: String,
    value: Option<String>,
    severity: String,
    detail: Option<String>,
    meta: Vec<[String; 2]>,
)
    ensures
        items_view(final(items)@) == items_view(old(items)@).push(
            iv(
                label@,
                ov(value),
                severity@,
                ov(detail),
                meta_view(meta@),
            ),
        ),
{
    let it = AttackSurfaceItem { label, value, severity, detail, meta };
    items.push(it);
    proof {
        assert(items_view(items@) =~= items_view(old(items)@).push(item_view(it)));
    }
}

fn max_rank_of(items: &Vec<AttackSurfaceItem>) -> (r: u8)
    ensures
        r == max_rank(items_view(items@)),
{
    let mut best: u8 = 0;
    let mut i: usize = 0;
    while i < items.len()
        invariant
            i <= items@.len(),
            best == max_rank(items_view(items@.take(i as int))),
        decreases items@.len() - i,
    {
        let x = sev_rank(items[i].severity.as_str());
        proof {
            assert(items_view(items@.take(i + 1)).drop_last() =~= items_view(items@.take(i as int)));
        }
        if x > best {
            best = x;
        }
        i = i + 1;
    }
    proof {
        assert(items@.take(items@.len() as int) =~= items@);
    }
    best
}

/// Builds a node; its status is the highest severity among its items
/// (`none` when there are none).
pub fn finish_node(
    id: &str,
    label: &str,
    category: &str,
    note: &str,
    items: Vec<AttackSurfaceItem>,
) -> (n: AttackSurfaceNode)
    ensures
        node_view(n) == finished(id@, label@, category@, note@, items_view(items@)),
{
    let r = max_rank_of(&items);
    let status = lit(rank_sev(r));
    let count = items.len();
    AttackSurfaceNode {
        id: lit(id),
        label: lit(label),
        category: lit(category),
        status,
        count,
        note: lit(note),
        items,
    }
}

// ─── Core ───────────────────────────────────────────────────────────────────

pub open spec fn core_version_part(v: WpCheckSource) -> Seq<ItemV> {
    let src = or_default(v.version_source, ""@);
    match v.version {
        Some(ver) => seq![
            iv(
                "Version"@,
                Some(ver@),
                "informational"@,
                if src.len() == 0 {
                    None
                } else {
                    Some("source: "@ + src)
                },
                if src.len() == 0 {
                    seq![]
                } else {
                    seq![("source"@, src)]
                },
            ),
        ],
        None => seq![],
    }
}

pub open spec fn core_json_part(v: WpCheckSource) -> Seq<ItemV> {
    match v.wp_json_version {
        Some(w) => seq![iv("wp-json version"@, Some(w@), "informational"@, None, seq![])],
        None => seq![],
    }
}

pub open spec fn core_generator_part(v: WpCheckSource) -> Seq<ItemV> {
    match v.generator_tag {
        Some(g) => seq![
            iv(
                "Generator tag"@,
                Some(g@),
                "informational"@,
                Some("HTML meta generator exposes the CMS + version"@),
                seq![],
            ),
        ],
        None => seq![],
    }
}

pub open spec fn core_readme_part(v: WpCheckSource) -> Seq<ItemV> {
    match v.readme_accessible {
        Some(r) => seq![
            iv(
                "readme.txt accessible"@,
                Some(bool_str(r)),
                if r {
                    "low"@
                } else {
                    "informational"@
                },
                if r {
                    Some("Public readme.txt leaks the exact core/plugin versions"@)
                } else {
                    None
                },
                seq![],
            ),
        ],
        None => seq![],
    }
}

/// Items of the core node: detection flag, version (with its source),
/// wp-json version, generator tag and readme exposure, each when reported.
pub open spec fn core_items(check: Option<WpCheckSource>) -> Seq<ItemV> {
    match check {
        None => seq![],
        Some(v) => seq![
            iv(
                "WordPress detected"@,
                Some(bool_str(bool_or(v.detected, false))),
                "informational"@,
                None,
                seq![],
            ),
        ] + core_version_part(v) + core_json_part(v) + core_generator_part(v) + core_readme_part(v),
    }
}

pub open spec fn core_note(check: Option<WpCheckSource>) -> Seq<char> {
    match check {
        Some(v) => if bool_or(v.detected, false) {
            match v.version {
                Some(ver) => "WordPress "@ + ver@ + " detected"@,
                None => "WordPress detected · version unknown"@,
            }
        } else {
            "Not fingerprinted"@
        },
        None => "Not fingerprinted"@,
    }
}

pub fn core_node(check: &Option<WpCheckSource>) -> (n: AttackSurfaceNode)
    ensures
        node_view(n) == finished(
            "core"@,
            "Core"@,
            "infrastructure"@,
            core_note(*check),
            core_items(*check),
        ),
{
    let mut items: Vec<AttackSurfaceItem> = Vec::new();
    assert(items_view(items@) =~= Seq::<ItemV>::empty());
    let mut note = lit("Not fingerprinted");
    if let Some(v) = check {
        let detected = match v.detected {
            Some(b) => b,
            None => false,
        };
        add_item(
            &mut items,
            lit("WordPress detected"),
            Some(bool_string(detected)),
            lit("informational"),
            None,
            no_meta(),
        );
        let ghost s1 = items_view(items@);
        assert(s1 =~= seq![
            iv(
                "WordPress detected"@,
                Some(bool_str(bool_or(v.detected, false))),
                "informational"@,
                None,
                seq![],
            ),
        ]);
        match &v.version {
            Some(ver) => {
                let src = match &v.version_source {
                    Some(s) => s.clone(),
                    None => lit(""),
                };
                let src_chars = chars_of(src.as_str());
                if src_chars.len() == 0 {
                    add_item(&mut items, lit("Version"), Some(ver.clone()), lit("informational"), None, no_meta());
                } else {
                    let mut d = chars_of("source: ");
                    push_all(&mut d, src_chars.as_slice());
                    let mut m = no_meta();
                    push_meta(&mut m, lit("source"), src.clone());
                    add_item(
                        &mut items,
                        lit("Version"),
                        Some(ver.clone()),
                        lit("informational"),
                        Some(string_of(d.as_slice())),
                        m,
                    );
                }
                if detected {
                    let mut nv = chars_of("WordPress ");
                    push_all(&mut nv, chars_of(ver.as_str()).as_slice());
                    push_str(&mut nv, " detected");
                    note = string_of(nv.as_slice());
                }
            },
            None => {
                if detected {
                    note = lit("WordPress detected · version unknown");
                }
            },
        }
        let ghost s2 = items_view(items@);
        assert(s2 =~= s1 + core_version_part(*v));
        if let Some(w) = &v.wp_json_version {
            add_item(&mut items, lit("wp-json version"), Some(w.clone()), lit("informational"), None, no_meta());
        }
        let ghost s3 = items_view(items@);
        assert(s3 =~= s2 + core_json_part(*v));
        if let Some(g) = &v.generator_tag {
            add_item(
                &mut items,
                lit("Generator tag"),
                Some(g.clone()),
                lit("informational"),
                Some(lit("HTML meta generator exposes the CMS + version")),
                no_meta(),
            );
        }
        let ghost s4 = items_view(items@);
        assert(s4 =~= s3 + core_generator_part(*v));
        if let Some(r) = v.readme_accessible {
            add_item(
                &mut items,
                lit("readme.txt accessible"),
                Some(bool_string(r)),
                if r { lit("low") } else { lit("informational") },
                if r { Some(lit("Public readme.txt leaks the exact core/plugin versions")) } else { None },
                no_meta(),
            );
        }
        assert(items_view(items@) =~= s4 + core_readme_part(*v));
        assert(items_view(items@) =~= core_items(*check));
    } else {
        proof {
            assert(items_view(items@) =~= core_items(*check));
        }
    }
    finish_node("core", "Core", "infrastructure", note.as_str(), items)
}


// ─── Item patterns shared by the builders ──────────────────────────────────

pub open spec fn lit_opt(d: Option<&str>) -> Option<Seq<char>> {
    match d {
        Some(x) => Some(x@),
        None => None,
    }
}

/// A yes/no item: informational when false, `sev_true` (with `detail`) when true.
pub open spec fn flag_item(
    label: Seq<char>,
    b: bool,
    sev_true: Seq<char>,
    detail: Option<Seq<char>>,
) -> ItemV {
    iv(
        label,
        Some(bool_str(b)),
        if b {
            sev_true
        } else {
            "informational"@
        },
        if b {
            detail
        } else {
            None
        },
        seq![],
    )
}

pub open spec fn flag_part(
    label: Seq<char>,
    o: Option<bool>,
    sev_true: Seq<char>,
    detail: Option<Seq<char>>,
) -> Seq<ItemV> {
    match o {
        Some(b) => seq![flag_item(label, b, sev_true, detail)],
        None => seq![],
    }
}

pub open spec fn count_part(label: Seq<char>, o: Option<usize>) -> Seq<ItemV> {
    match o {
        Some(n) => seq![iv(label, Some(decimal(n as nat)), "informational"@, None, seq![])],
        None => seq![],
    }
}

pub open spec fn text_part(label: Seq<char>, o: Option<String>) -> Seq<ItemV> {
    match o {
        Some(t) => seq![iv(label, Some(t@), "informational"@, None, seq![])],
        None => seq![],
    }
}

/// One item per value, all under the same label and severity.
pub open spec fn each_value(label: Seq<char>, vals: Seq<String>, sev: Seq<char>) -> Seq<ItemV> {
    vals.map_values(|v: String| iv(label, Some(v@), sev, None, seq![]))
}

pub fn usize_string(n: usize) -> (r: String)
    ensures
        r@ == decimal(n as nat),
{
    decimal_string(n as u64)
}

fn add_flag(
    items: &mut Vec<AttackSurfaceItem>,
    label: &str,
    o: Option<bool>,
    sev_true: &str,
    detail: Option<&str>,
)
    ensures
        items_view(final(items)@) == items_view(old(items)@) + flag_part(
            label@,
            o,
            sev_true@,
            lit_opt(detail),
        ),
{
    let ghost before = items_view(items@);
    if let Some(b) = o {
        let d = if b {
            match detail {
                Some(x) => Some(lit(x)),
                None => None,
            }
        } else {
            None
        };
        add_item(
            items,
            lit(label),
            Some(bool_string(b)),
            if b {
                lit(sev_true)
            } else {
                lit("informational")
            },
            d,
            no_meta(),
        );
    }
    assert(items_view(items@) =~= before + flag_part(label@, o, sev_true@, lit_opt(detail)));
}

fn add_count(items: &mut Vec<AttackSurfaceItem>, label: &str, o: Option<usize>)
    ensures
        items_view(final(items)@) == items_view(old(items)@) + count_part(label@, o),
{
    let ghost before = items_view(items@);
    if let Some(n) = o {
        add_item(items, lit(label), Some(usize_string(n)), lit("informational"), None, no_meta());
    }
    assert(items_view(items@) =~= before + count_part(label@, o));
}

fn add_text(items: &mut Vec<AttackSurfaceItem>, label: &str, o: &Option<String>)
    ensures
        items_view(final(items)@) == items_view(old(items)@) + text_part(label@, *o),
{
    let ghost before = items_view(items@);
    if let Some(t) = o {
        add_item(items, lit(label), Some(t.clone()), lit("informational"), None, no_meta());
    }
    assert(items_view(items@) =~= before + text_part(label@, *o));
}

fn add_each(items: &mut Vec<AttackSurfaceItem>, label: &str, vals: &Vec<String>, sev: &str)
    ensures
        items_view(final(items)@) == items_view(old(items)@) + each_value(label@, vals@, sev@),
{
    let ghost before = items_view(items@);
    let mut i: usize = 0;
    while i < vals.len()
        invariant
            i <= vals@.len(),
            items_view(items@) == before + each_value(label@, vals@.take(i as int), sev@),
        decreases vals@.len() - i,
    {
        add_item(items, lit(label), Some(vals[i].clone()), lit(sev), None, no_meta());
        assert(each_value(label@, vals@.take(i + 1), sev@) =~= each_value(
            label@,
            vals@.take(i as int),
            sev@,
        ).push(iv(label@, Some(vals@[i as int]@), sev@, None, seq![])));
        i = i + 1;
    }
    assert(vals@.take(vals@.len() as int) =~= vals@);
}

// ─── Authentication ─────────────────────────────────────────────────────────

pub open spec fn xmlrpc_part(x: Option<XmlrpcSource>) -> Seq<ItemV> {
    match x {
        None => seq![],
        Some(v) => {
            let avail = bool_or(v.available, false);
            seq![
                iv(
                    "XML-RPC endpoint"@,
                    Some(
                        if avail {
                            "open"@
                        } else {
                            "closed"@
                        },
                    ),
                    if avail {
                        "medium"@
                    } else {
                        "informational"@
                    },
                    if avail {
                        Some("Legacy interface — amplification / brute-force vector"@)
                    } else {
                        None
                    },
                    seq![],
                ),
            ] + count_part("Methods exposed"@, v.method_count) + flag_part(
                "system.multicall"@,
                v.multicall,
                "high"@,
                Some("Batched requests enable password-guessing amplification"@),
            ) + flag_part(
                "Pingback"@,
                v.pingback,
                "high"@,
                Some("pingback.ping → SSRF / reflection amplification"@),
            ) + flag_part(
                "system.getCapabilities"@,
                v.system_get_capabilities,
                "medium"@,
                Some("Can leak usernames to unauthenticated callers"@),
            ) + each_value("Interesting method"@, v.interesting@, "medium"@)
        },
    }
}

pub open spec fn users_part(u: Option<UsersSource>) -> Seq<ItemV> {
    match u {
        None => seq![],
        Some(v) => seq![
            iv(
                "Users enumerated"@,
                Some(decimal(v.user_count as nat)),
                if v.user_count > 0 {
                    "medium"@
                } else {
                    "informational"@
                },
                if v.user_count > 0 {
                    Some("Public user enumeration feeds credential / phishing attacks"@)
                } else {
                    None
                },
                seq![],
            ),
        ] + flag_part("REST user endpoint open"@, v.rest_users_enabled, "medium"@, None)
            + flag_part("Author archive enumeration"@, v.author_enum_works, "medium"@, None),
    }
}

pub open spec fn auth_note(x: Option<XmlrpcSource>) -> Seq<char> {
    let open = match x {
        Some(v) => bool_or(v.available, false),
        None => false,
    };
    if open {
        "XML-RPC open — extra auth surface"@
    } else {
        "Authentication surfaces mapped"@
    }
}

pub fn authentication_node(xmlrpc: &Option<XmlrpcSource>, users: &Option<UsersSource>) -> (n:
    AttackSurfaceNode)
    ensures
        node_view(n) == finished(
            "authentication"@,
            "Authentication"@,
            "authentication"@,
            auth_note(*xmlrpc),
            xmlrpc_part(*xmlrpc) + users_part(*users),
        ),
{
    let mut items: Vec<AttackSurfaceItem> = Vec::new();
    assert(items_view(items@) =~= Seq::<ItemV>::empty());
    let mut open = false;
    if let Some(v) = xmlrpc {
        let avail = match v.available {
            Some(b) => b,
            None => false,
        };
        open = avail;
        add_item(
            &mut items,
            lit("XML-RPC endpoint"),
            Some(if avail { lit("open") } else { lit("closed") }),
            if avail { lit("medium") } else { lit("informational") },
            if avail { Some(lit("Legacy interface — amplification / brute-force vector")) } else { None },
            no_meta(),
        );
        add_count(&mut items, "Methods exposed", v.method_count);
        add_flag(
            &mut items,
            "system.multicall",
            v.multicall,
            "high",
            Some("Batched requests enable password-guessing amplification"),
        );
        add_flag(
            &mut items,
            "Pingback",
            v.pingback,
            "high",
            Some("pingback.ping → SSRF / reflection amplification"),
        );
        add_flag(
            &mut items,
            "system.getCapabilities",
            v.system_get_capabilities,
            "medium",
            Some("Can leak usernames to unauthenticated callers"),
        );
        add_each(&mut items, "Interesting method", &v.interesting, "medium");
    }
    let ghost mid = items_view(items@);
    assert(mid =~= xmlrpc_part(*xmlrpc));
    if let Some(v) = users {
        let n = v.user_count;
        add_item(
            &mut items,
            lit("Users enumerated"),
            Some(usize_string(n)),
            if n > 0 { lit("medium") } else { lit("informational") },
            if n > 0 {
                Some(lit("Public user enumeration feeds credential / phishing attacks"))
            } else {
                None
            },
            no_meta(),
        );
        add_flag(&mut items, "REST user endpoint open", v.rest_users_enabled, "medium", None);
        add_flag(&mut items, "Author archive enumeration", v.author_enum_works, "medium", None);
    }
    assert(items_view(items@) =~= mid + users_part(*users));
    let note = if open {
        "XML-RPC open — extra auth surface"
    } else {
        "Authentication surfaces mapped"
    };
    finish_node("authentication", "Authentication", "authentication", note, items)
}


// ─── REST ───────────────────────────────────────────────────────────────────

pub open spec fn route_items(vals: Seq<String>) -> Seq<ItemV> {
    vals.map_values(|v: String| iv(v@, Some("exposed"@), "high"@, None, seq![]))
}

pub open spec fn interesting_part(routes: Seq<String>) -> Seq<ItemV> {
    if routes.len() == 0 {
        seq![]
    } else {
        seq![
            iv(
                "Interesting routes"@,
                Some(decimal(routes.len())),
                "high"@,
                Some("Routes exposing users / plugins / themes / settings / upload"@),
                seq![],
            ),
        ] + route_items(routes)
    }
}

pub open spec fn rest_items(r: Option<RestSource>) -> Seq<ItemV> {
    match r {
        None => seq![],
        Some(v) => seq![
            iv(
                "REST API"@,
                Some(
                    if bool_or(v.available, false) {
                        "enabled"@
                    } else {
                        "disabled"@
                    },
                ),
                "informational"@,
                None,
                seq![],
            ),
        ] + count_part("Route count"@, v.route_count) + interesting_part(v.interesting_routes@)
            + each_value("Namespace"@, v.namespaces@, "informational"@) + text_part(
            "REST-reported version"@,
            v.wp_version,
        ),
    }
}

pub open spec fn rest_note(r: Option<RestSource>) -> Seq<char> {
    let n: nat = match r {
        Some(v) => v.interesting_routes@.len(),
        None => 0,
    };
    if n > 0 {
        decimal(n) + " interesting routes exposed"@
    } else {
        "REST surface mapped"@
    }
}

fn add_routes(items: &mut Vec<AttackSurfaceItem>, vals: &Vec<String>)
    ensures
        items_view(final(items)@) == items_view(old(items)@) + route_items(vals@),
{
    let ghost before = items_view(items@);
    let mut i: usize = 0;
    while i < vals.len()
        invariant
            i <= vals@.len(),
            items_view(items@) == before + route_items(vals@.take(i as int)),
        decreases vals@.len() - i,
    {
        add_item(items, vals[i].clone(), Some(lit("exposed")), lit("high"), None, no_meta());
        assert(route_items(vals@.take(i + 1)) =~= route_items(vals@.take(i as int)).push(
            iv(vals@[i as int]@, Some("exposed"@), "high"@, None, seq![]),
        ));
        i = i + 1;
    }
    assert(vals@.take(vals@.len() as int) =~= vals@);
}

pub fn rest_node(rest: &Option<RestSource>) -> (n: AttackSurfaceNode)
    ensures
        node_view(n) == finished("rest"@, "REST API"@, "rest"@, rest_note(*rest), rest_items(*rest)),
{
    let mut items: Vec<AttackSurfaceItem> = Vec::new();
    assert(items_view(items@) =~= Seq::<ItemV>::empty());
    let mut interesting: usize = 0;
    if let Some(v) = rest {
        let avail = match v.available {
            Some(b) => b,
            None => false,
        };
        add_item(
            &mut items,
            lit("REST API"),
            Some(if avail { lit("enabled") } else { lit("disabled") }),
            lit("informational"),
            None,
            no_meta(),
        );
        add_count(&mut items, "Route count", v.route_count);
        let ghost s1 = items_view(items@);
        interesting = v.interesting_routes.len();
        if interesting > 0 {
            add_item(
                &mut items,
                lit("Interesting routes"),
                Some(usize_string(interesting)),
                lit("high"),
                Some(lit("Routes exposing users / plugins / themes / settings / upload")),
                no_meta(),
            );
            add_routes(&mut items, &v.interesting_routes);
        }
        assert(items_view(items@) =~= s1 + interesting_part(v.interesting_routes@));
        add_each(&mut items, "Namespace", &v.namespaces, "informational");
        add_text(&mut items, "REST-reported version", &v.wp_version);
        assert(items_view(items@) =~= rest_items(*rest));
    }
    assert(items_view(items@) =~= rest_items(*rest));
    let note = if interesting > 0 {
        let mut c = decimal_chars(interesting as u64);
        push_str(&mut c, " interesting routes exposed");
        string_of(c.as_slice())
    } else {
        lit("REST surface mapped")
    };
    finish_node("rest", "REST API", "rest", note.as_str(), items)
}


// ─── Plugins / themes ───────────────────────────────────────────────────────

pub open spec fn opt_u64(o: Option<u64>) -> nat {
    match o {
        Some(x) => x as nat,
        None => 0,
    }
}

/// Known vulnerabilities counted for a hit (only looked up with a version).
pub open spec fn hit_vulns(h: ComponentHit) -> nat {
    match h.version {
        Some(_) => match h.vuln_count {
            Some(c) => c as nat,
            None => 0,
        },
        None => 0,
    }
}

pub open spec fn hit_version_meta(h: ComponentHit) -> Seq<(Seq<char>, Seq<char>)> {
    match h.version {
        None => seq![],
        Some(vv) => (match h.vuln_count {
            Some(c) => if c > 0 {
                seq![("vulnerabilities"@, decimal(c as nat))]
            } else {
                seq![]
            },
            None => seq![],
        }) + (match h.latest_version {
            Some(l) => seq![
                ("latest_version"@, l@),
                (
                    "outdated"@,
                    if l@ != vv@ {
                        "yes"@
                    } else {
                        "no"@
                    },
                ),
            ],
            None => seq![],
        }),
    }
}

/// Item of one detected plugin/theme: high with known vulnerabilities,
/// informational with a version, low without one.
pub open spec fn hit_item(h: ComponentHit) -> ItemV {
    iv(
        or_default(h.slug, "?"@),
        ov(h.version),
        if hit_vulns(h) > 0 {
            "high"@
        } else if h.version is Some {
            "informational"@
        } else {
            "low"@
        },
        None,
        seq![
            ("evidence"@, or_default(h.evidence, ""@)),
            ("confidence"@, decimal(opt_u64(h.confidence)) + "/100"@),
            ("evidence_explainer"@, or_default(h.evidence_explainer, ""@)),
        ] + hit_version_meta(h),
    )
}

pub open spec fn hits_items(hs: Seq<ComponentHit>) -> Seq<ItemV> {
    hs.map_values(|h: ComponentHit| hit_item(h))
}

pub open spec fn hits_vulns(hs: Seq<ComponentHit>) -> nat
    decreases hs.len(),
{
    if hs.len() == 0 {
        0
    } else {
        hits_vulns(hs.drop_last()) + hit_vulns(hs.last())
    }
}

pub proof fn lemma_hits_vulns_prefix(hs: Seq<ComponentHit>, k: int)
    requires
        0 <= k <= hs.len(),
    ensures
        hits_vulns(hs.take(k)) <= hits_vulns(hs),
    decreases hs.len() - k,
{
    if k < hs.len() {
        lemma_hits_vulns_prefix(hs, k + 1);
        assert(hs.take(k + 1).drop_last() =~= hs.take(k));
    } else {
        assert(hs.take(k) =~= hs);
    }
}

pub fn text_or(o: &Option<String>, d: &str) -> (r: String)
    ensures
        r@ == or_default(*o, d@),
{
    match o {
        Some(x) => x.clone(),
        None => lit(d),
    }
}

fn component_item(h: &ComponentHit) -> (r: (AttackSurfaceItem, usize))
    ensures
        item_view(r.0) == hit_item(*h),
        r.1 == hit_vulns(*h),
{
    let mut meta = no_meta();
    push_meta(&mut meta, lit("evidence"), text_or(&h.evidence, ""));
    let conf: u64 = match h.confidence {
        Some(c) => c,
        None => 0,
    };
    let mut cc = decimal_chars(conf);
    push_str(&mut cc, "/100");
    push_meta(&mut meta, lit("confidence"), string_of(cc.as_slice()));
    push_meta(&mut meta, lit("evidence_explainer"), text_or(&h.evidence_explainer, ""));
    let ghost base = meta_view(meta@);
    assert(base =~= seq![
        ("evidence"@, or_default(h.evidence, ""@)),
        ("confidence"@, decimal(opt_u64(h.confidence)) + "/100"@),
        ("evidence_explainer"@, or_default(h.evidence_explainer, ""@)),
    ]);
    let mut vulns: usize = 0;
    if let Some(vv) = &h.version {
        if let Some(c) = h.vuln_count {
            vulns = c;
            if c > 0 {
                push_meta(&mut meta, lit("vulnerabilities"), usize_string(c));
            }
        }
        if let Some(l) = &h.latest_version {
            let outdated = !str_eq(l.as_str(), vv.as_str());
            push_meta(&mut meta, lit("latest_version"), l.clone());
            push_meta(&mut meta, lit("outdated"), if outdated { lit("yes") } else { lit("no") });
        }
    }
    assert(meta_view(meta@) =~= base + hit_version_meta(*h));
    let severity = if vulns > 0 {
        lit("high")
    } else if h.version.is_some() {
        lit("informational")
    } else {
        lit("low")
    };
    let it = AttackSurfaceItem {
        label: text_or(&h.slug, "?"),
        value: opt_clone(&h.version),
        severity,
        detail: None,
        meta,
    };
    (it, vulns)
}

fn add_hits(items: &mut Vec<AttackSurfaceItem>, hits: &Vec<ComponentHit>) -> (total: usize)
    requires
        hits_vulns(hits@) <= usize::MAX,
    ensures
        items_view(final(items)@) == items_view(old(items)@) + hits_items(hits@),
        total == hits_vulns(hits@),
{
    let ghost before = items_view(items@);
    let mut total: usize = 0;
    let mut i: usize = 0;
    while i < hits.len()
        invariant
            i <= hits@.len(),
            hits_vulns(hits@) <= usize::MAX,
            items_view(items@) == before + hits_items(hits@.take(i as int)),
            total == hits_vulns(hits@.take(i as int)),
        decreases hits@.len() - i,
    {
        let (it, c) = component_item(&hits[i]);
        proof {
            assert(hits@.take(i + 1).drop_last() =~= hits@.take(i as int));
            lemma_hits_vulns_prefix(hits@, i + 1);
        }
        total = total + c;
        let ghost prev = items_view(items@);
        items.push(it);
        assert(items_view(items@) =~= prev.push(item_view(it)));
        assert(hits_items(hits@.take(i + 1)) =~= hits_items(hits@.take(i as int)).push(
            hit_item(hits@[i as int]),
        ));
        assert(items_view(items@) =~= before + hits_items(hits@.take(i + 1)));
        i = i + 1;
    }
    assert(hits@.take(hits@.len() as int) =~= hits@);
    total
}

pub open spec fn plugins_items(p: Option<PluginsSource>) -> Seq<ItemV> {
    match p {
        None => seq![],
        Some(v) => seq![
            iv(
                "Plugins detected"@,
                Some(decimal(v.plugins@.len())),
                if v.plugins@.len() == 0 {
                    "informational"@
                } else {
                    "low"@
                },
                None,
                seq![],
            ),
        ] + hits_items(v.plugins@),
    }
}

pub open spec fn plugins_vulns(p: Option<PluginsSource>) -> nat {
    match p {
        Some(v) => hits_vulns(v.plugins@),
        None => 0,
    }
}

pub open spec fn vulns_note(total: nat, kind: Seq<char>, fallback: Seq<char>) -> Seq<char> {
    if total > 0 {
        decimal(total) + " known vulns across detected "@ + kind
    } else {
        fallback
    }
}

fn vulns_note_exec(total: usize, kind: &str, fallback: &str) -> (r: String)
    ensures
        r@ == vulns_note(total as nat, kind@, fallback@),
{
    if total > 0 {
        let mut c = decimal_chars(total as u64);
        push_str(&mut c, " known vulns across detected ");
        push_str(&mut c, kind);
        string_of(c.as_slice())
    } else {
        lit(fallback)
    }
}

pub fn plugins_node(plugins: &Option<PluginsSource>) -> (n: AttackSurfaceNode)
    requires
        plugins_vulns(*plugins) <= usize::MAX,
    ensures
        node_view(n) == finished(
            "plugins"@,
            "Plugins"@,
            "plugins"@,
            vulns_note(plugins_vulns(*plugins), "plugins"@, "Installed plugins + versions"@),
            plugins_items(*plugins),
        ),
{
    let mut items: Vec<AttackSurfaceItem> = Vec::new();
    assert(items_view(items@) =~= Seq::<ItemV>::empty());
    let mut total: usize = 0;
    if let Some(v) = plugins {
        let n = v.plugins.len();
        add_item(
            &mut items,
            lit("Plugins detected"),
            Some(usize_string(n)),
            if n == 0 { lit("informational") } else { lit("low") },
            None,
            no_meta(),
        );
        total = add_hits(&mut items, &v.plugins);
    }
    assert(items_view(items@) =~= plugins_items(*plugins));
    let note = vulns_note_exec(total, "plugins", "Installed plugins + versions");
    finish_node("plugins", "Plugins", "plugins", note.as_str(), items)
}

pub open spec fn themes_items(t: Option<ThemesSource>) -> Seq<ItemV> {
    match t {
        None => seq![],
        Some(v) => (match v.active_guess {
            Some(a) => seq![
                iv(
                    "Active theme (guess)"@,
                    Some(a@),
                    "informational"@,
                    Some("Inferred from page assets — verify manually"@),
                    seq![],
                ),
            ],
            None => seq![],
        }) + seq![
            iv(
                "Themes detected"@,
                Some(decimal(v.themes@.len())),
                if v.themes@.len() == 0 {
                    "informational"@
                } else {
                    "low"@
                },
                None,
                seq![],
            ),
        ] + hits_items(v.themes@),
    }
}

pub open spec fn themes_vulns(t: Option<ThemesSource>) -> nat {
    match t {
        Some(v) => hits_vulns(v.themes@),
        None => 0,
    }
}

pub fn themes_node(themes: &Option<ThemesSource>) -> (n: AttackSurfaceNode)
    requires
        themes_vulns(*themes) <= usize::MAX,
    ensures
        node_view(n) == finished(
            "themes"@,
            "Themes"@,
            "themes"@,
            vulns_note(themes_vulns(*themes), "themes"@, "Installed themes + versions"@),
            themes_items(*themes),
        ),
{
    let mut items: Vec<AttackSurfaceItem> = Vec::new();
    assert(items_view(items@) =~= Seq::<ItemV>::empty());
    let mut total: usize = 0;
    if let Some(v) = themes {
        if let Some(a) = &v.active_guess {
            add_item(
                &mut items,
                lit("Active theme (guess)"),
                Some(a.clone()),
                lit("informational"),
                Some(lit("Inferred from page assets — verify manually")),
                no_meta(),
            );
        }
        let n = v.themes.len();
        add_item(
            &mut items,
            lit("Themes detected"),
            Some(usize_string(n)),
            if n == 0 { lit("informational") } else { lit("low") },
            None,
            no_meta(),
        );
        total = add_hits(&mut items, &v.themes);
    }
    assert(items_view(items@) =~= themes_items(*themes));
    let note = vulns_note_exec(total, "themes", "Installed themes + versions");
    finish_node("themes", "Themes", "themes", note.as_str(), items)
}


// ─── Sensitive files ────────────────────────────────────────────────────────

pub open spec fn finding_meta(f: PathFinding) -> Seq<(Seq<char>, Seq<char>)> {
    (match f.length {
        Some(l) => seq![("length"@, decimal(l as nat))],
        None => seq![],
    }) + (if or_default(f.risk, ""@).len() > 0 {
        seq![("risk"@, or_default(f.risk, ""@))]
    } else {
        seq![]
    })
}

/// A reachable path: its HTTP status as value, severity from its risk rating.
pub open spec fn finding_item(f: PathFinding) -> ItemV {
    let note = or_default(f.note, ""@);
    iv(
        or_default(f.path, "?"@),
        match f.status {
            Some(st) => Some(decimal(st as nat)),
            None => None,
        },
        sev_spec(or_default(f.risk, ""@)),
        if note.len() == 0 {
            None
        } else {
            Some(note)
        },
        finding_meta(f),
    )
}

pub open spec fn files_items(p: Option<PathsSource>) -> Seq<ItemV> {
    match p {
        None => seq![],
        Some(v) => seq![
            iv(
                "Sensitive files exposed"@,
                Some(decimal(v.findings@.len())),
                if v.findings@.len() == 0 {
                    "informational"@
                } else {
                    "medium"@
                },
                None,
                seq![],
            ),
        ] + v.findings@.map_values(|f: PathFinding| finding_item(f)) + count_part(
            "Paths probed"@,
            v.probed,
        ),
    }
}

pub open spec fn files_note(p: Option<PathsSource>) -> Seq<char> {
    let n: nat = match p {
        Some(v) => v.findings@.len(),
        None => 0,
    };
    if n > 0 {
        decimal(n) + " sensitive files reachable"@
    } else {
        "No exposed sensitive files"@
    }
}

fn path_item(f: &PathFinding) -> (it: AttackSurfaceItem)
    ensures
        item_view(it) == finding_item(*f),
{
    let risk = text_or(&f.risk, "");
    let note = text_or(&f.note, "");
    let mut meta = no_meta();
    if let Some(l) = f.length {
        push_meta(&mut meta, lit("length"), decimal_string(l));
    }
    let ghost m1 = meta_view(meta@);
    if chars_of(risk.as_str()).len() > 0 {
        push_meta(&mut meta, lit("risk"), risk.clone());
    }
    assert(meta_view(meta@) =~= finding_meta(*f));
    let status = match f.status {
        Some(st) => Some(decimal_string(st)),
        None => None,
    };
    let detail = if chars_of(note.as_str()).len() == 0 {
        None
    } else {
        Some(note)
    };
    AttackSurfaceItem {
        label: text_or(&f.path, "?"),
        value: status,
        severity: lit(sev(risk.as_str())),
        detail,
        meta,
    }
}

pub fn files_node(paths: &Option<PathsSource>) -> (n: AttackSurfaceNode)
    ensures
        node_view(n) == finished(
            "files"@,
            "Sensitive Files"@,
            "files"@,
            files_note(*paths),
            files_items(*paths),
        ),
{
    let mut items: Vec<AttackSurfaceItem> = Vec::new();
    assert(items_view(items@) =~= Seq::<ItemV>::empty());
    let mut exposed: usize = 0;
    if let Some(v) = paths {
        exposed = v.findings.len();
        add_item(
            &mut items,
            lit("Sensitive files exposed"),
            Some(usize_string(exposed)),
            if exposed == 0 { lit("informational") } else { lit("medium") },
            None,
            no_meta(),
        );
        let ghost before = items_view(items@);
        let mut i: usize = 0;
        while i < v.findings.len()
            invariant
                i <= v.findings@.len(),
                items_view(items@) == before + v.findings@.take(i as int).map_values(
                    |f: PathFinding| finding_item(f),
                ),
            decreases v.findings@.len() - i,
        {
            let it = path_item(&v.findings[i]);
            let ghost prev = items_view(items@);
            items.push(it);
            assert(items_view(items@) =~= prev.push(item_view(it)));
            assert(v.findings@.take(i + 1).map_values(|f: PathFinding| finding_item(f))
                =~= v.findings@.take(i as int).map_values(|f: PathFinding| finding_item(f)).push(
                finding_item(v.findings@[i as int]),
            ));
            i = i + 1;
        }
        assert(v.findings@.take(v.findings@.len() as int) =~= v.findings@);
        add_count(&mut items, "Paths probed", v.probed);
    }
    assert(items_view(items@) =~= files_items(*paths));
    let note = if exposed > 0 {
        let mut c = decimal_chars(exposed as u64);
        push_str(&mut c, " sensitive files reachable");
        string_of(c.as_slice())
    } else {
        lit("No exposed sensitive files")
    };
    finish_node("files", "Sensitive Files", "files", note.as_str(), items)
}

// ─── Headers / infrastructure ───────────────────────────────────────────────

/// Value of the first header whose name equals `key` ignoring ASCII case
/// (`None` also when that header's value is not a string).
pub open spec fn header_lookup(hs: Seq<HeaderEntry>, key: Seq<char>) -> Option<Seq<char>>
    decreases hs.len(),
{
    if hs.len() == 0 {
        None
    } else if eq_ignore_ascii_case(hs[0].name@, key) {
        ov(hs[0].value)
    } else {
        header_lookup(hs.drop_first(), key)
    }
}

pub fn find_header(hs: &Vec<HeaderEntry>, key: &str) -> (r: Option<String>)
    ensures
        ov(r) == header_lookup(hs@, key@),
{
    let mut i: usize = 0;
    assert(hs@.skip(0) =~= hs@);
    while i < hs.len()
        invariant
            i <= hs@.len(),
            header_lookup(hs@, key@) == header_lookup(hs@.skip(i as int), key@),
        decreases hs@.len() - i,
    {
        assert(hs@.skip(i as int).drop_first() =~= hs@.skip(i + 1));
        assert(hs@.skip(i as int)[0] == hs@[i as int]);
        if str_eq_ignore_ascii_case(hs[i].name.as_str(), key) {
            return opt_clone(&hs[i].value);
        }
        i = i + 1;
    }
    assert(hs@.skip(i as int).len() == 0);
    None
}

/// The security headers checked: (lower-case name, display name, severity when missing).
pub open spec fn header_row(k: int) -> (Seq<char>, Seq<char>, Seq<char>) {
    if k == 0 {
        ("content-security-policy"@, "Content-Security-Policy"@, "medium"@)
    } else if k == 1 {
        ("strict-transport-security"@, "Strict-Transport-Security"@, "medium"@)
    } else if k == 2 {
        ("x-content-type-options"@, "X-Content-Type-Options"@, "medium"@)
    } else if k == 3 {
        ("x-frame-options"@, "X-Frame-Options"@, "low"@)
    } else if k == 4 {
        ("referrer-policy"@, "Referrer-Policy"@, "low"@)
    } else {
        ("permissions-policy"@, "Permissions-Policy"@, "low"@)
    }
}

fn header_row_exec(k: usize) -> (r: (&'static str, &'static str, &'static str))
    requires
        k < 6,
    ensures
        (r.0@, r.1@, r.2@) == header_row(k as int),
{
    if k == 0 {
        ("content-security-policy", "Content-Security-Policy", "medium")
    } else if k == 1 {
        ("strict-transport-security", "Strict-Transport-Security", "medium")
    } else if k == 2 {
        ("x-content-type-options", "X-Content-Type-Options", "medium")
    } else if k == 3 {
        ("x-frame-options", "X-Frame-Options", "low")
    } else if k == 4 {
        ("referrer-policy", "Referrer-Policy", "low")
    } else {
        ("permissions-policy", "Permissions-Policy", "low")
    }
}

pub open spec fn header_item(hs: Seq<HeaderEntry>, k: int) -> ItemV {
    let row = header_row(k);
    match header_lookup(hs, row.0) {
        Some(val) => iv(
            row.1,
            Some("present"@),
            "informational"@,
            Some(row.1 + ": "@ + val),
            seq![],
        ),
        None => iv(row.1, Some("missing"@), row.2, Some("No "@ + row.1 + " header set"@), seq![]),
    }
}

pub open spec fn header_items_upto(hs: Seq<HeaderEntry>, k: nat) -> Seq<ItemV>
    decreases k,
{
    if k == 0 {
        seq![]
    } else {
        header_items_upto(hs, (k - 1) as nat).push(header_item(hs, k - 1))
    }
}

pub open spec fn missing_upto(hs: Seq<HeaderEntry>, k: nat) -> nat
    decreases k,
{
    if k == 0 {
        0
    } else {
        missing_upto(hs, (k - 1) as nat) + if header_lookup(hs, header_row(k - 1).0) is None {
            1nat
        } else {
            0nat
        }
    }
}

pub open spec fn check_headers(check: Option<WpCheckSource>) -> Option<Seq<HeaderEntry>> {
    match check {
        Some(v) => match v.headers {
            Some(hs) => Some(hs@),
            None => None,
        },
        None => None,
    }
}

pub open spec fn headers_items(check: Option<WpCheckSource>) -> Seq<ItemV> {
    match check_headers(check) {
        Some(hs) => header_items_upto(hs, 6),
        None => seq![],
    }
}

pub open spec fn headers_note(check: Option<WpCheckSource>) -> Seq<char> {
    let m: nat = match check_headers(check) {
        Some(hs) => missing_upto(hs, 6),
        None => 0,
    };
    if m > 0 {
        decimal(m) + " security headers missing"@
    } else {
        "Security headers present"@
    }
}

pub fn headers_node(check: &Option<WpCheckSource>) -> (n: AttackSurfaceNode)
    ensures
        node_view(n) == finished(
            "headers"@,
            "Security Headers"@,
            "infrastructure"@,
            headers_note(*check),
            headers_items(*check),
        ),
{
    let mut items: Vec<AttackSurfaceItem> = Vec::new();
    assert(items_view(items@) =~= Seq::<ItemV>::empty());
    let mut missing: u64 = 0;
    if let Some(v) = check {
        if let Some(hs) = &v.headers {
            let mut k: usize = 0;
            while k < 6
                invariant
                    k <= 6,
                    items_view(items@) == header_items_upto(hs@, k as nat),
                    missing == missing_upto(hs@, k as nat),
                    missing <= k,
                decreases 6 - k,
            {
                let (lk, disp, sv) = header_row_exec(k);
                match find_header(hs, lk) {
                    Some(val) => {
                        let mut d = chars_of(disp);
                        push_str(&mut d, ": ");
                        push_all(&mut d, chars_of(val.as_str()).as_slice());
                        add_item(
                            &mut items,
                            lit(disp),
                            Some(lit("present")),
                            lit("informational"),
                            Some(string_of(d.as_slice())),
                            no_meta(),
                        );
                    },
                    None => {
                        missing = missing + 1;
                        let mut d = chars_of("No ");
                        push_str(&mut d, disp);
                        push_str(&mut d, " header set");
                        add_item(
                            &mut items,
                            lit(disp),
                            Some(lit("missing")),
                            lit(sv),
                            Some(string_of(d.as_slice())),
                            no_meta(),
                        );
                    },
                }
                k = k + 1;
            }
        }
    }
    assert(items_view(items@) =~= headers_items(*check));
    let note = if missing > 0 {
        let mut c = decimal_chars(missing);
        push_str(&mut c, " security headers missing");
        string_of(c.as_slice())
    } else {
        lit("Security headers present")
    };
    finish_node("headers", "Security Headers", "infrastructure", note.as_str(), items)
}

/// Host-level headers reported by the infrastructure node.
pub open spec fn infra_key(k: int) -> Seq<char> {
    if k == 0 {
        "server"@
    } else if k == 1 {
        "x-powered-by"@
    } else if k == 2 {
        "via"@
    } else if k == 3 {
        "x-cache"@
    } else {
        "content-type"@
    }
}

fn infra_key_exec(k: usize) -> (r: &'static str)
    requires
        k < 5,
    ensures
        r@ == infra_key(k as int),
{
    if k == 0 {
        "server"
    } else if k == 1 {
        "x-powered-by"
    } else if k == 2 {
        "via"
    } else if k == 3 {
        "x-cache"
    } else {
        "content-type"
    }
}

pub open spec fn infra_upto(hs: Seq<HeaderEntry>, k: nat) -> Seq<ItemV>
    decreases k,
{
    if k == 0 {
        seq![]
    } else {
        infra_upto(hs, (k - 1) as nat) + match header_lookup(hs, infra_key(k - 1)) {
            Some(val) => seq![iv(infra_key(k - 1), Some(val), "informational"@, None, seq![])],
            None => seq![],
        }
    }
}

pub open spec fn infra_items(check: Option<WpCheckSource>) -> Seq<ItemV> {
    let found = match check_headers(check) {
        Some(hs) => infra_upto(hs, 5),
        None => seq![],
    };
    if found.len() == 0 {
        seq![iv("Web server"@, Some("not fingerprinted"@), "informational"@, None, seq![])]
    } else {
        found
    }
}

pub fn infrastructure_node(check: &Option<WpCheckSource>) -> (n: AttackSurfaceNode)
    ensures
        node_view(n) == finished(
            "infrastructure"@,
            "Infrastructure"@,
            "infrastructure"@,
            "Host-level fingerprints"@,
            infra_items(*check),
        ),
{
    let mut items: Vec<AttackSurfaceItem> = Vec::new();
    assert(items_view(items@) =~= Seq::<ItemV>::empty());
    if let Some(v) = check {
        if let Some(hs) = &v.headers {
            let mut k: usize = 0;
            while k < 5
                invariant
                    k <= 5,
                    items_view(items@) == infra_upto(hs@, k as nat),
                decreases 5 - k,
            {
                let key = infra_key_exec(k);
                let ghost prev = items_view(items@);
                if let Some(val) = find_header(hs, key) {
                    add_item(&mut items, lit(key), Some(val), lit("informational"), None, no_meta());
                }
                assert(items_view(items@) =~= infra_upto(hs@, (k + 1) as nat));
                k = k + 1;
            }
        }
    }
    let ghost found = items_view(items@);
    assert(found =~= match check_headers(*check) {
        Some(hs) => infra_upto(hs, 5),
        None => seq![],
    });
    if items.len() == 0 {
        add_item(
            &mut items,
            lit("Web server"),
            Some(lit("not fingerprinted")),
            lit("informational"),
            None,
            no_meta(),
        );
    }
    assert(items_view(items@) =~= infra_items(*check));
    finish_node(
        "infrastructure",
        "Infrastructure",
        "infrastructure",
        "Host-level fingerprints",
        items,
    )
}


// ─── Vulnerabilities ────────────────────────────────────────────────────────

/// Severity of a Wordfence finding: its CVSS rating when given, else the
/// band of its score, else informational.
pub open spec fn wf_severity(f: WfFinding) -> Seq<char> {
    match f.cvss_rating {
        Some(r) => sev_spec(r@),
        None => match f.score_severity {
            Some(x) => x@,
            None => "informational"@,
        },
    }
}

pub open spec fn wf_component(f: WfFinding) -> Seq<char> {
    match f.name {
        Some(n) => n@,
        None => or_default(f.slug, ""@),
    }
}

pub open spec fn opt_pair(k: Seq<char>, o: Option<String>) -> Seq<(Seq<char>, Seq<char>)> {
    match o {
        Some(x) => seq![(k, x@)],
        None => seq![],
    }
}

pub open spec fn nonempty_pair(k: Seq<char>, v: Seq<char>) -> Seq<(Seq<char>, Seq<char>)> {
    if v.len() > 0 {
        seq![(k, v)]
    } else {
        seq![]
    }
}

pub open spec fn wf_meta(f: WfFinding) -> Seq<(Seq<char>, Seq<char>)> {
    opt_pair("cve"@, f.cve) + opt_pair("cvss"@, f.cvss_display) + nonempty_pair(
        "component"@,
        wf_component(f),
    ) + nonempty_pair("version"@, or_default(f.detected_version, ""@)) + seq![
        (
            "patched"@,
            if bool_or(f.patched, false) {
                "yes"@
            } else {
                "no"@
            },
        ),
    ] + opt_pair("remediation"@, f.remediation)
}

pub open spec fn wf_item(f: WfFinding) -> ItemV {
    iv(or_default(f.title, "Unknown finding"@), ov(f.cve), wf_severity(f), None, wf_meta(f))
}

pub open spec fn summary_line(c: WfSummaryCounts) -> Seq<char> {
    "critical "@ + decimal(opt_u64(c.critical)) + " · high "@ + decimal(opt_u64(c.high))
        + " · medium "@ + decimal(opt_u64(c.medium)) + " · low "@ + decimal(opt_u64(c.low))
}

pub open spec fn wf_part(v: Option<VulnSource>) -> Seq<ItemV> {
    match v {
        None => seq![],
        Some(x) => x.findings@.map_values(|f: WfFinding| wf_item(f)) + match x.summary {
            Some(c) => seq![
                iv("Wordfence scan summary"@, Some(summary_line(c)), "informational"@, None, seq![]),
            ],
            None => seq![],
        },
    }
}

pub open spec fn nuclei_item(f: NucleiFinding) -> ItemV {
    let sv = or_default(f.severity, ""@);
    iv(
        or_default(f.name, "Nuclei finding"@),
        if sv.len() == 0 {
            None
        } else {
            Some(sv)
        },
        sev_spec(sv),
        ov(f.matched_at),
        opt_pair("template"@, f.template_id) + opt_pair("matched_at"@, f.matched_at),
    )
}

pub open spec fn nuclei_part(n: Option<NucleiSource>) -> Seq<ItemV> {
    match n {
        None => seq![],
        Some(x) => x.findings@.map_values(|f: NucleiFinding| nuclei_item(f)),
    }
}

pub open spec fn vuln_items(v: Option<VulnSource>, n: Option<NucleiSource>) -> Seq<ItemV> {
    let all = wf_part(v) + nuclei_part(n);
    if all.len() == 0 {
        seq![iv("No known vulnerabilities"@, None, "informational"@, None, seq![])]
    } else {
        all
    }
}

pub open spec fn vuln_total(v: Option<VulnSource>, n: Option<NucleiSource>) -> nat {
    (match v {
        Some(x) => x.findings@.len(),
        None => 0,
    }) + (match n {
        Some(x) => x.findings@.len(),
        None => 0,
    })
}

pub open spec fn vuln_note(v: Option<VulnSource>, n: Option<NucleiSource>) -> Seq<char> {
    if vuln_total(v, n) > 0 {
        decimal(vuln_total(v, n)) + " findings (Wordfence + Nuclei)"@
    } else {
        "No findings from available sources"@
    }
}

fn push_opt_meta(meta: &mut Vec<[String; 2]>, k: &str, o: &Option<String>)
    ensures
        meta_view(final(meta)@) == meta_view(old(meta)@) + opt_pair(k@, *o),
{
    let ghost before = meta_view(meta@);
    if let Some(x) = o {
        push_meta(meta, lit(k), x.clone());
    }
    assert(meta_view(meta@) =~= before + opt_pair(k@, *o));
}

fn push_nonempty_meta(meta: &mut Vec<[String; 2]>, k: &str, v: String)
    ensures
        meta_view(final(meta)@) == meta_view(old(meta)@) + nonempty_pair(k@, v@),
{
    let ghost before = meta_view(meta@);
    if chars_of(v.as_str()).len() > 0 {
        push_meta(meta, lit(k), v);
    }
    assert(meta_view(meta@) =~= before + nonempty_pair(k@, v@));
}

fn wf_item_exec(f: &WfFinding) -> (it: AttackSurfaceItem)
    ensures
        item_view(it) == wf_item(*f),
{
    let s = match &f.cvss_rating {
        Some(r) => lit(sev(r.as_str())),
        None => match &f.score_severity {
            Some(x) => x.clone(),
            None => lit("informational"),
        },
    };
    let comp = match &f.name {
        Some(n) => n.clone(),
        None => text_or(&f.slug, ""),
    };
    let patched = match f.patched {
        Some(b) => b,
        None => false,
    };
    let mut meta = no_meta();
    push_opt_meta(&mut meta, "cve", &f.cve);
    push_opt_meta(&mut meta, "cvss", &f.cvss_display);
    push_nonempty_meta(&mut meta, "component", comp);
    push_nonempty_meta(&mut meta, "version", text_or(&f.detected_version, ""));
    push_meta(&mut meta, lit("patched"), if patched { lit("yes") } else { lit("no") });
    push_opt_meta(&mut meta, "remediation", &f.remediation);
    assert(meta_view(meta@) =~= wf_meta(*f));
    AttackSurfaceItem {
        label: text_or(&f.title, "Unknown finding"),
        value: opt_clone(&f.cve),
        severity: s,
        detail: None,
        meta,
    }
}

fn nuclei_item_exec(f: &NucleiFinding) -> (it: AttackSurfaceItem)
    ensures
        item_view(it) == nuclei_item(*f),
{
    let sv = text_or(&f.severity, "");
    let mut meta = no_meta();
    push_opt_meta(&mut meta, "template", &f.template_id);
    push_opt_meta(&mut meta, "matched_at", &f.matched_at);
    assert(meta_view(meta@) =~= opt_pair("template"@, f.template_id) + opt_pair(
        "matched_at"@,
        f.matched_at,
    ));
    let s = lit(sev(sv.as_str()));
    let value = if chars_of(sv.as_str()).len() == 0 {
        None
    } else {
        Some(sv)
    };
    AttackSurfaceItem {
        label: text_or(&f.name, "Nuclei finding"),
        value,
        severity: s,
        detail: opt_clone(&f.matched_at),
        meta,
    }
}

fn summary_line_exec(c: &WfSummaryCounts) -> (r: String)
    ensures
        r@ == summary_line(*c),
{
    let crit: u64 = match c.critical {
        Some(x) => x,
        None => 0,
    };
    let high: u64 = match c.high {
        Some(x) => x,
        None => 0,
    };
    let med: u64 = match c.medium {
        Some(x) => x,
        None => 0,
    };
    let low: u64 = match c.low {
        Some(x) => x,
        None => 0,
    };
    let mut out = chars_of("critical ");
    push_all(&mut out, decimal_chars(crit).as_slice());
    push_str(&mut out, " · high ");
    push_all(&mut out, decimal_chars(high).as_slice());
    push_str(&mut out, " · medium ");
    push_all(&mut out, decimal_chars(med).as_slice());
    push_str(&mut out, " · low ");
    push_all(&mut out, decimal_chars(low).as_slice());
    string_of(out.as_slice())
}

pub fn vulnerabilities_node(vuln: &Option<VulnSource>, nuclei: &Option<NucleiSource>) -> (n:
    AttackSurfaceNode)
    requires
        vuln_total(*vuln, *nuclei) <= usize::MAX,
    ensures
        node_view(n) == finished(
            "vulnerabilities"@,
            "Vulnerabilities"@,
            "vulnerabilities"@,
            vuln_note(*vuln, *nuclei),
            vuln_items(*vuln, *nuclei),
        ),
{
    let mut items: Vec<AttackSurfaceItem> = Vec::new();
    assert(items_view(items@) =~= Seq::<ItemV>::empty());
    let mut total: usize = 0;
    if let Some(v) = vuln {
        total = v.findings.len();
        let mut i: usize = 0;
        while i < v.findings.len()
            invariant
                i <= v.findings@.len(),
                items_view(items@) == v.findings@.take(i as int).map_values(
                    |f: WfFinding| wf_item(f),
                ),
            decreases v.findings@.len() - i,
        {
            let it = wf_item_exec(&v.findings[i]);
            let ghost prev = items_view(items@);
            items.push(it);
            assert(items_view(items@) =~= prev.push(item_view(it)));
            assert(v.findings@.take(i + 1).map_values(|f: WfFinding| wf_item(f))
                =~= v.findings@.take(i as int).map_values(|f: WfFinding| wf_item(f)).push(
                wf_item(v.findings@[i as int]),
            ));
            i = i + 1;
        }
        assert(v.findings@.take(v.findings@.len() as int) =~= v.findings@);
        if let Some(c) = &v.summary {
            add_item(
                &mut items,
                lit("Wordfence scan summary"),
                Some(summary_line_exec(c)),
                lit("informational"),
                None,
                no_meta(),
            );
        }
    }
    let ghost mid = items_view(items@);
    assert(mid =~= wf_part(*vuln));
    if let Some(x) = nuclei {
        total = total + x.findings.len();
        let mut i: usize = 0;
        while i < x.findings.len()
            invariant
                i <= x.findings@.len(),
                items_view(items@) == mid + x.findings@.take(i as int).map_values(
                    |f: NucleiFinding| nuclei_item(f),
                ),
            decreases x.findings@.len() - i,
        {
            let it = nuclei_item_exec(&x.findings[i]);
            let ghost prev = items_view(items@);
            items.push(it);
            assert(items_view(items@) =~= prev.push(item_view(it)));
            assert(x.findings@.take(i + 1).map_values(|f: NucleiFinding| nuclei_item(f))
                =~= x.findings@.take(i as int).map_values(|f: NucleiFinding| nuclei_item(f)).push(
                nuclei_item(x.findings@[i as int]),
            ));
            i = i + 1;
        }
        assert(x.findings@.take(x.findings@.len() as int) =~= x.findings@);
    }
    assert(items_view(items@) =~= wf_part(*vuln) + nuclei_part(*nuclei));
    if items.len() == 0 {
        add_item(
            &mut items,
            lit("No known vulnerabilities"),
            None,
            lit("informational"),
            None,
            no_meta(),
        );
    }
    assert(items_view(items@) =~= vuln_items(*vuln, *nuclei));
    let note = if total > 0 {
        let mut c = decimal_chars(total as u64);
        push_str(&mut c, " findings (Wordfence + Nuclei)");
        string_of(c.as_slice())
    } else {
        lit("No findings from available sources")
    };
    finish_node("vulnerabilities", "Vulnerabilities", "vulnerabilities", note.as_str(), items)
}


// ─── Summary ────────────────────────────────────────────────────────────────

pub open spec fn nodes_view(ns: Seq<AttackSurfaceNode>) -> Seq<NodeV> {
    ns.map_values(|n: AttackSurfaceNode| node_view(n))
}

/// Items of the first node with the given id (none when there is no such node).
pub open spec fn node_items(ns: Seq<NodeV>, id: Seq<char>) -> Seq<ItemV>
    decreases ns.len(),
{
    if ns.len() == 0 {
        seq![]
    } else if ns[0].id == id {
        ns[0].items
    } else {
        node_items(ns.drop_first(), id)
    }
}

/// Which items a summary figure counts.
pub enum Tally {
    /// Plugin entries (not the "Plugins detected" header item).
    Plugin,
    /// Theme entries (not the header or active-theme items).
    Theme,
    /// Items above informational.
    Finding,
    /// Items above informational, except the probe counter.
    File,
    /// Items above informational, except the Wordfence summary line.
    Vuln,
}

pub open spec fn counted(t: Tally, i: ItemV) -> bool {
    match t {
        Tally::Plugin => i.label != "Plugins detected"@,
        Tally::Theme => i.label != "Themes detected"@ && i.label != "Active theme (guess)"@,
        Tally::Finding => i.severity != "informational"@,
        Tally::File => i.severity != "informational"@ && i.label != "Paths probed"@,
        Tally::Vuln => i.severity != "informational"@ && i.label != "Wordfence scan summary"@,
    }
}

pub open spec fn count_where(s: Seq<ItemV>, t: Tally) -> nat
    decreases s.len(),
{
    if s.len() == 0 {
        0
    } else {
        count_where(s.drop_last(), t) + if counted(t, s.last()) {
            1nat
        } else {
            0nat
        }
    }
}

/// First item carrying the given label.
pub open spec fn first_labelled(s: Seq<ItemV>, label: Seq<char>) -> Option<ItemV>
    decreases s.len(),
{
    if s.len() == 0 {
        None
    } else if s[0].label == label {
        Some(s[0])
    } else {
        first_labelled(s.drop_first(), label)
    }
}

/// Route count read back from the REST node's "Route count" item (0 when
/// absent or not a number).
pub open spec fn route_count_of(s: Seq<ItemV>) -> nat {
    match first_labelled(s, "Route count"@) {
        Some(it) => match it.value {
            Some(v) => match parse_unsigned_spec(v, usize::MAX as nat) {
                Some(n) => n,
                None => 0,
            },
            None => 0,
        },
        None => 0,
    }
}

pub open spec fn total_findings(ns: Seq<NodeV>) -> nat
    decreases ns.len(),
{
    if ns.len() == 0 {
        0
    } else {
        total_findings(ns.drop_last()) + count_where(ns.last().items, Tally::Finding)
    }
}

pub open spec fn total_items(ns: Seq<NodeV>) -> nat
    decreases ns.len(),
{
    if ns.len() == 0 {
        0
    } else {
        total_items(ns.drop_last()) + ns.last().items.len()
    }
}

/// Highest status rank among the nodes (0 for none).
pub open spec fn max_status(ns: Seq<NodeV>) -> u8
    decreases ns.len(),
{
    if ns.len() == 0 {
        0
    } else {
        let r = max_status(ns.drop_last());
        let x = sev_rank_spec(ns.last().status);
        if x > r {
            x
        } else {
            r
        }
    }
}

pub struct SummaryV {
    pub core: Seq<char>,
    pub plugins: nat,
    pub themes: nat,
    pub rest_routes: nat,
    pub authentication: nat,
    pub sensitive_files: nat,
    pub known_vulns: nat,
    pub total_findings: nat,
    pub overall: Seq<char>,
}

pub open spec fn summary_view(s: AttackSurfaceSummary) -> SummaryV {
    SummaryV {
        core: s.core@,
        plugins: s.plugins as nat,
        themes: s.themes as nat,
        rest_routes: s.rest_routes as nat,
        authentication: s.authentication as nat,
        sensitive_files: s.sensitive_files as nat,
        known_vulns: s.known_vulns as nat,
        total_findings: s.total_findings as nat,
        overall: s.overall@,
    }
}

pub open spec fn core_label(check: Option<WpCheckSource>) -> Seq<char> {
    match check {
        Some(v) => match v.version {
            Some(x) => x@,
            None => "unknown"@,
        },
        None => "not scanned"@,
    }
}

pub open spec fn summary_spec(ns: Seq<NodeV>, check: Option<WpCheckSource>) -> SummaryV {
    SummaryV {
        core: core_label(check),
        plugins: count_where(node_items(ns, "plugins"@), Tally::Plugin),
        themes: count_where(node_items(ns, "themes"@), Tally::Theme),
        rest_routes: route_count_of(node_items(ns, "rest"@)),
        authentication: count_where(node_items(ns, "authentication"@), Tally::Finding),
        sensitive_files: count_where(node_items(ns, "files"@), Tally::File),
        known_vulns: count_where(node_items(ns, "vulnerabilities"@), Tally::Vuln),
        total_findings: total_findings(ns),
        overall: rank_sev_spec(max_status(ns)),
    }
}

pub proof fn lemma_count_bound(s: Seq<ItemV>, t: Tally)
    ensures
        count_where(s, t) <= s.len(),
    decreases s.len(),
{
    if s.len() > 0 {
        lemma_count_bound(s.drop_last(), t);
    }
}

pub proof fn lemma_findings_bound(ns: Seq<NodeV>)
    ensures
        total_findings(ns) <= total_items(ns),
    decreases ns.len(),
{
    if ns.len() > 0 {
        lemma_findings_bound(ns.drop_last());
        lemma_count_bound(ns.last().items, Tally::Finding);
    }
}

fn counted_exec(t: &Tally, i: &AttackSurfaceItem) -> (b: bool)
    ensures
        b == counted(*t, item_view(*i)),
{
    let informational = str_eq(i.severity.as_str(), "informational");
    match t {
        Tally::Plugin => !str_eq(i.label.as_str(), "Plugins detected"),
        Tally::Theme => !str_eq(i.label.as_str(), "Themes detected") && !str_eq(
            i.label.as_str(),
            "Active theme (guess)",
        ),
        Tally::Finding => !informational,
        Tally::File => !informational && !str_eq(i.label.as_str(), "Paths probed"),
        Tally::Vuln => !informational && !str_eq(i.label.as_str(), "Wordfence scan summary"),
    }
}

fn count_items(items: &Vec<AttackSurfaceItem>, t: Tally) -> (c: usize)
    ensures
        c == count_where(items_view(items@), t),
{
    let mut c: usize = 0;
    let mut i: usize = 0;
    while i < items.len()
        invariant
            i <= items@.len(),
            c == count_where(items_view(items@.take(i as int)), t),
        decreases items@.len() - i,
    {
        proof {
            assert(items_view(items@.take(i + 1)).drop_last() =~= items_view(items@.take(i as int)));
            lemma_count_bound(items_view(items@.take(i as int)), t);
        }
        if counted_exec(&t, &items[i]) {
            c = c + 1;
        }
        i = i + 1;
    }
    assert(items@.take(items@.len() as int) =~= items@);
    c
}

/// Index of the first node with the given id.
fn find_node(nodes: &Vec<AttackSurfaceNode>, id: &str) -> (r: Option<usize>)
    ensures
        match r {
            Some(k) => k < nodes@.len() && node_items(nodes_view(nodes@), id@) == items_view(
                nodes@[k as int].items@,
            ),
            None => node_items(nodes_view(nodes@), id@) == Seq::<ItemV>::empty(),
        },
{
    let ghost all = nodes_view(nodes@);
    let mut i: usize = 0;
    assert(all.skip(0) =~= all);
    while i < nodes.len()
        invariant
            i <= nodes@.len(),
            all == nodes_view(nodes@),
            node_items(all, id@) == node_items(all.skip(i as int), id@),
        decreases nodes@.len() - i,
    {
        assert(all.skip(i as int).drop_first() =~= all.skip(i + 1));
        assert(all.skip(i as int)[0] == node_view(nodes@[i as int]));
        if str_eq(nodes[i].id.as_str(), id) {
            return Some(i);
        }
        i = i + 1;
    }
    assert(all.skip(i as int).len() == 0);
    None
}

fn count_in(nodes: &Vec<AttackSurfaceNode>, id: &str, t: Tally) -> (c: usize)
    ensures
        c == count_where(node_items(nodes_view(nodes@), id@), t),
{
    match find_node(nodes, id) {
        Some(k) => count_items(&nodes[k].items, t),
        None => 0,
    }
}

fn route_count_exec(items: &Vec<AttackSurfaceItem>) -> (r: usize)
    ensures
        r == route_count_of(items_view(items@)),
{
    let ghost all = items_view(items@);
    let mut i: usize = 0;
    assert(all.skip(0) =~= all);
    while i < items.len()
        invariant
            i <= items@.len(),
            all == items_view(items@),
            first_labelled(all, "Route count"@) == first_labelled(all.skip(i as int), "Route count"@),
        decreases items@.len() - i,
    {
        assert(all.skip(i as int).drop_first() =~= all.skip(i + 1));
        assert(all.skip(i as int)[0] == item_view(items@[i as int]));
        if str_eq(items[i].label.as_str(), "Route count") {
            return match &items[i].value {
                Some(v) => {
                    let bound: u64 = usize::MAX as u64;
                    match parse_unsigned(chars_of(v.as_str()).as_slice(), bound) {
                        Some(n) => n as usize,
                        None => 0,
                    }
                },
                None => 0,
            };
        }
        i = i + 1;
    }
    assert(all.skip(i as int).len() == 0);
    0
}

/// Rolls the nodes up into headline figures.
pub fn summarize(nodes: &Vec<AttackSurfaceNode>, check: &Option<WpCheckSource>) -> (s:
    AttackSurfaceSummary)
    requires
        total_items(nodes_view(nodes@)) <= usize::MAX,
    ensures
        summary_view(s) == summary_spec(nodes_view(nodes@), *check),
{
    let core = match check {
        Some(v) => match &v.version {
            Some(x) => x.clone(),
            None => lit("unknown"),
        },
        None => lit("not scanned"),
    };
    let plugins = count_in(nodes, "plugins", Tally::Plugin);
    let themes = count_in(nodes, "themes", Tally::Theme);
    let rest_routes = match find_node(nodes, "rest") {
        Some(k) => route_count_exec(&nodes[k].items),
        None => 0,
    };
    let authentication = count_in(nodes, "authentication", Tally::Finding);
    let sensitive_files = count_in(nodes, "files", Tally::File);
    let known_vulns = count_in(nodes, "vulnerabilities", Tally::Vuln);
    let ghost all = nodes_view(nodes@);
    let mut total: usize = 0;
    let mut best: u8 = 0;
    let mut i: usize = 0;
    while i < nodes.len()
        invariant
            i <= nodes@.len(),
            all == nodes_view(nodes@),
            total_items(all) <= usize::MAX,
            total == total_findings(all.take(i as int)),
            best == max_status(all.take(i as int)),
            total_findings(all.take(i as int)) <= total_items(all.take(i as int)),
        decreases nodes@.len() - i,
    {
        proof {
            assert(all.take(i + 1).drop_last() =~= all.take(i as int));
            assert(all.take(i + 1).last() == node_view(nodes@[i as int]));
            lemma_findings_bound(all.take(i + 1));
            lemma_total_items_prefix(all, i + 1);
        }
        let c = count_items(&nodes[i].items, Tally::Finding);
        total = total + c;
        let r = sev_rank(nodes[i].status.as_str());
        if r > best {
            best = r;
        }
        i = i + 1;
    }
    assert(all.take(nodes@.len() as int) =~= all);
    AttackSurfaceSummary {
        core,
        plugins,
        themes,
        rest_routes,
        authentication,
        sensitive_files,
        known_vulns,
        total_findings: total,
        overall: lit(rank_sev(best)),
    }
}

pub proof fn lemma_total_items_prefix(ns: Seq<NodeV>, k: int)
    requires
        0 <= k <= ns.len(),
    ensures
        total_items(ns.take(k)) <= total_items(ns),
    decreases ns.len() - k,
{
    if k < ns.len() {
        lemma_total_items_prefix(ns, k + 1);
        assert(ns.take(k + 1).drop_last() =~= ns.take(k));
    } else {
        assert(ns.take(k) =~= ns);
    }
}


// ─── Sources / missing ──────────────────────────────────────────────────────

/// Tracked sources: (tool id, human label), in display order.
pub open spec fn sources_spec() -> Seq<(Seq<char>, Seq<char>)> {
    seq![
        ("wordpress-check"@, "Version Check"@),
        ("wordpress-plugins"@, "Plugin Enum"@),
        ("wordpress-themes"@, "Theme Enum"@),
        ("wordpress-rest"@, "REST Surface"@),
        ("wordpress-xmlrpc"@, "XML-RPC Probe"@),
        ("wordpress-users"@, "User Enum"@),
        ("wordpress-paths"@, "Sensitive Paths"@),
        ("wordpress-vuln-scan"@, "WF Vuln Scanner"@),
        ("wordpress-nuclei"@, "WP Nuclei Scan"@),
    ]
}

pub open spec fn pairs_view(v: Seq<(String, String)>) -> Seq<(Seq<char>, Seq<char>)> {
    v.map_values(|p: (String, String)| (p.0@, p.1@))
}

fn push_pair(v: &mut Vec<(String, String)>, a: &str, b: &str)
    ensures
        pairs_view(final(v)@) == pairs_view(old(v)@).push((a@, b@)),
{
    v.push((lit(a), lit(b)));
    assert(pairs_view(v@) =~= pairs_view(old(v)@).push((a@, b@)));
}

/// The tracked sources.
pub fn sources() -> (r: Vec<(String, String)>)
    ensures
        pairs_view(r@) == sources_spec(),
{
    let mut v: Vec<(String, String)> = Vec::new();
    push_pair(&mut v, "wordpress-check", "Version Check");
    push_pair(&mut v, "wordpress-plugins", "Plugin Enum");
    push_pair(&mut v, "wordpress-themes", "Theme Enum");
    push_pair(&mut v, "wordpress-rest", "REST Surface");
    push_pair(&mut v, "wordpress-xmlrpc", "XML-RPC Probe");
    push_pair(&mut v, "wordpress-users", "User Enum");
    push_pair(&mut v, "wordpress-paths", "Sensitive Paths");
    push_pair(&mut v, "wordpress-vuln-scan", "WF Vuln Scanner");
    push_pair(&mut v, "wordpress-nuclei", "WP Nuclei Scan");
    assert(pairs_view(v@) =~= sources_spec());
    v
}

/// Tools whose result is absent, in the given order.
pub open spec fn missing_spec(vs: Seq<(Seq<char>, Seq<char>, bool)>) -> Seq<(Seq<char>, Seq<char>)>
    decreases vs.len(),
{
    if vs.len() == 0 {
        seq![]
    } else {
        let rest = missing_spec(vs.drop_last());
        let last = vs.last();
        if !last.2 {
            rest.push((last.0, last.1))
        } else {
            rest
        }
    }
}

pub open spec fn presence_view(v: Seq<(String, String, bool)>) -> Seq<(Seq<char>, Seq<char>, bool)> {
    v.map_values(|t: (String, String, bool)| (t.0@, t.1@, t.2))
}

pub open spec fn missing_view(v: Seq<MissingTool>) -> Seq<(Seq<char>, Seq<char>)> {
    v.map_values(|m: MissingTool| (m.tool@, m.label@))
}

/// The sources flagged absent, as (tool, label).
pub fn missing_tools(values: &[(String, String, bool)]) -> (r: Vec<MissingTool>)
    ensures
        missing_view(r@) == missing_spec(presence_view(values@)),
{
    let ghost all = presence_view(values@);
    let mut out: Vec<MissingTool> = Vec::new();
    let mut i: usize = 0;
    while i < values.len()
        invariant
            i <= values@.len(),
            all == presence_view(values@),
            missing_view(out@) == missing_spec(all.take(i as int)),
        decreases values@.len() - i,
    {
        assert(all.take(i + 1).drop_last() =~= all.take(i as int));
        let (tool, label, present) = &values[i];
        if !*present {
            let m = MissingTool { tool: tool.clone(), label: label.clone() };
            let ghost prev = missing_view(out@);
            out.push(m);
            assert(missing_view(out@) =~= prev.push((m.tool@, m.label@)));
        }
        i = i + 1;
    }
    assert(all.take(values@.len() as int) =~= all);
    out
}

// ─── Source resolution ──────────────────────────────────────────────────────

/// A URL compared in its normalized form, or trimmed when it does not normalize.
pub open spec fn url_key(s: Seq<char>) -> Seq<char> {
    match spec_normalize_url(s) {
        Ok(n) => n,
        Err(_) => trim(s),
    }
}

/// Two URLs name the same target when their keys match ignoring ASCII case.
pub open spec fn same_url_spec(a: Seq<char>, b: Seq<char>) -> bool {
    eq_ignore_ascii_case(url_key(a), url_key(b))
}

fn url_key_exec(s: &str) -> (r: String)
    ensures
        r@ == url_key(s@),
{
    match normalize_url(s) {
        Ok(n) => n,
        Err(_) => trim_str(s),
    }
}

pub fn same_url(a: &str, b: &str) -> (r: bool)
    ensures
        r == same_url_spec(a@, b@),
{
    let na = url_key_exec(a);
    let nb = url_key_exec(b);
    str_eq_ignore_ascii_case(na.as_str(), nb.as_str())
}

/// What the explorer reads of one job of the job manager.
pub struct JobSig {
    pub id: String,
    pub tool: String,
    /// `JobStatus::as_str` of the job.
    pub status: String,
    pub has_result: bool,
    /// The job's `url` parameter (empty when it has none).
    pub url: String,
    pub finished_at: Option<String>,
}

pub open spec fn job_matches(j: JobSig, tool: Seq<char>, url: Seq<char>) -> bool {
    j.tool@ == tool && j.has_result && same_url_spec(j.url@, url)
}

/// Index of the first job that matches and whose predicate holds.
pub open spec fn first_job(js: Seq<JobSig>, tool: Seq<char>, url: Seq<char>, succeeded_only: bool) -> Option<
    int,
>
    decreases js.len(),
{
    if js.len() == 0 {
        None
    } else if job_matches(js[0], tool, url) && (!succeeded_only || js[0].status@ == "succeeded"@) {
        Some(0)
    } else {
        match first_job(js.drop_first(), tool, url, succeeded_only) {
            Some(k) => Some(k + 1),
            None => None,
        }
    }
}

pub proof fn lemma_first_job_range(js: Seq<JobSig>, tool: Seq<char>, url: Seq<char>, succeeded_only: bool)
    ensures
        match first_job(js, tool, url, succeeded_only) {
            Some(k) => 0 <= k < js.len(),
            None => true,
        },
    decreases js.len(),
{
    if js.len() > 0 {
        lemma_first_job_range(js.drop_first(), tool, url, succeeded_only);
    }
}

fn first_job_exec(jobs: &Vec<JobSig>, tool: &str, url: &str, succeeded_only: bool) -> (r: Option<usize>)
    ensures
        match r {
            Some(k) => first_job(jobs@, tool@, url@, succeeded_only) == Some(k as int),
            None => first_job(jobs@, tool@, url@, succeeded_only) is None,
        },
{
    let mut i: usize = 0;
    assert(jobs@.skip(0) =~= jobs@);
    while i < jobs.len()
        invariant
            i <= jobs@.len(),
            match first_job(jobs@, tool@, url@, succeeded_only) {
                Some(k) => match first_job(jobs@.skip(i as int), tool@, url@, succeeded_only) {
                    Some(k2) => k == k2 + i,
                    None => false,
                },
                None => first_job(jobs@.skip(i as int), tool@, url@, succeeded_only) is None,
            },
        decreases jobs@.len() - i,
    {
        assert(jobs@.skip(i as int).drop_first() =~= jobs@.skip(i + 1));
        assert(jobs@.skip(i as int)[0] == jobs@[i as int]);
        let j = &jobs[i];
        if str_eq(j.tool.as_str(), tool) && j.has_result && same_url(j.url.as_str(), url) && (
        !succeeded_only || str_eq(j.status.as_str(), "succeeded")) {
            return Some(i);
        }
        i = i + 1;
    }
    assert(jobs@.skip(i as int).len() == 0);
    None
}

/// The job whose result the explorer reads for a job-backed tool: the first
/// succeeded one with a result whose URL matches.
pub fn select_job(jobs: &Vec<JobSig>, tool: &str, url: &str) -> (r: Option<usize>)
    ensures
        match r {
            Some(k) => first_job(jobs@, tool@, url@, true) == Some(k as int),
            None => first_job(jobs@, tool@, url@, true) is None,
        },
{
    first_job_exec(jobs, tool, url, true)
}

/// Signature of the job state behind one job-backed tool.
pub open spec fn job_signature(js: Seq<JobSig>, tool: Seq<char>, url: Seq<char>) -> Seq<char> {
    match first_job(js, tool, url, false) {
        Some(k) => js[k].id@ + ":"@ + js[k].status@ + ":"@ + or_default(js[k].finished_at, ""@),
        None => "none"@,
    }
}

/// Fingerprint of everything that can change the aggregate for `url`: the
/// result-cache generation and, per job-backed tool, the first matching job.
pub open spec fn fingerprint_spec(generation: u64, js: Seq<JobSig>, url: Seq<char>) -> Seq<char> {
    "gen:"@ + decimal(generation as nat) + "|wordpress-vuln-scan:"@ + job_signature(
        js,
        "wordpress-vuln-scan"@,
        url,
    ) + "|wordpress-nuclei:"@ + job_signature(js, "wordpress-nuclei"@, url)
}

fn push_signature(out: &mut Vec<char>, jobs: &Vec<JobSig>, tool: &str, url: &str)
    ensures
        final(out)@ == old(out)@ + job_signature(jobs@, tool@, url@),
{
    proof {
        lemma_first_job_range(jobs@, tool@, url@, false);
    }
    match first_job_exec(jobs, tool, url, false) {
        Some(k) => {
            let j = &jobs[k];
            push_all(out, chars_of(j.id.as_str()).as_slice());
            push_str(out, ":");
            push_all(out, chars_of(j.status.as_str()).as_slice());
            push_str(out, ":");
            push_all(out, chars_of(text_or(&j.finished_at, "").as_str()).as_slice());
        },
        None => {
            push_str(out, "none");
        },
    }
}

pub fn fingerprint(generation: u64, jobs: &Vec<JobSig>, url: &str) -> (r: String)
    ensures
        r@ == fingerprint_spec(generation, jobs@, url@),
{
    let mut out = chars_of("gen:");
    push_all(&mut out, decimal_chars(generation).as_slice());
    push_str(&mut out, "|wordpress-vuln-scan:");
    push_signature(&mut out, jobs, "wordpress-vuln-scan", url);
    push_str(&mut out, "|wordpress-nuclei:");
    push_signature(&mut out, jobs, "wordpress-nuclei", url);
    string_of(out.as_slice())
}


// ─── Aggregate ──────────────────────────────────────────────────────────────

/// Every source's latest result for one target (`None` when not run yet).
pub struct SourceResults {
    pub check: Option<WpCheckSource>,
    pub plugins: Option<PluginsSource>,
    pub themes: Option<ThemesSource>,
    pub rest: Option<RestSource>,
    pub xmlrpc: Option<XmlrpcSource>,
    pub users: Option<UsersSource>,
    pub paths: Option<PathsSource>,
    pub vuln: Option<VulnSource>,
    pub nuclei: Option<NucleiSource>,
}

/// The nine nodes, in display order.
pub open spec fn nodes_spec(src: SourceResults) -> Seq<NodeV> {
    seq![
        finished("core"@, "Core"@, "infrastructure"@, core_note(src.check), core_items(src.check)),
        finished(
            "authentication"@,
            "Authentication"@,
            "authentication"@,
            auth_note(src.xmlrpc),
            xmlrpc_part(src.xmlrpc) + users_part(src.users),
        ),
        finished("rest"@, "REST API"@, "rest"@, rest_note(src.rest), rest_items(src.rest)),
        finished(
            "plugins"@,
            "Plugins"@,
            "plugins"@,
            vulns_note(plugins_vulns(src.plugins), "plugins"@, "Installed plugins + versions"@),
            plugins_items(src.plugins),
        ),
        finished(
            "themes"@,
            "Themes"@,
            "themes"@,
            vulns_note(themes_vulns(src.themes), "themes"@, "Installed themes + versions"@),
            themes_items(src.themes),
        ),
        finished(
            "files"@,
            "Sensitive Files"@,
            "files"@,
            files_note(src.paths),
            files_items(src.paths),
        ),
        finished(
            "headers"@,
            "Security Headers"@,
            "infrastructure"@,
            headers_note(src.check),
            headers_items(src.check),
        ),
        finished(
            "vulnerabilities"@,
            "Vulnerabilities"@,
            "vulnerabilities"@,
            vuln_note(src.vuln, src.nuclei),
            vuln_items(src.vuln, src.nuclei),
        ),
        finished(
            "infrastructure"@,
            "Infrastructure"@,
            "infrastructure"@,
            "Host-level fingerprints"@,
            infra_items(src.check),
        ),
    ]
}

/// Which sources returned a result, in the order of `sources_spec`.
pub open spec fn presence_spec(src: SourceResults) -> Seq<bool> {
    seq![
        src.check is Some,
        src.plugins is Some,
        src.themes is Some,
        src.rest is Some,
        src.xmlrpc is Some,
        src.users is Some,
        src.paths is Some,
        src.vuln is Some,
        src.nuclei is Some,
    ]
}

pub open spec fn tagged_sources(present: Seq<bool>) -> Seq<(Seq<char>, Seq<char>, bool)> {
    Seq::new(9, |k: int| (sources_spec()[k].0, sources_spec()[k].1, present[k]))
}

/// Size of the variable-length parts of the inputs.
pub open spec fn sources_size(src: SourceResults) -> nat {
    (match src.xmlrpc {
        Some(v) => v.interesting@.len(),
        None => 0,
    }) + (match src.rest {
        Some(v) => v.interesting_routes@.len() + v.namespaces@.len(),
        None => 0,
    }) + (match src.plugins {
        Some(v) => v.plugins@.len(),
        None => 0,
    }) + (match src.themes {
        Some(v) => v.themes@.len(),
        None => 0,
    }) + (match src.paths {
        Some(v) => v.findings@.len(),
        None => 0,
    }) + vuln_total(src.vuln, src.nuclei)
}

/// The inputs `build` accepts: counts and sizes that fit in `usize`.
pub open spec fn build_fits(src: SourceResults) -> bool {
    &&& plugins_vulns(src.plugins) <= usize::MAX
    &&& themes_vulns(src.themes) <= usize::MAX
    &&& sources_size(src) + 64 <= usize::MAX
}

pub proof fn lemma_header_items_len(hs: Seq<HeaderEntry>, k: nat)
    ensures
        header_items_upto(hs, k).len() == k,
    decreases k,
{
    if k > 0 {
        lemma_header_items_len(hs, (k - 1) as nat);
    }
}

pub proof fn lemma_infra_len(hs: Seq<HeaderEntry>, k: nat)
    ensures
        infra_upto(hs, k).len() <= k,
    decreases k,
{
    if k > 0 {
        lemma_infra_len(hs, (k - 1) as nat);
    }
}

pub proof fn lemma_total_items_nine(ns: Seq<NodeV>)
    requires
        ns.len() == 9,
    ensures
        total_items(ns) == ns[0].items.len() + ns[1].items.len() + ns[2].items.len()
            + ns[3].items.len() + ns[4].items.len() + ns[5].items.len() + ns[6].items.len()
            + ns[7].items.len() + ns[8].items.len(),
{
    assert(ns.take(1).drop_last() =~= ns.take(0));
    assert(ns.take(2).drop_last() =~= ns.take(1));
    assert(ns.take(3).drop_last() =~= ns.take(2));
    assert(ns.take(4).drop_last() =~= ns.take(3));
    assert(ns.take(5).drop_last() =~= ns.take(4));
    assert(ns.take(6).drop_last() =~= ns.take(5));
    assert(ns.take(7).drop_last() =~= ns.take(6));
    assert(ns.take(8).drop_last() =~= ns.take(7));
    assert(ns.take(9).drop_last() =~= ns.take(8));
    assert(ns.take(0).len() == 0);
    assert(ns.take(9) =~= ns);
    assert(total_items(ns.take(1)) == total_items(ns.take(0)) + ns[0].items.len());
    assert(total_items(ns.take(2)) == total_items(ns.take(1)) + ns[1].items.len());
    assert(total_items(ns.take(3)) == total_items(ns.take(2)) + ns[2].items.len());
    assert(total_items(ns.take(4)) == total_items(ns.take(3)) + ns[3].items.len());
    assert(total_items(ns.take(5)) == total_items(ns.take(4)) + ns[4].items.len());
    assert(total_items(ns.take(6)) == total_items(ns.take(5)) + ns[5].items.len());
    assert(total_items(ns.take(7)) == total_items(ns.take(6)) + ns[6].items.len());
    assert(total_items(ns.take(8)) == total_items(ns.take(7)) + ns[7].items.len());
    assert(total_items(ns.take(9)) == total_items(ns.take(8)) + ns[8].items.len());
}

pub proof fn lemma_core_len(check: Option<WpCheckSource>)
    ensures
        core_items(check).len() <= 5,
{
}

pub proof fn lemma_auth_len(x: Option<XmlrpcSource>, u: Option<UsersSource>)
    ensures
        (xmlrpc_part(x) + users_part(u)).len() <= 8 + match x {
            Some(v) => v.interesting@.len(),
            None => 0,
        },
{
}

pub proof fn lemma_rest_len(r: Option<RestSource>)
    ensures
        rest_items(r).len() <= 4 + match r {
            Some(v) => v.interesting_routes@.len() + v.namespaces@.len(),
            None => 0,
        },
{
}

pub proof fn lemma_vuln_len(v: Option<VulnSource>, n: Option<NucleiSource>)
    ensures
        vuln_items(v, n).len() <= 2 + vuln_total(v, n),
{
}

pub proof fn lemma_check_headers_len(check: Option<WpCheckSource>)
    ensures
        headers_items(check).len() <= 6,
        infra_items(check).len() <= 5,
{
    match check_headers(check) {
        Some(hs) => {
            lemma_header_items_len(hs, 6);
            lemma_infra_len(hs, 5);
        },
        None => {},
    }
}

pub proof fn lemma_nodes_size(src: SourceResults)
    ensures
        total_items(nodes_spec(src)) <= sources_size(src) + 64,
{
    let ns = nodes_spec(src);
    lemma_total_items_nine(ns);
    lemma_core_len(src.check);
    lemma_auth_len(src.xmlrpc, src.users);
    lemma_rest_len(src.rest);
    lemma_vuln_len(src.vuln, src.nuclei);
    lemma_check_headers_len(src.check);
}

pub open spec fn response_nodes(r: AttackSurfaceResponse) -> Seq<NodeV> {
    nodes_view(r.nodes@)
}

fn push_node(nodes: &mut Vec<AttackSurfaceNode>, n: AttackSurfaceNode)
    ensures
        nodes_view(final(nodes)@) == nodes_view(old(nodes)@).push(node_view(n)),
{
    nodes.push(n);
    assert(nodes_view(nodes@) =~= nodes_view(old(nodes)@).push(node_view(n)));
}

/// The nine nodes for the given results.
pub fn build_nodes(src: &SourceResults) -> (nodes: Vec<AttackSurfaceNode>)
    requires
        build_fits(*src),
    ensures
        nodes_view(nodes@) == nodes_spec(*src),
{
    let mut nodes: Vec<AttackSurfaceNode> = Vec::new();
    assert(nodes_view(nodes@) =~= Seq::<NodeV>::empty());
    push_node(&mut nodes, core_node(&src.check));
    push_node(&mut nodes, authentication_node(&src.xmlrpc, &src.users));
    push_node(&mut nodes, rest_node(&src.rest));
    push_node(&mut nodes, plugins_node(&src.plugins));
    push_node(&mut nodes, themes_node(&src.themes));
    push_node(&mut nodes, files_node(&src.paths));
    push_node(&mut nodes, headers_node(&src.check));
    push_node(&mut nodes, vulnerabilities_node(&src.vuln, &src.nuclei));
    push_node(&mut nodes, infrastructure_node(&src.check));
    assert(nodes_view(nodes@) =~= nodes_spec(*src));
    nodes
}

/// The sources that produced no result, in display order.
pub fn missing_sources(src: &SourceResults) -> (r: Vec<MissingTool>)
    ensures
        missing_view(r@) == missing_spec(tagged_sources(presence_spec(*src))),
{
    let present: Vec<bool> = vec![
        src.check.is_some(),
        src.plugins.is_some(),
        src.themes.is_some(),
        src.rest.is_some(),
        src.xmlrpc.is_some(),
        src.users.is_some(),
        src.paths.is_some(),
        src.vuln.is_some(),
        src.nuclei.is_some(),
    ];
    assert(present@ =~= presence_spec(*src));
    let table = sources();
    assert(table@.len() == pairs_view(table@).len());
    let ghost tagged = tagged_sources(present@);
    let mut values: Vec<(String, String, bool)> = Vec::new();
    let mut k: usize = 0;
    while k < 9
        invariant
            k <= 9,
            table@.len() == 9,
            present@.len() == 9,
            pairs_view(table@) == sources_spec(),
            tagged == tagged_sources(present@),
            presence_view(values@) == tagged.take(k as int),
        decreases 9 - k,
    {
        let ghost prev = presence_view(values@);
        let (t, l) = &table[k];
        assert(pairs_view(table@)[k as int] == (t@, l@));
        values.push((t.clone(), l.clone(), present[k]));
        assert(presence_view(values@) =~= prev.push((t@, l@, present@[k as int])));
        assert(tagged.take(k + 1) =~= tagged.take(k as int).push((t@, l@, present@[k as int])));
        k = k + 1;
    }
    assert(tagged.take(9) =~= tagged);
    missing_tools(values.as_slice())
}

/// Aggregates the sources' results for `base` into the explorer's response.
pub fn build(base: &str, generated_at: String, src: &SourceResults) -> (r: AttackSurfaceResponse)
    requires
        build_fits(*src),
    ensures
        r.url@ == base@,
        r.generated_at@ == generated_at@,
        response_nodes(r) == nodes_spec(*src),
        summary_view(r.summary) == summary_spec(nodes_spec(*src), src.check),
        missing_view(r.missing@) == missing_spec(tagged_sources(presence_spec(*src))),
{
    let nodes = build_nodes(src);
    proof {
        lemma_nodes_size(*src);
    }
    let summary = summarize(&nodes, &src.check);
    let missing = missing_sources(src);
    AttackSurfaceResponse { url: lit(base), generated_at, nodes, summary, missing }
}


// ─── Laws ───────────────────────────────────────────────────────────────────

pub proof fn lemma_max_rank(items: Seq<ItemV>)
    ensures
        max_rank(items) <= 5,
        forall|i: int|
            0 <= i < items.len() ==> sev_rank_spec(#[trigger] items[i].severity) <= max_rank(items),
        max_rank(items) == 0 || exists|i: int|
            0 <= i < items.len() && sev_rank_spec(#[trigger] items[i].severity) == max_rank(items),
    decreases items.len(),
{
    if items.len() > 0 {
        let init = items.drop_last();
        lemma_max_rank(init);
        assert forall|i: int| 0 <= i < items.len() implies sev_rank_spec(
            #[trigger] items[i].severity,
        ) <= max_rank(items) by {
            if i < items.len() - 1 {
                assert(items[i] == init[i]);
            }
        }
        if max_rank(items) != 0 {
            if max_rank(items) == sev_rank_spec(items.last().severity) {
                assert(sev_rank_spec(items[items.len() - 1].severity) == max_rank(items));
            } else {
                let w = choose|i: int|
                    0 <= i < init.len() && sev_rank_spec(#[trigger] init[i].severity) == max_rank(
                        init,
                    );
                assert(items[w] == init[w]);
            }
        }
    }
}

/// A node's status is the most severe of its items: no item ranks above it,
/// some item has exactly its rank unless it is `none`, and it is `none`
/// exactly when no item carries a canonical severity.
pub proof fn node_status_is_max_item_severity(
    id: Seq<char>,
    label: Seq<char>,
    category: Seq<char>,
    note: Seq<char>,
    items: Seq<ItemV>,
)
    ensures
        ({
            let n = finished(id, label, category, note, items);
            &&& forall|i: int|
                0 <= i < items.len() ==> sev_rank_spec(#[trigger] items[i].severity) <= sev_rank_spec(
                    n.status,
                )
            &&& (n.status == "none"@ || exists|i: int|
                0 <= i < items.len() && sev_rank_spec(#[trigger] items[i].severity)
                    == sev_rank_spec(n.status))
            &&& (n.status == "none"@ <==> forall|i: int|
                0 <= i < items.len() ==> sev_rank_spec(#[trigger] items[i].severity) == 0)
            &&& n.count == items.len()
        }),
{
    lemma_max_rank(items);
    sev_rank_of_rank_sev(max_rank(items));
    reveal_strlit("none");
    reveal_strlit("critical");
    reveal_strlit("high");
    reveal_strlit("medium");
    reveal_strlit("low");
    reveal_strlit("informational");
    assert("critical"@.len() == 8 && "high"@.len() == 4 && "medium"@.len() == 6);
    assert("low"@.len() == 3 && "informational"@.len() == 13 && "none"@.len() == 4);
    assert("none"@[0] != "high"@[0]);
}

pub proof fn lemma_max_status(ns: Seq<NodeV>)
    ensures
        max_status(ns) <= 5,
        forall|k: int| 0 <= k < ns.len() ==> sev_rank_spec(#[trigger] ns[k].status) <= max_status(ns),
        max_status(ns) == 0 || exists|k: int|
            0 <= k < ns.len() && sev_rank_spec(#[trigger] ns[k].status) == max_status(ns),
    decreases ns.len(),
{
    if ns.len() > 0 {
        let init = ns.drop_last();
        lemma_max_status(init);
        assert forall|k: int| 0 <= k < ns.len() implies sev_rank_spec(#[trigger] ns[k].status)
            <= max_status(ns) by {
            if k < ns.len() - 1 {
                assert(ns[k] == init[k]);
            }
        }
        if max_status(ns) != 0 {
            if max_status(ns) == sev_rank_spec(ns.last().status) {
                assert(sev_rank_spec(ns[ns.len() - 1].status) == max_status(ns));
            } else {
                let w = choose|k: int|
                    0 <= k < init.len() && sev_rank_spec(#[trigger] init[k].status) == max_status(
                        init,
                    );
                assert(ns[w] == init[w]);
            }
        }
    }
}

/// The overall rating of a summary is the most severe node status: no node
/// ranks above it, and unless it is `none` some node has exactly its rank.
pub proof fn overall_is_max_node_status(ns: Seq<NodeV>, check: Option<WpCheckSource>)
    ensures
        ({
            let s = summary_spec(ns, check);
            &&& forall|k: int|
                0 <= k < ns.len() ==> sev_rank_spec(#[trigger] ns[k].status) <= sev_rank_spec(
                    s.overall,
                )
            &&& (s.overall == "none"@ || exists|k: int|
                0 <= k < ns.len() && sev_rank_spec(#[trigger] ns[k].status) == sev_rank_spec(
                    s.overall,
                ))
        }),
{
    lemma_max_status(ns);
    sev_rank_of_rank_sev(max_status(ns));
    reveal_strlit("none");
    reveal_strlit("critical");
    reveal_strlit("high");
    reveal_strlit("medium");
    reveal_strlit("low");
    reveal_strlit("informational");
    assert("critical"@.len() == 8 && "high"@.len() == 4 && "medium"@.len() == 6);
    assert("low"@.len() == 3 && "informational"@.len() == 13 && "none"@.len() == 4);
    assert("none"@[0] != "high"@[0]);
}

/// Every absent source is reported missing and every present one is not:
/// the missing list is exactly the absent (tool, label) pairs, in order.
pub proof fn missing_lists_exactly_absent(vs: Seq<(Seq<char>, Seq<char>, bool)>)
    ensures
        (forall|k: int| 0 <= k < vs.len() ==> !(#[trigger] vs[k]).2) ==> missing_spec(vs)
            == vs.map_values(|t: (Seq<char>, Seq<char>, bool)| (t.0, t.1)),
        (forall|k: int| 0 <= k < vs.len() ==> (#[trigger] vs[k]).2) ==> missing_spec(vs)
            == Seq::<(Seq<char>, Seq<char>)>::empty(),
        missing_spec(vs).len() <= vs.len(),
    decreases vs.len(),
{
    if vs.len() > 0 {
        let init = vs.drop_last();
        missing_lists_exactly_absent(init);
        if forall|k: int| 0 <= k < vs.len() ==> !(#[trigger] vs[k]).2 {
            assert forall|k: int| 0 <= k < init.len() implies !(#[trigger] init[k]).2 by {
                assert(init[k] == vs[k]);
            }
            assert(!vs[vs.len() - 1].2);
            assert(missing_spec(vs) =~= vs.map_values(
                |t: (Seq<char>, Seq<char>, bool)| (t.0, t.1),
            ));
        }
        if forall|k: int| 0 <= k < vs.len() ==> (#[trigger] vs[k]).2 {
            assert forall|k: int| 0 <= k < init.len() implies (#[trigger] init[k]).2 by {
                assert(init[k] == vs[k]);
            }
            assert(vs[vs.len() - 1].2);
        }
    } else {
        assert(missing_spec(vs) =~= vs.map_values(|t: (Seq<char>, Seq<char>, bool)| (t.0, t.1)));
    }
}

/// With no source run yet, every tracked source is reported missing; with
/// all of them run, none is.
pub proof fn no_results_all_missing(src: SourceResults)
    ensures
        (src.check is None && src.plugins is None && src.themes is None && src.rest is None
            && src.xmlrpc is None && src.users is None && src.paths is None && src.vuln is None
            && src.nuclei is None) ==> missing_spec(tagged_sources(presence_spec(src)))
            == sources_spec(),
        (src.check is Some && src.plugins is Some && src.themes is Some && src.rest is Some
            && src.xmlrpc is Some && src.users is Some && src.paths is Some && src.vuln is Some
            && src.nuclei is Some) ==> missing_spec(tagged_sources(presence_spec(src))).len() == 0,
{
    let vs = tagged_sources(presence_spec(src));
    missing_lists_exactly_absent(vs);
    assert(vs.map_values(|t: (Seq<char>, Seq<char>, bool)| (t.0, t.1)) =~= sources_spec());
}


/// The explorer's fingerprint tells generations apart: two different
/// result-cache generations (each store bumps it) never share a
/// fingerprint, whatever the jobs.
pub proof fn fingerprint_tracks_generation(g1: u64, g2: u64, js: Seq<JobSig>, url: Seq<char>)
    requires
        g1 != g2,
    ensures
        fingerprint_spec(g1, js, url) != fingerprint_spec(g2, js, url),
{
    reveal_strlit("gen:");
    reveal_strlit("|wordpress-vuln-scan:");
    let a = decimal(g1 as nat);
    let b = decimal(g2 as nat);
    crate::text::lemma_decimal(g1 as nat);
    crate::text::lemma_decimal(g2 as nat);
    if a == b {
        crate::text::lemma_decimal_injective(g1 as nat, g2 as nat);
    }
    let p = "gen:"@;
    let tail = "|wordpress-vuln-scan:"@ + job_signature(js, "wordpress-vuln-scan"@, url) + "|wordpress-nuclei:"@
        + job_signature(js, "wordpress-nuclei"@, url);
    let f1 = fingerprint_spec(g1, js, url);
    let f2 = fingerprint_spec(g2, js, url);
    assert(f1 =~= p + a + tail);
    assert(f2 =~= p + b + tail);
    assert(tail[0] == '|');
    if a.len() == b.len() {
        let i = choose|i: int| 0 <= i < a.len() && a[i] != b[i];
        assert(exists|i: int| 0 <= i < a.len() && a[i] != b[i]) by {
            if forall|i: int| 0 <= i < a.len() ==> a[i] == b[i] {
                assert(a =~= b);
            }
        }
        assert(f1[4 + i] == a[i]);
        assert(f2[4 + i] == b[i]);
    } else if a.len() < b.len() {
        let k = a.len() as int;
        assert(f1[4 + k] == '|');
        assert(f2[4 + k] == b[k]);
        assert('0' <= b[k] <= '9');
    } else {
        let k = b.len() as int;
        assert(f2[4 + k] == '|');
        assert(f1[4 + k] == a[k]);
        assert('0' <= a[k] <= '9');
    }
}

} // verus!
