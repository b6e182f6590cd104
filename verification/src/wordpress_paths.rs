//! WordPress sensitive-path discovery: the probe table (backups, debug logs,
//! config artifacts, installer leftovers) and the rules that decide, from
//! each probe's status and body, what is reported — soft-404 filtering,
//! forbidden-but-present backups — and in which order.

use vstd::prelude::*;

use crate::text::{
    chars_of, contains, decimal, decimal_chars, lemma_seq_lt_irreflexive, lemma_seq_lt_total,
    lemma_seq_lt_transitive, lit, push_all, push_str, seq_lt, str_contains, str_eq, str_lt,
    string_of,
};

verus! {

pub struct WpPathHit {
    pub path: String,
    pub status: u16,
    pub length: usize,
    pub risk: String,
    pub note: String,
}

pub struct WpPathsResponse {
    pub url: String,
    pub findings: Vec<WpPathHit>,
    pub probed: usize,
    pub notes: Vec<String>,
    pub error: Option<String>,
}

/// Number of probed paths.
pub const PATH_COUNT: usize = 44;

/// Row `k` of the probe table: (path, risk, note, body hint required on 200).
pub open spec fn path_row(k: int) -> (Seq<char>, Seq<char>, Seq<char>, Option<Seq<char>>) {
    if k == 0 {
        ("/wp-config.php"@, "critical"@, "Config file (should never be readable)"@, Some("DB_"@))
    } else if k == 1 {
        ("/wp-config.php.bak"@, "critical"@, "Config backup"@, Some("DB_"@))
    } else if k == 2 {
        ("/wp-config.php.old"@, "critical"@, "Config backup"@, Some("DB_"@))
    } else if k == 3 {
        ("/wp-config.php.save"@, "critical"@, "Config backup"@, Some("DB_"@))
    } else if k == 4 {
        ("/wp-config.php~"@, "critical"@, "Editor backup"@, Some("DB_"@))
    } else if k == 5 {
        ("/wp-config.php.swp"@, "critical"@, "Vim swap of config"@, None)
    } else if k == 6 {
        ("/.wp-config.php.swp"@, "critical"@, "Vim swap of config"@, None)
    } else if k == 7 {
        ("/wp-config.txt"@, "critical"@, "Config as text"@, Some("DB_"@))
    } else if k == 8 {
        ("/wp-config.bak"@, "critical"@, "Config bak"@, Some("DB_"@))
    } else if k == 9 {
        ("/wp-content/debug.log"@, "high"@, "Debug log may leak paths/secrets"@, None)
    } else if k == 10 {
        ("/debug.log"@, "high"@, "Root debug log"@, None)
    } else if k == 11 {
        ("/wp-content/uploads/"@, "info"@, "Uploads dir (listing?)"@, Some("Index of"@))
    } else if k == 12 {
        ("/wp-content/backup-db/"@, "high"@, "DB backup directory"@, None)
    } else if k == 13 {
        ("/wp-content/backups/"@, "high"@, "Backups directory"@, None)
    } else if k == 14 {
        ("/wp-content/uploads/backup/"@, "high"@, "Upload backups"@, None)
    } else if k == 15 {
        ("/backup.sql"@, "critical"@, "SQL dump at web root"@, Some("INSERT"@))
    } else if k == 16 {
        ("/database.sql"@, "critical"@, "SQL dump"@, Some("INSERT"@))
    } else if k == 17 {
        ("/dump.sql"@, "critical"@, "SQL dump"@, Some("INSERT"@))
    } else if k == 18 {
        ("/wordpress.sql"@, "critical"@, "WP SQL dump"@, Some("INSERT"@))
    } else if k == 19 {
        ("/.git/HEAD"@, "high"@, "Git metadata exposed"@, Some("ref:"@))
    } else if k == 20 {
        ("/.svn/entries"@, "high"@, "SVN metadata"@, None)
    } else if k == 21 {
        ("/.env"@, "critical"@, "Environment secrets"@, Some("="@))
    } else if k == 22 {
        ("/wp-admin/install.php"@, "medium"@, "Installer still reachable"@, None)
    } else if k == 23 {
        ("/wp-admin/setup-config.php"@, "medium"@, "Setup config reachable"@, None)
    } else if k == 24 {
        ("/readme.html"@, "low"@, "Default readme (version leak)"@, Some("WordPress"@))
    } else if k == 25 {
        ("/license.txt"@, "info"@, "License file present"@, Some("WordPress"@))
    } else if k == 26 {
        ("/wp-includes/version.php"@, "medium"@, "version.php should not be directly useful"@, Some("$wp_version"@))
    } else if k == 27 {
        ("/wp-json/"@, "info"@, "REST API root"@, Some("namespaces"@))
    } else if k == 28 {
        ("/?rest_route=/"@, "info"@, "REST via query arg"@, Some("namespaces"@))
    } else if k == 29 {
        ("/wp-cron.php"@, "info"@, "Cron endpoint"@, None)
    } else if k == 30 {
        ("/xmlrpc.php"@, "medium"@, "XML-RPC endpoint"@, None)
    } else if k == 31 {
        ("/wp-login.php"@, "info"@, "Login page"@, None)
    } else if k == 32 {
        ("/wp-admin/"@, "info"@, "Admin panel"@, None)
    } else if k == 33 {
        ("/wp-content/plugins/"@, "low"@, "Plugins directory listing?"@, Some("Index of"@))
    } else if k == 34 {
        ("/wp-content/themes/"@, "low"@, "Themes directory listing?"@, Some("Index of"@))
    } else if k == 35 {
        ("/wp-content/uploads/wp-file-manager-pro/fm_backup/"@, "critical"@, "File Manager backup path"@, None)
    } else if k == 36 {
        ("/wp-content/ai1wm-backups/"@, "critical"@, "All-in-One WP Migration backups"@, None)
    } else if k == 37 {
        ("/wp-content/updraft/"@, "critical"@, "UpdraftPlus backups"@, None)
    } else if k == 38 {
        ("/wp-content/uploads/wpvividbackups/"@, "critical"@, "WPvivid backups"@, None)
    } else if k == 39 {
        ("/wp-content/backupwordpress/"@, "high"@, "BackupWordPress dir"@, None)
    } else if k == 40 {
        ("/phpinfo.php"@, "high"@, "phpinfo exposed"@, Some("PHP Version"@))
    } else if k == 41 {
        ("/info.php"@, "high"@, "phpinfo exposed"@, Some("PHP Version"@))
    } else if k == 42 {
        ("/.user.ini"@, "medium"@, "PHP user.ini"@, None)
    } else {
        ("/wp-content/mu-plugins/"@, "info"@, "Must-use plugins dir"@, Some("Index of"@))
    }
}

pub fn path_row_exec(k: usize) -> (r: (&'static str, &'static str, &'static str, Option<&'static str>))
    requires
        k < PATH_COUNT,
    ensures
        r.0@ == path_row(k as int).0,
        r.1@ == path_row(k as int).1,
        r.2@ == path_row(k as int).2,
        match r.3 {
            Some(h) => path_row(k as int).3 == Some(h@),
            None => path_row(k as int).3 is None,
        },
{
    if k == 0 {
        ("/wp-config.php", "critical", "Config file (should never be readable)", Some("DB_"))
    } else if k == 1 {
        ("/wp-config.php.bak", "critical", "Config backup", Some("DB_"))
    } else if k == 2 {
        ("/wp-config.php.old", "critical", "Config backup", Some("DB_"))
    } else if k == 3 {
        ("/wp-config.php.save", "critical", "Config backup", Some("DB_"))
    } else if k == 4 {
        ("/wp-config.php~", "critical", "Editor backup", Some("DB_"))
    } else if k == 5 {
        ("/wp-config.php.swp", "critical", "Vim swap of config", None)
    } else if k == 6 {
        ("/.wp-config.php.swp", "critical", "Vim swap of config", None)
    } else if k == 7 {
        ("/wp-config.txt", "critical", "Config as text", Some("DB_"))
    } else if k == 8 {
        ("/wp-config.bak", "critical", "Config bak", Some("DB_"))
    } else if k == 9 {
        ("/wp-content/debug.log", "high", "Debug log may leak paths/secrets", None)
    } else if k == 10 {
        ("/debug.log", "high", "Root debug log", None)
    } else if k == 11 {
        ("/wp-content/uploads/", "info", "Uploads dir (listing?)", Some("Index of"))
    } else if k == 12 {
        ("/wp-content/backup-db/", "high", "DB backup directory", None)
    } else if k == 13 {
        ("/wp-content/backups/", "high", "Backups directory", None)
    } else if k == 14 {
        ("/wp-content/uploads/backup/", "high", "Upload backups", None)
    } else if k == 15 {
        ("/backup.sql", "critical", "SQL dump at web root", Some("INSERT"))
    } else if k == 16 {
        ("/database.sql", "critical", "SQL dump", Some("INSERT"))
    } else if k == 17 {
        ("/dump.sql", "critical", "SQL dump", Some("INSERT"))
    } else if k == 18 {
        ("/wordpress.sql", "critical", "WP SQL dump", Some("INSERT"))
    } else if k == 19 {
        ("/.git/HEAD", "high", "Git metadata exposed", Some("ref:"))
    } else if k == 20 {
        ("/.svn/entries", "high", "SVN metadata", None)
    } else if k == 21 {
        ("/.env", "critical", "Environment secrets", Some("="))
    } else if k == 22 {
        ("/wp-admin/install.php", "medium", "Installer still reachable", None)
    } else if k == 23 {
        ("/wp-admin/setup-config.php", "medium", "Setup config reachable", None)
    } else if k == 24 {
        ("/readme.html", "low", "Default readme (version leak)", Some("WordPress"))
    } else if k == 25 {
        ("/license.txt", "info", "License file present", Some("WordPress"))
    } else if k == 26 {
        ("/wp-includes/version.php", "medium", "version.php should not be directly useful", Some("$wp_version"))
    } else if k == 27 {
        ("/wp-json/", "info", "REST API root", Some("namespaces"))
    } else if k == 28 {
        ("/?rest_route=/", "info", "REST via query arg", Some("namespaces"))
    } else if k == 29 {
        ("/wp-cron.php", "info", "Cron endpoint", None)
    } else if k == 30 {
        ("/xmlrpc.php", "medium", "XML-RPC endpoint", None)
    } else if k == 31 {
        ("/wp-login.php", "info", "Login page", None)
    } else if k == 32 {
        ("/wp-admin/", "info", "Admin panel", None)
    } else if k == 33 {
        ("/wp-content/plugins/", "low", "Plugins directory listing?", Some("Index of"))
    } else if k == 34 {
        ("/wp-content/themes/", "low", "Themes directory listing?", Some("Index of"))
    } else if k == 35 {
        ("/wp-content/uploads/wp-file-manager-pro/fm_backup/", "critical", "File Manager backup path", None)
    } else if k == 36 {
        ("/wp-content/ai1wm-backups/", "critical", "All-in-One WP Migration backups", None)
    } else if k == 37 {
        ("/wp-content/updraft/", "critical", "UpdraftPlus backups", None)
    } else if k == 38 {
        ("/wp-content/uploads/wpvividbackups/", "critical", "WPvivid backups", None)
    } else if k == 39 {
        ("/wp-content/backupwordpress/", "high", "BackupWordPress dir", None)
    } else if k == 40 {
        ("/phpinfo.php", "high", "phpinfo exposed", Some("PHP Version"))
    } else if k == 41 {
        ("/info.php", "high", "phpinfo exposed", Some("PHP Version"))
    } else if k == 42 {
        ("/.user.ini", "medium", "PHP user.ini", None)
    } else {
        ("/wp-content/mu-plugins/", "info", "Must-use plugins dir", Some("Index of"))
    }
}


// ─── Probe classification ───────────────────────────────────────────────────

/// Statuses worth looking at.
pub open spec fn interesting_status(s: u16) -> bool {
    s == 200 || s == 403 || s == 401 || s == 301 || s == 302
}

pub open spec fn is_known_risk(r: Seq<char>) -> bool {
    r == "critical"@ || r == "high"@ || r == "medium"@ || r == "low"@ || r == "info"@
}

/// Hints whose absence on a 200 always means a soft 404.
pub open spec fn strict_hint(h: Seq<char>) -> bool {
    h == "Index of"@ || h == "DB_"@ || h == "INSERT"@ || h == "ref:"@ || h == "PHP Version"@ || h
        == "$wp_version"@
}

pub open spec fn is_serious(r: Seq<char>) -> bool {
    r == "critical"@ || r == "high"@
}

/// Paths whose 403 is expected and not worth reporting.
pub open spec fn forbidden_expected(p: Seq<char>) -> bool {
    p == "/wp-admin/"@ || p == "/wp-login.php"@ || p == "/wp-content/plugins/"@ || p
        == "/wp-content/themes/"@
}

/// A hit as plain values.
pub struct HitV {
    pub path: Seq<char>,
    pub status: u16,
    pub length: usize,
    pub risk: Seq<char>,
    pub note: Seq<char>,
}

pub open spec fn hit_view(h: WpPathHit) -> HitV {
    HitV { path: h.path@, status: h.status, length: h.length, risk: h.risk@, note: h.note@ }
}

pub open spec fn hits_view(v: Seq<WpPathHit>) -> Seq<HitV> {
    v.map_values(|h: WpPathHit| hit_view(h))
}

/// Byte length of a body (`str::len`).
pub open spec fn body_len(body: Seq<char>) -> usize {
    vstd::utf8::encode_utf8(body).len() as usize
}

/// Whether a 200 lacks the body hint its path requires (soft 404 when the
/// hint is a strict one or the path is critical/high).
pub open spec fn hint_rejects(risk: Seq<char>, hint: Option<Seq<char>>, body: Seq<char>) -> bool {
    match hint {
        Some(h) => !contains(body, h) && ((is_known_risk(risk) && strict_hint(h)) || is_serious(
            risk,
        )),
        None => false,
    }
}

/// What the probe of table row `k` reports, given its status and body.
pub open spec fn classify_spec(k: int, status: u16, body: Seq<char>) -> Option<HitV> {
    let row = path_row(k);
    let path = row.0;
    let risk = row.1;
    let note = row.2;
    let length = body_len(body);
    if !interesting_status(status) {
        None
    } else if status == 200 && hint_rejects(risk, row.3, body) {
        None
    } else if status == 200 && length < 40 && !contains(path, "wp-cron"@) {
        None
    } else if status == 403 && !forbidden_expected(path) {
        if is_serious(risk) {
            Some(
                HitV {
                    path,
                    status,
                    length,
                    risk,
                    note: note + " (forbidden — may still exist)"@,
                },
            )
        } else {
            None
        }
    } else if status == 200 || status == 401 {
        Some(HitV { path, status, length, risk, note })
    } else {
        None
    }
}

pub fn is_interesting_status(s: u16) -> (b: bool)
    ensures
        b == interesting_status(s),
{
    s == 200 || s == 403 || s == 401 || s == 301 || s == 302
}

fn is_serious_exec(r: &str) -> (b: bool)
    ensures
        b == is_serious(r@),
{
    str_eq(r, "critical") || str_eq(r, "high")
}

/// Classifies the probe of table row `k` from its status and body.
pub fn classify_probe(k: usize, status: u16, body: &str) -> (r: Option<WpPathHit>)
    requires
        k < PATH_COUNT,
    ensures
        match r {
            Some(h) => classify_spec(k as int, status, body@) == Some(hit_view(h)),
            None => classify_spec(k as int, status, body@) is None,
        },
{
    let (path, risk, note, hint) = path_row_exec(k);
    if !is_interesting_status(status) {
        return None;
    }
    let length = body.len();
    if status == 200 {
        if let Some(h) = hint {
            if !str_contains(body, h) {
                let known = str_eq(risk, "critical") || str_eq(risk, "high") || str_eq(
                    risk,
                    "medium",
                ) || str_eq(risk, "low") || str_eq(risk, "info");
                let strict = str_eq(h, "Index of") || str_eq(h, "DB_") || str_eq(h, "INSERT")
                    || str_eq(h, "ref:") || str_eq(h, "PHP Version") || str_eq(h, "$wp_version");
                if known && strict {
                    return None;
                }
                if is_serious_exec(risk) {
                    return None;
                }
            }
        }
        if length < 40 && !str_contains(path, "wp-cron") {
            return None;
        }
    }
    if status == 403 && !(str_eq(path, "/wp-admin/") || str_eq(path, "/wp-login.php") || str_eq(
        path,
        "/wp-content/plugins/",
    ) || str_eq(path, "/wp-content/themes/")) {
        if is_serious_exec(risk) {
            let mut n = chars_of(note);
            push_str(&mut n, " (forbidden — may still exist)");
            return Some(
                WpPathHit {
                    path: lit(path),
                    status,
                    length,
                    risk: lit(risk),
                    note: string_of(n.as_slice()),
                },
            );
        }
        return None;
    }
    if status == 200 || status == 401 {
        Some(WpPathHit { path: lit(path), status, length, risk: lit(risk), note: lit(note) })
    } else {
        None
    }
}

/// URL probed for table row `k`.
pub fn probe_url(base: &str, k: usize) -> (r: String)
    requires
        k < PATH_COUNT,
    ensures
        r@ == base@ + path_row(k as int).0,
{
    let (path, _, _, _) = path_row_exec(k);
    let mut out = chars_of(base);
    push_str(&mut out, path);
    string_of(out.as_slice())
}


// ─── Ordering of the findings ──────────────────────────────────────────────

/// Sort rank of a risk: critical first, unknown risks last.
pub open spec fn risk_rank(r: Seq<char>) -> u8 {
    if r == "critical"@ {
        0
    } else if r == "high"@ {
        1
    } else if r == "medium"@ {
        2
    } else if r == "low"@ {
        3
    } else {
        4
    }
}

fn risk_rank_exec(r: &str) -> (k: u8)
    ensures
        k == risk_rank(r@),
{
    if str_eq(r, "critical") {
        0
    } else if str_eq(r, "high") {
        1
    } else if str_eq(r, "medium") {
        2
    } else if str_eq(r, "low") {
        3
    } else {
        4
    }
}

/// `a` sorts strictly before `b`: by risk rank, then by path.
pub open spec fn hit_before(a: HitV, b: HitV) -> bool {
    risk_rank(a.risk) < risk_rank(b.risk) || (risk_rank(a.risk) == risk_rank(b.risk) && seq_lt(
        a.path,
        b.path,
    ))
}

/// Where a new hit goes among already sorted ones: before the first hit it
/// sorts strictly before, so equal keys keep their arrival order.
pub open spec fn insert_pos(s: Seq<HitV>, x: HitV) -> int
    decreases s.len(),
{
    if s.len() == 0 {
        0
    } else if hit_before(x, s[0]) {
        0
    } else {
        1 + insert_pos(s.drop_first(), x)
    }
}

/// The stable sort of the hits by (risk rank, path).
pub open spec fn sort_hits(s: Seq<HitV>) -> Seq<HitV>
    decreases s.len(),
{
    if s.len() == 0 {
        seq![]
    } else {
        let t = sort_hits(s.drop_last());
        t.insert(insert_pos(t, s.last()), s.last())
    }
}

pub proof fn lemma_insert_pos_range(s: Seq<HitV>, x: HitV)
    ensures
        0 <= insert_pos(s, x) <= s.len(),
    decreases s.len(),
{
    if s.len() > 0 {
        lemma_insert_pos_range(s.drop_first(), x);
    }
}

pub proof fn lemma_sort_len(s: Seq<HitV>)
    ensures
        sort_hits(s).len() == s.len(),
    decreases s.len(),
{
    if s.len() > 0 {
        lemma_sort_len(s.drop_last());
        lemma_insert_pos_range(sort_hits(s.drop_last()), s.last());
    }
}

fn before_exec(a: &WpPathHit, b: &WpPathHit) -> (r: bool)
    ensures
        r == hit_before(hit_view(*a), hit_view(*b)),
{
    let ra = risk_rank_exec(a.risk.as_str());
    let rb = risk_rank_exec(b.risk.as_str());
    ra < rb || (ra == rb && str_lt(a.path.as_str(), b.path.as_str()))
}

/// Sorts the findings by risk (critical first), then path; equal keys keep
/// their order.
pub fn sort_findings(hits: Vec<WpPathHit>) -> (r: Vec<WpPathHit>)
    ensures
        hits_view(r@) == sort_hits(hits_view(hits@)),
{
    let ghost input = hits_view(hits@);
    let mut out: Vec<WpPathHit> = Vec::new();
    let rest = hits;
    assert(hits_view(out@) =~= sort_hits(input.take(0)));
    let mut k: usize = 0;
    let n = rest.len();
    while k < n
        invariant
            k <= n,
            n == input.len(),
            input == hits_view(rest@),
            hits_view(out@) == sort_hits(input.take(k as int)),
        decreases n - k,
    {
        assert(input.take(k + 1).drop_last() =~= input.take(k as int));
        let x = &rest[k];
        let ghost t = hits_view(out@);
        let mut pos: usize = 0;
        proof {
            lemma_insert_pos_range(t, hit_view(*x));
        }
        assert(t.skip(0) =~= t);
        while pos < out.len() && !before_exec(x, &out[pos])
            invariant
                pos <= out@.len(),
                t == hits_view(out@),
                insert_pos(t, hit_view(*x)) == pos + insert_pos(t.skip(pos as int), hit_view(*x)),
            decreases out@.len() - pos,
        {
            assert(t.skip(pos as int)[0] == hit_view(out@[pos as int]));
            assert(t.skip(pos as int).drop_first() =~= t.skip(pos + 1));
            pos = pos + 1;
        }
        proof {
            if pos < out@.len() {
                assert(t.skip(pos as int)[0] == hit_view(out@[pos as int]));
            }
        }
        let item = WpPathHit {
            path: x.path.clone(),
            status: x.status,
            length: x.length,
            risk: x.risk.clone(),
            note: x.note.clone(),
        };
        assert(hit_view(item) == input[k as int]);
        out.insert(pos, item);
        assert(hits_view(out@) =~= t.insert(pos as int, hit_view(item)));
        k = k + 1;
    }
    assert(input.take(n as int) =~= input);
    out
}

// ─── Report ─────────────────────────────────────────────────────────────────

/// Outcome of one probe: a response (status and body) or a request error.
pub enum ProbeOutcome {
    Response { status: u16, body: String },
    Failed { error: String },
}

/// The hits of the probes in table order (probe `k` is row `k`).
pub open spec fn collect_hits(os: Seq<ProbeOutcome>) -> Seq<HitV>
    decreases os.len(),
{
    if os.len() == 0 {
        seq![]
    } else {
        let prev = collect_hits(os.drop_last());
        match os.last() {
            ProbeOutcome::Response { status, body } => match classify_spec(
                os.len() - 1,
                status,
                body@,
            ) {
                Some(h) => prev.push(h),
                None => prev,
            },
            ProbeOutcome::Failed { .. } => prev,
        }
    }
}

/// Text of the first failed probe.
pub open spec fn first_error(os: Seq<ProbeOutcome>) -> Option<Seq<char>>
    decreases os.len(),
{
    if os.len() == 0 {
        None
    } else {
        match first_error(os.drop_last()) {
            Some(e) => Some(e),
            None => match os.last() {
                ProbeOutcome::Failed { error } => Some("Request error: "@ + error@),
                ProbeOutcome::Response { .. } => None,
            },
        }
    }
}

pub proof fn lemma_collect_len(os: Seq<ProbeOutcome>)
    ensures
        collect_hits(os).len() <= os.len(),
    decreases os.len(),
{
    if os.len() > 0 {
        lemma_collect_len(os.drop_last());
    }
}

/// Assembles the report from one outcome per table row, in table order.
pub fn paths_report(base: &str, outcomes: &Vec<ProbeOutcome>) -> (r: WpPathsResponse)
    requires
        outcomes@.len() == PATH_COUNT,
    ensures
        r.url@ == base@,
        hits_view(r.findings@) == sort_hits(collect_hits(outcomes@)),
        r.probed == PATH_COUNT,
        r.notes@.len() == 2,
        r.notes@[0]@ == "Probed "@ + decimal(PATH_COUNT as nat) + " sensitive WordPress paths"@,
        r.notes@[1]@ == decimal(collect_hits(outcomes@).len()) + " interesting responses"@,
        match r.error {
            Some(e) => first_error(outcomes@) == Some(e@),
            None => first_error(outcomes@) is None,
        },
{
    let mut hits: Vec<WpPathHit> = Vec::new();
    let mut error: Option<String> = None;
    let mut k: usize = 0;
    assert(hits_view(hits@) =~= collect_hits(outcomes@.take(0)));
    while k < outcomes.len()
        invariant
            k <= outcomes@.len(),
            outcomes@.len() == PATH_COUNT,
            hits_view(hits@) == collect_hits(outcomes@.take(k as int)),
            match error {
                Some(e) => first_error(outcomes@.take(k as int)) == Some(e@),
                None => first_error(outcomes@.take(k as int)) is None,
            },
        decreases outcomes@.len() - k,
    {
        assert(outcomes@.take(k + 1).drop_last() =~= outcomes@.take(k as int));
        assert(outcomes@.take(k + 1).last() == outcomes@[k as int]);
        match &outcomes[k] {
            ProbeOutcome::Response { status, body } => {
                if let Some(h) = classify_probe(k, *status, body.as_str()) {
                    let ghost prev = hits_view(hits@);
                    hits.push(h);
                    assert(hits_view(hits@) =~= prev.push(hit_view(h)));
                }
            },
            ProbeOutcome::Failed { error: e } => {
                if error.is_none() {
                    let mut m = chars_of("Request error: ");
                    push_all(&mut m, chars_of(e.as_str()).as_slice());
                    error = Some(string_of(m.as_slice()));
                }
            },
        }
        k = k + 1;
    }
    assert(outcomes@.take(outcomes@.len() as int) =~= outcomes@);
    proof {
        lemma_collect_len(outcomes@);
    }
    let count = hits.len();
    let sorted = sort_findings(hits);
    let mut n1 = chars_of("Probed ");
    push_all(&mut n1, decimal_chars(PATH_COUNT as u64).as_slice());
    push_str(&mut n1, " sensitive WordPress paths");
    let mut n2 = decimal_chars(count as u64);
    push_str(&mut n2, " interesting responses");
    let mut notes: Vec<String> = Vec::new();
    notes.push(string_of(n1.as_slice()));
    notes.push(string_of(n2.as_slice()));
    WpPathsResponse { url: lit(base), findings: sorted, probed: PATH_COUNT, notes, error }
}


// ─── Laws ───────────────────────────────────────────────────────────────────

pub proof fn lemma_before_order(a: HitV, b: HitV, c: HitV)
    ensures
        !hit_before(a, a),
        !(hit_before(a, b) && hit_before(b, a)),
        (hit_before(a, b) && hit_before(b, c)) ==> hit_before(a, c),
{
    lemma_seq_lt_irreflexive(a.path);
    lemma_seq_lt_total(a.path, b.path);
    if seq_lt(a.path, b.path) && seq_lt(b.path, c.path) {
        lemma_seq_lt_transitive(a.path, b.path, c.path);
    }
}

pub proof fn lemma_insert_pos(s: Seq<HitV>, x: HitV)
    ensures
        0 <= insert_pos(s, x) <= s.len(),
        forall|i: int| 0 <= i < insert_pos(s, x) ==> !hit_before(x, #[trigger] s[i]),
        insert_pos(s, x) < s.len() ==> hit_before(x, s[insert_pos(s, x)]),
    decreases s.len(),
{
    if s.len() > 0 && !hit_before(x, s[0]) {
        lemma_insert_pos(s.drop_first(), x);
        assert forall|i: int| 0 <= i < insert_pos(s, x) implies !hit_before(x, #[trigger] s[i]) by {
            if i > 0 {
                assert(s[i] == s.drop_first()[i - 1]);
            }
        }
    }
}

pub open spec fn sorted_hits(s: Seq<HitV>) -> bool {
    forall|i: int, j: int| 0 <= i < j < s.len() ==> !hit_before(#[trigger] s[j], #[trigger] s[i])
}

/// The findings come out ordered by (risk rank, path) — no hit sorts before
/// an earlier one — and they are exactly the hits that went in.
pub proof fn findings_sorted_and_complete(s: Seq<HitV>)
    ensures
        sorted_hits(sort_hits(s)),
        sort_hits(s).to_multiset() == s.to_multiset(),
        sort_hits(s).len() == s.len(),
    decreases s.len(),
{
    broadcast use vstd::seq_lib::to_multiset_insert, vstd::seq_lib::to_multiset_build;

    if s.len() == 0 {
        assert(s =~= Seq::<HitV>::empty());
    } else {
        let init = s.drop_last();
        let x = s.last();
        findings_sorted_and_complete(init);
        let t = sort_hits(init);
        lemma_insert_pos(t, x);
        let p = insert_pos(t, x);
        let u = t.insert(p, x);
        assert(u == sort_hits(s));
        assert forall|i: int, j: int| 0 <= i < j < u.len() implies !hit_before(
            #[trigger] u[j],
            #[trigger] u[i],
        ) by {
            if j < p {
                assert(u[i] == t[i] && u[j] == t[j]);
            } else if j == p {
                assert(u[i] == t[i]);
            } else if i == p {
                assert(u[j] == t[j - 1]);
                lemma_before_order(t[j - 1], x, t[p]);
                if j - 1 > p {
                    assert(!hit_before(t[j - 1], t[p]));
                }
            } else if i < p {
                assert(u[i] == t[i] && u[j] == t[j - 1]);
            } else {
                assert(u[i] == t[i - 1] && u[j] == t[j - 1]);
            }
        }
        assert(s =~= init.push(x));
    }
}

/// Only statuses 200, 401 and 403 are ever reported, a 403 only for a
/// critical or high risk path, and a hit always names its table row.
pub proof fn reported_statuses(k: int, status: u16, body: Seq<char>)
    ensures
        match classify_spec(k, status, body) {
            Some(h) => {
                &&& (h.status == 200 || h.status == 401 || h.status == 403)
                &&& h.status == status
                &&& h.path == path_row(k).0
                &&& h.risk == path_row(k).1
                &&& (h.status == 403 ==> is_serious(h.risk))
            },
            None => true,
        },
        !interesting_status(status) ==> classify_spec(k, status, body) is None,
        (status == 301 || status == 302) ==> classify_spec(k, status, body) is None,
{
}

} // verus!
