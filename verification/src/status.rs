//! The tool catalog — the single source of truth for tool ids, binaries,
//! categories and labels — and the install-status rows built from it.

use vstd::prelude::*;

use crate::text::{lit, str_eq};

verus! {

pub struct ToolStatus {
    pub id: String,
    pub binary: String,
    pub category: String,
    pub label: String,
    pub installed: bool,
}

pub struct ToolsStatusResponse {
    pub tools: Vec<ToolStatus>,
}

/// Number of catalog rows.
pub const CATALOG_LEN: usize = 23;

/// Row `k` of the catalog: (id, binary — empty for a builtin —, category, label).
pub open spec fn catalog_row(k: int) -> (Seq<char>, Seq<char>, Seq<char>, Seq<char>) {
    if k == 0 {
        ("wordpress-check"@, ""@, "wordpress"@, "WP Version Check"@)
    } else if k == 1 {
        ("wordpress-users"@, ""@, "wordpress"@, "User Enum"@)
    } else if k == 2 {
        ("wordpress-plugins"@, ""@, "wordpress"@, "Plugin Enum"@)
    } else if k == 3 {
        ("wordpress-themes"@, ""@, "wordpress"@, "Theme Enum"@)
    } else if k == 4 {
        ("wordpress-xmlrpc"@, ""@, "wordpress"@, "XML-RPC Probe"@)
    } else if k == 5 {
        ("wordpress-paths"@, ""@, "wordpress"@, "Sensitive Paths"@)
    } else if k == 6 {
        ("wordpress-rest"@, ""@, "wordpress"@, "REST Surface"@)
    } else if k == 7 {
        ("wordpress-nuclei"@, "nuclei"@, "wordpress"@, "WP Nuclei Scan"@)
    } else if k == 8 {
        ("wordpress-vuln-scan"@, ""@, "wordpress"@, "WF Vuln Scanner"@)
    } else if k == 9 {
        ("httpx-probe"@, "httpx"@, "web"@, "Live Probe"@)
    } else if k == 10 {
        ("nuclei-scan"@, "nuclei"@, "web"@, "Vuln Scan"@)
    } else if k == 11 {
        ("ffuf-fuzz"@, "ffuf"@, "web"@, "Path Fuzz"@)
    } else if k == 12 {
        ("cors-check"@, ""@, "web"@, "CORS Check"@)
    } else if k == 13 {
        ("open-redirect"@, ""@, "web"@, "Open Redirect"@)
    } else if k == 14 {
        ("security-headers"@, ""@, "web"@, "Security Headers"@)
    } else if k == 15 {
        ("subfinder-enum"@, "subfinder"@, "recon"@, "Subdomain Enum"@)
    } else if k == 16 {
        ("waybackurls-mine"@, "waybackurls"@, "recon"@, "Archive URLs"@)
    } else if k == 17 {
        ("katana-crawl"@, "katana"@, "recon"@, "Crawler"@)
    } else if k == 18 {
        ("js-analysis"@, ""@, "recon"@, "JS Analysis"@)
    } else if k == 19 {
        ("gitleaks-scan"@, "gitleaks"@, "local"@, "Secrets Scan"@)
    } else if k == 20 {
        ("trivy-scan"@, "trivy"@, "local"@, "FS Vuln Scan"@)
    } else if k == 21 {
        ("cve-lookup"@, ""@, "intel"@, "CVE Lookup"@)
    } else {
        ("findings-db"@, ""@, "intel"@, "Findings DB"@)
    }
}

pub fn catalog_row_exec(k: usize) -> (r: (&'static str, &'static str, &'static str, &'static str))
    requires
        k < CATALOG_LEN,
    ensures
        (r.0@, r.1@, r.2@, r.3@) == catalog_row(k as int),
{
    if k == 0 {
        ("wordpress-check", "", "wordpress", "WP Version Check")
    } else if k == 1 {
        ("wordpress-users", "", "wordpress", "User Enum")
    } else if k == 2 {
        ("wordpress-plugins", "", "wordpress", "Plugin Enum")
    } else if k == 3 {
        ("wordpress-themes", "", "wordpress", "Theme Enum")
    } else if k == 4 {
        ("wordpress-xmlrpc", "", "wordpress", "XML-RPC Probe")
    } else if k == 5 {
        ("wordpress-paths", "", "wordpress", "Sensitive Paths")
    } else if k == 6 {
        ("wordpress-rest", "", "wordpress", "REST Surface")
    } else if k == 7 {
        ("wordpress-nuclei", "nuclei", "wordpress", "WP Nuclei Scan")
    } else if k == 8 {
        ("wordpress-vuln-scan", "", "wordpress", "WF Vuln Scanner")
    } else if k == 9 {
        ("httpx-probe", "httpx", "web", "Live Probe")
    } else if k == 10 {
        ("nuclei-scan", "nuclei", "web", "Vuln Scan")
    } else if k == 11 {
        ("ffuf-fuzz", "ffuf", "web", "Path Fuzz")
    } else if k == 12 {
        ("cors-check", "", "web", "CORS Check")
    } else if k == 13 {
        ("open-redirect", "", "web", "Open Redirect")
    } else if k == 14 {
        ("security-headers", "", "web", "Security Headers")
    } else if k == 15 {
        ("subfinder-enum", "subfinder", "recon", "Subdomain Enum")
    } else if k == 16 {
        ("waybackurls-mine", "waybackurls", "recon", "Archive URLs")
    } else if k == 17 {
        ("katana-crawl", "katana", "recon", "Crawler")
    } else if k == 18 {
        ("js-analysis", "", "recon", "JS Analysis")
    } else if k == 19 {
        ("gitleaks-scan", "gitleaks", "local", "Secrets Scan")
    } else if k == 20 {
        ("trivy-scan", "trivy", "local", "FS Vuln Scan")
    } else if k == 21 {
        ("cve-lookup", "", "intel", "CVE Lookup")
    } else {
        ("findings-db", "", "intel", "Findings DB")
    }
}

/// Index of the first catalog row with the given id, searching from `from`.
pub open spec fn catalog_index_from(id: Seq<char>, from: nat) -> Option<nat>
    decreases CATALOG_LEN - from,
{
    if from >= CATALOG_LEN {
        None
    } else if catalog_row(from as int).0 == id {
        Some(from)
    } else {
        catalog_index_from(id, from + 1)
    }
}

/// Label of a tool id, when the catalog has it.
pub open spec fn tool_label_spec(id: Seq<char>) -> Option<Seq<char>> {
    match catalog_index_from(id, 0) {
        Some(k) => Some(catalog_row(k as int).3),
        None => None,
    }
}

/// Looks up a tool's display label by id.
pub fn tool_label(id: &str) -> (r: Option<&'static str>)
    ensures
        match r {
            Some(l) => tool_label_spec(id@) == Some(l@),
            None => tool_label_spec(id@) is None,
        },
{
    let mut k: usize = 0;
    while k < CATALOG_LEN
        invariant
            k <= CATALOG_LEN,
            catalog_index_from(id@, 0) == catalog_index_from(id@, k as nat),
        decreases CATALOG_LEN - k,
    {
        let (tid, _, _, label) = catalog_row_exec(k);
        if str_eq(tid, id) {
            return Some(label);
        }
        k = k + 1;
    }
    None
}

/// Status row for catalog entry `k`: a builtin (empty binary) is always
/// installed; otherwise `binary_found` says whether its binary is on PATH.
pub fn tool_status(k: usize, binary_found: bool) -> (s: ToolStatus)
    requires
        k < CATALOG_LEN,
    ensures
        s.id@ == catalog_row(k as int).0,
        s.category@ == catalog_row(k as int).2,
        s.label@ == catalog_row(k as int).3,
        s.binary@ == if catalog_row(k as int).1.len() == 0 {
            "builtin"@
        } else {
            catalog_row(k as int).1
        },
        s.installed == (catalog_row(k as int).1.len() == 0 || binary_found),
{
    let (id, binary, category, label) = catalog_row_exec(k);
    let builtin = binary.is_empty();
    ToolStatus {
        id: lit(id),
        binary: if builtin {
            lit("builtin")
        } else {
            lit(binary)
        },
        category: lit(category),
        label: lit(label),
        installed: builtin || binary_found,
    }
}

} // verus!
