use bugbounty_server::wp_org::{
    decode_entities, intel_notes, intel_request, meta_key, meta_url, replace_str, repo_meta_from,
    repo_url, strip_html, RepoCache, RepoMeta, WpOrgInfo,
};

fn info(status: u16) -> WpOrgInfo {
    WpOrgInfo {
        status,
        has_error: false,
        name: Some(" Hello &amp; World ".into()),
        version: Some(" 1.2 ".into()),
        author: Some("<a href=\"https://x\">Bob   Smith</a>".into()),
        homepage: Some("   ".into()),
        download_link: None,
        downloaded: Some(10),
        active_installs: Some(5),
        last_updated: Some("2024-01-01".into()),
        requires: None,
        tested: None,
        tags: vec!["seo".into()],
    }
}

#[test]
fn html_stripped_and_entities_decoded() {
    assert_eq!(strip_html("<a href='x'>Jane   Doe</a>\n <b>x</b>"), "Jane Doe x");
    assert_eq!(decode_entities("Tom &amp; Jerry &#8211; &#65;&#xyz;"), "Tom & Jerry \u{2013} A&#xyz;");
    assert_eq!(decode_entities("&amp;#66;"), "B");
    assert_eq!(decode_entities("&#55296;x"), "x");
    assert_eq!(replace_str("aaa", "aa", "b"), "ba");
}

#[test]
fn repo_meta_built_from_answer() {
    let m = repo_meta_from(&info(200));
    assert!(m.found);
    assert_eq!(m.name.as_deref(), Some("Hello & World"));
    assert_eq!(m.version.as_deref(), Some("1.2"));
    assert_eq!(m.author.as_deref(), Some("Bob Smith"));
    assert_eq!(m.homepage, None);
    assert_eq!(m.downloads, Some(10));
    assert_eq!(m.tags, vec!["seo".to_string()]);
    let off = repo_meta_from(&info(404));
    assert!(!off.found);
    assert_eq!(off.name, None);
    let mut e = info(200);
    e.has_error = true;
    assert!(!repo_meta_from(&e).found);
}

#[test]
fn cache_read_after_write() {
    let mut c = RepoCache::new();
    assert!(c.cached_repo_meta("plugin", "akismet").is_none());
    c.insert("plugin", "akismet", repo_meta_from(&info(200)));
    let got = c.cached_repo_meta("plugin", "akismet").unwrap();
    assert_eq!(got.version.as_deref(), Some("1.2"));
    assert!(c.cached_repo_meta("theme", "akismet").is_none());
    c.insert("plugin", "akismet", RepoMeta::default());
    assert!(!c.cached_repo_meta("plugin", "akismet").unwrap().found);
}

#[test]
fn urls_and_keys() {
    assert_eq!(meta_key("theme", "astra"), "theme:astra");
    assert_eq!(
        meta_url("theme", "astra"),
        "https://api.wordpress.org/themes/info/1.2/?action=theme_information&request[slug]=astra"
    );
    assert_eq!(
        meta_url("plugin", "akismet"),
        "https://api.wordpress.org/plugins/info/1.2/?action=plugin_information&request[slug]=akismet"
    );
    assert_eq!(repo_url("plugin", "akismet"), "https://wordpress.org/plugins/akismet/");
    assert_eq!(repo_url("theme", "astra"), "https://wordpress.org/themes/astra/");
}

#[test]
fn intel_requests_checked() {
    let q = intel_request(Some("Plugin"), Some(" akismet "), Some("  ")).unwrap();
    assert_eq!(q.comp_type, "plugin");
    assert_eq!(q.slug, "akismet");
    assert_eq!(q.version, None);
    assert_eq!(
        intel_request(Some("x"), Some("a"), None).err().as_deref(),
        Some("Missing or invalid 'type' parameter (expected plugin|theme)")
    );
    assert_eq!(intel_request(Some("theme"), Some("  "), None).err().as_deref(), Some("Missing 'slug' parameter"));
    assert_eq!(intel_request(None, Some("a"), None).is_err(), true);
    let notes = intel_notes("acme", false, false);
    assert_eq!(notes.len(), 2);
    assert_eq!(notes[0], "Installed version unknown — vulnerability matching skipped.");
    assert_eq!(
        notes[1],
        "acme is not on wordpress.org (commercial/custom plugin) — latest-version comparison unavailable."
    );
    assert!(intel_notes("acme", true, true).is_empty());
}

#[test]
fn cache_answers_the_latest_fetch() {
    let mut c = RepoCache::new();
    c.insert("plugin", "akismet", RepoMeta::default());
    c.insert("theme", "astra", repo_meta_from(&info(200)));
    c.insert("plugin", "akismet", repo_meta_from(&info(200)));
    c.insert("plugin", "jetpack", RepoMeta::default());
    assert!(c.cached_repo_meta("plugin", "akismet").unwrap().found);
    assert!(c.cached_repo_meta("theme", "astra").unwrap().found);
    assert!(!c.cached_repo_meta("plugin", "jetpack").unwrap().found);
    assert!(c.cached_repo_meta("theme", "jetpack").is_none());
}

#[test]
fn probe_urls_built_from_base() {
    assert_eq!(bugbounty_server::wp_urls::plugin_readme_url("https://a.com", "akismet"), "https://a.com/wp-content/plugins/akismet/readme.txt");
    assert_eq!(bugbounty_server::wp_urls::plugin_dir_url("https://a.com", "akismet"), "https://a.com/wp-content/plugins/akismet/");
    assert_eq!(bugbounty_server::wp_urls::theme_style_url("https://a.com", "astra"), "https://a.com/wp-content/themes/astra/style.css");
    assert_eq!(bugbounty_server::wp_urls::author_url("https://a.com", 12), "https://a.com/?author=12");
    assert_eq!(bugbounty_server::wp_urls::wp_json_url("https://a.com"), "https://a.com/wp-json/");
    assert_eq!(bugbounty_server::wp_urls::readme_html_url("https://a.com"), "https://a.com/readme.html");
    assert_eq!(bugbounty_server::wp_urls::rest_users_url("https://a.com"), "https://a.com/wp-json/wp/v2/users?per_page=100");
    assert_eq!(bugbounty_server::wp_urls::rest_posts_url("https://a.com"), "https://a.com/wp-json/wp/v2/posts?per_page=5");
}

#[test]
fn answers_recorded_in_the_cache() {
    let mut c = RepoCache::new();
    let m = c.record_answer("plugin", "akismet", &info(200));
    assert!(m.found);
    assert_eq!(c.cached_repo_meta("plugin", "akismet").unwrap().version.as_deref(), Some("1.2"));
    let off = c.record_answer("plugin", "akismet", &info(404));
    assert!(!off.found);
    assert!(!c.cached_repo_meta("plugin", "akismet").unwrap().found);
}
