use bugbounty_server::catalogue::{is_hidden, is_markdown_name, library_stats, sort_entries, FileEntry};
use bugbounty_server::common::retry_after;
use bugbounty_server::file_tree::{build_tree, TreeNode};

fn entry(rel: &str, category: &str) -> FileEntry {
    FileEntry {
        path: format!("/repo/{rel}"),
        relative_path: rel.to_string(),
        title: rel.to_string(),
        category: category.to_string(),
        last_modified: String::new(),
    }
}

fn files(v: &[(&str, &str)]) -> Vec<(String, String)> {
    v.iter().map(|(p, t)| (p.to_string(), t.to_string())).collect()
}

fn shape(nodes: &[TreeNode]) -> Vec<String> {
    let mut out = Vec::new();
    for n in nodes {
        let kind = if n.is_dir { "d" } else { "f" };
        out.push(format!("{kind}:{}:{}", n.name, n.path));
        for line in shape(&n.children) {
            out.push(format!("  {line}"));
        }
    }
    out
}

#[test]
fn tree_places_documents_under_their_directories() {
    let tree = build_tree(&files(&[
        ("guides/xss.md", "XSS"),
        ("guides/web/sqli.md", "SQL injection"),
        ("references/tools.md", "Tools"),
        ("guides/web/auth.md", "auth bypass"),
    ]));
    assert_eq!(
        shape(&tree),
        vec![
            "d:guides:guides",
            "  d:web:guides/web",
            "    f:auth bypass:guides/web/auth.md",
            "    f:SQL injection:guides/web/sqli.md",
            "  f:XSS:guides/xss.md",
            "d:references:references",
            "  f:Tools:references/tools.md",
        ]
    );
}

#[test]
fn tree_levels_put_directories_first_and_ignore_case() {
    let tree = build_tree(&files(&[("b.md", "beta"), ("Zed/x.md", "X"), ("a.md", "Alpha"), ("c.md", "alpha")]));
    assert_eq!(
        shape(&tree),
        vec!["d:Zed:Zed", "  f:X:Zed/x.md", "f:Alpha:a.md", "f:alpha:c.md", "f:beta:b.md"]
    );
    assert!(build_tree(&Vec::new()).is_empty());
}

#[test]
fn entries_sorted_by_path_and_counted() {
    let sorted = sort_entries(vec![
        entry("references/z.md", "references"),
        entry("case-studies/a.md", "case-studies"),
        entry("guides/b.md", "guides"),
        entry("guides/a.md", "guides"),
    ]);
    let paths: Vec<&str> = sorted.iter().map(|e| e.relative_path.as_str()).collect();
    assert_eq!(paths, vec!["case-studies/a.md", "guides/a.md", "guides/b.md", "references/z.md"]);
    let stats = library_stats(&sorted);
    assert_eq!(stats.total_files, 4);
    assert_eq!(stats.guides, 2);
    assert_eq!(stats.references, 1);
    assert_eq!(stats.case_studies, 1);
    let other = library_stats(&vec![entry("misc/a.md", "misc")]);
    assert_eq!((other.total_files, other.guides, other.references, other.case_studies), (1, 0, 0, 0));
}

#[test]
fn retries_only_transient_failures_with_linear_backoff() {
    assert_eq!(retry_after(0, 3, true), Some(200));
    assert_eq!(retry_after(1, 3, true), Some(400));
    assert_eq!(retry_after(2, 3, true), None);
    assert_eq!(retry_after(0, 3, false), None);
    assert_eq!(retry_after(0, 0, true), None);
    assert_eq!(retry_after(0, 1, true), None);
}

#[test]
fn documents_are_visible_markdown_files() {
    assert!(is_markdown_name("xss.md"));
    assert!(is_markdown_name("a.b.md"));
    assert!(!is_markdown_name(".md"));
    assert!(!is_markdown_name("notes.MD"));
    assert!(!is_markdown_name("md"));
    assert!(!is_markdown_name("readme.md.bak"));
    assert!(!is_markdown_name("file."));
    assert!(is_hidden(".git"));
    assert!(!is_hidden("guides"));
    assert!(!is_hidden(""));
}
