use bugbounty_server::chunking::chunk_markdown;
use bugbounty_server::library::{
    category_of, chat_message, chunk_header, context_budget, ctx_size, generate_snippet,
    grounded_prompt, header_fits, launch_args, markdown_title, model_down_message, prefix_search,
    question_line, render_markdown, sse_data, sse_event_end, ChatQuery,
};

fn strs(v: &[&str]) -> Vec<String> {
    v.iter().map(|s| s.to_string()).collect()
}

#[test]
fn titles_categories_snippets() {
    assert_eq!(markdown_title("intro\n#  Title here \nx").as_deref(), Some("Title here"));
    assert_eq!(markdown_title("##Sub\nno"), None);
    assert_eq!(category_of("guides/a/b.md"), "guides");
    assert_eq!(generate_snippet("The quick brown fox", "BROWN", 200), "The quick brown fox...");
    let long = format!("{}needle{}", "a".repeat(100), "b".repeat(100));
    let s = generate_snippet(&long, "needle", 200);
    assert_eq!(s, format!("...{}needle{}...", "a".repeat(60), "b".repeat(60)));
    assert_eq!(generate_snippet("short text", "zzz", 200), "short text");
    assert_eq!(generate_snippet("abcdef", "zzz", 3), "abc...");
}

#[test]
fn model_server_settings() {
    let flags = strs(&["--port", "8080", "--ctx-size", "4096"]);
    assert_eq!(
        launch_args("llama-server", "m.gguf", &flags),
        strs(&["llama-server", "-m", "m.gguf", "--port", "8080", "--ctx-size", "4096"])
    );
    assert_eq!(ctx_size(&flags), 4096);
    assert_eq!(ctx_size(&strs(&["--ctx-size"])), 8192);
    assert_eq!(ctx_size(&strs(&["--ctx-size", "big"])), 8192);
    assert_eq!(model_down_message("http://127.0.0.1:8080"), "Model server is not running. Click “Start model” in the Ask panel (or launch llama-server at http://127.0.0.1:8080). See server/rag/model_config.toml.");
}

#[test]
fn prompt_pieces() {
    assert_eq!(chat_message(&ChatQuery { message: "  ".into(), limit: 5 }), Err("Message cannot be empty".to_string()));
    assert_eq!(chat_message(&ChatQuery { message: " hi ".into(), limit: 5 }), Ok("hi".to_string()));
    assert_eq!(context_budget(8192, 100, 20, 1024), 6920);
    assert_eq!(context_budget(100, 200, 20, 1024), 0);
    assert_eq!(header_fits(100, 90), None);
    assert_eq!(header_fits(200, 50), Some(134));
    assert_eq!(chunk_header(2, "g/a.md", "A"), "\n\n[2] File: g/a.md\nTitle: A\n");
    assert_eq!(question_line("why?"), "Question: why?");
    assert!(grounded_prompt("CTX", "Q").ends_with("=== CONTEXT ===\nCTX\n=== END CONTEXT ===\n\nQuestion: Q"));
}

#[test]
fn prefix_search_finds_longest_fit() {
    let fits = |k: usize| k <= 7;
    let mut s = prefix_search(20);
    while let Some(m) = s.probe() {
        s.record(fits(m));
    }
    assert_eq!(s.best, 7);
    let mut none = prefix_search(5);
    while let Some(m) = none.probe() {
        none.record(m > 100);
    }
    assert_eq!(none.best, 0);
}

#[test]
fn markdown_chunked_by_headings() {
    let c = chunk_markdown("# A\nintro\n## B\nbody b\n", "g/a.md", "T");
    let texts: Vec<&str> = c.iter().map(|x| x.text.as_str()).collect();
    assert_eq!(texts, vec!["# A\n\nintro", "# A\n# B\n\nbody b"]);
    assert!(c.iter().all(|x| x.path == "g/a.md" && x.title == "T"));
    let para = "p".repeat(500);
    let doc = format!("# L\n{para}\n{para}\n");
    let long = chunk_markdown(&doc, "p", "t");
    assert_eq!(long.len(), 2);
    assert_eq!(long[0].text, format!("# L\n\n{para}"));
    assert_eq!(long[1].text, format!("# L\n\n{}\n{para}", "p".repeat(120)));
    assert!(chunk_markdown("   \n", "p", "t").is_empty());
}

#[test]
fn stream_events_are_framed_and_their_data_read() {
    assert_eq!(sse_event_end(b"data: {\"a\":1}\n\ndata: x"), Some(13));
    assert_eq!(sse_event_end(b"data: partial\n"), None);
    assert_eq!(sse_event_end(b""), None);
    assert_eq!(sse_event_end(b"\n\n"), Some(0));
    assert_eq!(
        sse_data("event: delta\r\n  data:  {\"x\": 1}  \n: comment\ndata:[DONE]\n"),
        vec!["{\"x\": 1}".to_string(), "[DONE]".to_string()]
    );
    assert!(sse_data("id: 7\n").is_empty());
}

#[test]
fn documents_render_inside_a_markdown_body() {
    assert_eq!(render_markdown("# Hi"), "<div class=\"markdown-body\"><h1>Hi</h1>\n</div>");
    assert_eq!(
        render_markdown("- [x] done\n"),
        "<div class=\"markdown-body\"><ul>\n<li><input disabled=\"\" type=\"checkbox\" checked=\"\"/>\ndone</li>\n</ul>\n</div>"
    );
    assert_eq!(render_markdown(""), "<div class=\"markdown-body\"></div>");
}
