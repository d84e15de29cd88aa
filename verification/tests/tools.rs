use ssg::backend::{hash_ip, AddCommentPayload, ClientIp};
use ssg::scaffold::{post_document, post_path, slugify};
use ssg::server::{fallback_path, get_content_type, request_path, served_path, should_rebuild};
use ssg::slug::{decode_from_url, encode_for_url, url_encode};
use ssg::syntax_highlighter::SyntaxHighlighter;
use ssg::tree_sitter_highlighter::{
    canonical_language, grammar_key, grammar_source, highlight_names, render_tokens, Grammar,
    TokenEvent, TreeSitterHighlighter,
};
use ssg::types::{PostDate, Timestamp};

#[test]
fn slugs_are_percent_encoded() {
    assert_eq!(encode_for_url("post-1"), "post-1");
    assert_eq!(encode_for_url("work/my_app.v2~x"), "work/my_app.v2~x");
    assert_eq!(encode_for_url("a b&c"), "a%20b%26c");
    assert_eq!(encode_for_url("한"), "%ED%95%9C");
    assert_eq!(encode_for_url(""), "");
    assert_eq!(decode_from_url("/a%20b/%ED%95%9C/"), "/a b/한/".as_bytes().to_vec());
    assert_eq!(decode_from_url("100%"), b"100%".to_vec());
    assert_eq!(decode_from_url("%zz%4"), b"%zz%4".to_vec());
    assert_eq!(decode_from_url("%2f%2F"), b"//".to_vec());
    assert_eq!(decode_from_url("%ff"), vec![0xffu8]);
}

#[test]
fn query_values_are_encoded() {
    assert_eq!(url_encode("a/b?c=d&e"), "a%2Fb%3Fc%3Dd%26e");
    assert_eq!(url_encode("100%"), "100%25");
    assert_eq!(url_encode("plain text 한"), "plain text 한");
    assert_eq!(url_encode(":#[]@!$'()*+,;"), "%3A%23%5B%5D%40%21%24%27%28%29%2A%2B%2C%3B");
}

#[test]
fn content_types() {
    assert_eq!(get_content_type("dist/index.html"), "text/html");
    assert_eq!(get_content_type("a.css"), "text/css");
    assert_eq!(get_content_type("a.js"), "application/javascript");
    assert_eq!(get_content_type("a.png"), "image/png");
    assert_eq!(get_content_type("a.jpg"), "image/jpeg");
    assert_eq!(get_content_type("a.jpeg"), "image/jpeg");
    assert_eq!(get_content_type("a.svg"), "image/svg+xml");
    assert_eq!(get_content_type("a.woff"), "font/woff");
    assert_eq!(get_content_type("a.woff2"), "font/woff2");
    assert_eq!(get_content_type("a.bin"), "application/octet-stream");
    assert_eq!(get_content_type("html"), "application/octet-stream");
}

#[test]
fn requests_map_to_files() {
    assert_eq!(served_path("/"), "dist/index.html");
    assert_eq!(served_path("/?x=1"), "dist/index.html");
    assert_eq!(served_path("/dev/"), "dist/dev/index.html");
    assert_eq!(served_path("/dev/a.css?v=2"), "dist/dev/a.css");
    assert_eq!(served_path("/dev"), "dist/dev");
    assert_eq!(fallback_path("dist/dev"), "dist/dev/index.html");
    assert_eq!(request_path("GET /a%20b/ HTTP/1.1").as_deref(), Some("/a%20b/"));
    assert_eq!(request_path("  GET\t/x  ").as_deref(), Some("/x"));
    assert_eq!(request_path("GET"), None);
    assert_eq!(request_path(""), None);
}

#[test]
fn changes_in_the_output_ask_for_no_rebuild() {
    let paths = |ps: &[&str]| ps.iter().map(|p| p.to_string()).collect::<Vec<_>>();
    assert!(should_rebuild(true, &paths(&["content/posts/dev/a.md"])));
    assert!(should_rebuild(true, &paths(&[])));
    assert!(!should_rebuild(false, &paths(&["content/posts/dev/a.md"])));
    assert!(!should_rebuild(true, &paths(&["content/a.md", "/site/dist/index.html"])));
    assert!(!should_rebuild(true, &paths(&[".build-cache/cache.json"])));
    assert!(should_rebuild(true, &paths(&["distribution.md"])));
}

#[test]
fn new_posts_start_from_a_template() {
    assert_eq!(slugify("Hello, World! 2024"), "hello-world-2024");
    assert_eq!(slugify("  Émile & 한글_x "), "--émile--한글x-");
    assert_eq!(slugify(""), "");
    assert_eq!(post_path("dev", "hello"), "content/posts/dev/hello.md");
    assert_eq!(
        post_document("My \"Post\"", Timestamp { secs: 1_705_312_800, nanos: 0 }, "dev"),
        "---\ntitle: \"My \"Post\"\"\ndate: 2024-01-15T10:00:00+00:00\ncategory: dev\ntags: []\nhidden: false\n---\n\nWrite your post here...\n"
    );
}

#[test]
fn visitors_are_named_by_their_address() {
    assert_eq!(ClientIp::from_headers(Some(" 1.2.3.4 , 5.6.7.8"), Some("9.9.9.9")).0, "1.2.3.4");
    assert_eq!(ClientIp::from_headers(Some("1.2.3.4"), None).0, "1.2.3.4");
    assert_eq!(ClientIp::from_headers(None, Some("9.9.9.9")).0, "9.9.9.9");
    assert_eq!(ClientIp::from_headers(None, None).0, "unknown");
    assert_eq!(ClientIp::from_headers(Some(""), Some("9.9.9.9")).0, "");
    assert_eq!(
        hash_ip("127.0.0.1"),
        "12ca17b49af2289436f303e0166030a21e525d266e209267433801a8fd4071a0"
    );
    assert_eq!(
        hash_ip(""),
        "e3b0c44298fc1c149afbf4c8996fb92427ae41e4649b934ca495991b7852b855"
    );
    let payload = AddCommentPayload {
        post_slug: "a".into(),
        name: "n".into(),
        email: None,
        url: None,
        body: "".into(),
        parent_comment_id: None,
    };
    assert!(!payload.has_required_fields());
    assert!(AddCommentPayload { body: "hi".into(), ..payload }.has_required_fields());
}

#[test]
fn dates_are_read_and_written() {
    let t = Timestamp::parse("2024-01-15T10:00:00Z").unwrap();
    assert_eq!(t, Timestamp { secs: 1_705_312_800, nanos: 0 });
    assert_eq!(Timestamp::parse("2024-01-15 12:00:00.5+02:00").unwrap(), Timestamp { secs: 1_705_312_800, nanos: 500_000_000 });
    assert_eq!(Timestamp::parse("not-a-date"), None);
    assert_eq!(Timestamp::parse("2024-01-15"), None);
    assert_eq!(t.to_rfc3339(), "2024-01-15T10:00:00+00:00");
    assert_eq!(t.to_rfc2822(), "Mon, 15 Jan 2024 10:00:00 +0000");
    assert_eq!(Timestamp { secs: i64::MAX, nanos: 0 }.to_rfc3339(), "");
    assert_eq!(Timestamp { secs: 253_402_300_800, nanos: 0 }.to_rfc2822(), "");
    assert_eq!(Timestamp { secs: 253_402_300_799, nanos: 0 }.to_rfc2822(), "Fri, 31 Dec 9999 23:59:59 +0000");
    assert_eq!(Timestamp { secs: -62_167_219_200, nanos: 0 }.to_rfc2822(), "Sat, 1 Jan 0000 00:00:00 +0000");
    assert_eq!(Timestamp { secs: -62_167_219_201, nanos: 0 }.to_rfc2822(), "");
    assert_eq!(Timestamp { secs: 0, nanos: 2_000_000_000 }.to_rfc3339(), "");
    assert!(t.before(&Timestamp { secs: 1_705_312_800, nanos: 1 }));
    assert!(!t.before(&t));
    assert!(Timestamp { secs: 1, nanos: 9 }.before(&Timestamp { secs: 2, nanos: 0 }));
    let date = PostDate::new(t);
    assert_eq!(date.modified, None);
    assert_eq!(date.last_changed(), t);
    assert_eq!(date.to_rfc2822(), "Mon, 15 Jan 2024 10:00:00 +0000");
    let changed = PostDate { posted: t, modified: Some(Timestamp { secs: 1_705_399_200, nanos: 0 }) };
    assert_eq!(changed.last_changed().secs, 1_705_399_200);
    let now = Timestamp::now();
    assert!(now.secs > 1_700_000_000);
}

#[test]
fn language_names_stand_for_grammars() {
    assert_eq!(canonical_language("ts"), Some(Grammar::TypeScript));
    assert_eq!(canonical_language("typescript"), Some(Grammar::TypeScript));
    assert_eq!(canonical_language("jsx"), Some(Grammar::JavaScript));
    assert_eq!(canonical_language("sh"), Some(Grammar::Bash));
    assert_eq!(canonical_language("tsx"), Some(Grammar::Tsx));
    assert_eq!(canonical_language("rust"), Some(Grammar::Rust));
    assert_eq!(canonical_language("Rust"), None);
    assert_eq!(canonical_language("brainfuck"), None);
    assert_eq!(grammar_key(Grammar::Cpp), "cpp");
    assert_eq!(grammar_key(Grammar::JavaScript), "javascript");
}

#[test]
fn tokens_become_spans() {
    let names = vec!["keyword".to_string(), "string".to_string()];
    let events = vec![
        TokenEvent::End,
        TokenEvent::Start(0),
        TokenEvent::Source("let".to_string()),
        TokenEvent::End,
        TokenEvent::End,
        TokenEvent::Source(" x = ".to_string()),
        TokenEvent::Start(7),
        TokenEvent::Source("<&>".to_string()),
        TokenEvent::End,
        TokenEvent::Start(1),
        TokenEvent::Source("\"a'b\"".to_string()),
    ];
    assert_eq!(
        render_tokens(&events, &names),
        "<pre class=\"syntax-highlight\"><code><span class=\"keyword\">let</span> x = &lt;&amp;&gt;<span class=\"string\">&quot;a&#39;b&quot;</code></pre>"
    );
    assert_eq!(
        render_tokens(&vec![], &names),
        "<pre class=\"syntax-highlight\"><code></code></pre>"
    );
}

#[test]
fn tree_sitter_highlights_known_languages() {
    let mut h = TreeSitterHighlighter::new().unwrap();
    assert_eq!(
        h.highlight("a < b", "klingon").unwrap(),
        "<pre class=\"syntax-highlight\"><code>a &lt; b</code></pre>"
    );
    assert_eq!(h.configs.len(), 0);
    let html = h.highlight("fn main() { let s = \"x\"; }", "rust").unwrap();
    assert!(html.starts_with("<pre class=\"syntax-highlight\"><code>"), "{}", html);
    assert!(html.contains("<span class=\"keyword\">fn</span>"), "{}", html);
    assert!(html.contains("<span class=\"string\">&quot;x&quot;</span>"), "{}", html);
    assert_eq!(h.configs.len(), 1);
    assert_eq!(h.ensure_language_loaded("rust"), Some(Grammar::Rust));
    assert_eq!(h.configs.len(), 1);
    for lang in ["js", "jsx", "ts", "tsx", "python", "go", "c", "cpp", "java", "json", "sh", "html", "css"] {
        let out = h.highlight("x", lang);
        assert!(out.is_ok(), "{}", lang);
    }
    assert_eq!(h.ensure_language_loaded("js"), None);
    assert_eq!(h.configs.len(), 13);
    assert!(h.load_language(Grammar::Json).is_ok());
    assert_eq!(TreeSitterHighlighter::escape_html("<'>"), "&lt;&#39;&gt;");
    assert_eq!(TreeSitterHighlighter::plain("x"), "<pre class=\"syntax-highlight\"><code>x</code></pre>");
}

#[test]
fn autumnus_highlights_by_language_name() {
    let h = SyntaxHighlighter::new().unwrap();
    let html = h.highlight("let x = 1;", "javascript").unwrap();
    assert!(html.starts_with("<pre class=\"athl hljs\"><code class=\"language-javascript\""), "{}", html);
    assert!(html.ends_with("</code></pre>"));
    let plain = h.highlight("just text", "no-such-language").unwrap();
    assert!(plain.contains("language-plaintext"), "{}", plain);
    assert!(SyntaxHighlighter::markup_or_error(None).is_err());
    assert_eq!(SyntaxHighlighter::markup_or_error(Some("x".to_string())).unwrap(), "x");
}

#[test]
fn a_grammar_is_loaded_once() {
    let mut h = TreeSitterHighlighter::new().unwrap();
    assert!(matches!(
        h.keep_configuration(Grammar::Rust, None),
        Err(ssg::syntax_highlighter::HighlightError::UnsupportedLanguage)
    ));
    assert_eq!(h.configs.len(), 0);
    assert_eq!(h.ensure_language_loaded("cobol"), None);
    assert_eq!(h.configs.len(), 0);
    assert_eq!(h.ensure_language_loaded("python"), Some(Grammar::Python));
    assert_eq!(h.configs.len(), 1);
    assert_eq!(h.ensure_language_loaded("python"), Some(Grammar::Python));
    assert_eq!(h.configs.len(), 1);
    assert!(h.configs[0].0 == Grammar::Python);
    assert!(h.load_language(Grammar::Go).is_ok());
    assert_eq!(h.configs.len(), 2);
    assert!(h.configs[1].0 == Grammar::Go);
}

#[test]
fn components_are_taken_in_a_fixed_order() {
    let tags = ssg::components::component_tags();
    assert_eq!(
        tags,
        vec![
            "img", "code", "pre", "blockquote", "table", "a", "h1", "h2", "h3", "h4", "h5", "h6",
            "p", "ul", "ol", "li", "strong", "em", "del", "iframe"
        ]
    );
}

#[test]
fn every_grammar_has_its_source() {
    for g in [
        Grammar::Rust, Grammar::JavaScript, Grammar::TypeScript, Grammar::Tsx, Grammar::Python,
        Grammar::Go, Grammar::C, Grammar::Cpp, Grammar::Java, Grammar::Json, Grammar::Bash,
        Grammar::Html, Grammar::Css,
    ] {
        let source = grammar_source(g);
        assert!(!source.highlights.is_empty(), "{:?}", g);
        let scripted = matches!(g, Grammar::JavaScript | Grammar::TypeScript | Grammar::Tsx);
        assert_eq!(!source.locals.is_empty(), scripted, "{:?}", g);
        let mut h = TreeSitterHighlighter::new().unwrap();
        assert!(h.load_language(g).is_ok(), "{:?}", g);
        assert!(h.configs[0].0 == g);
    }
    assert_eq!(
        highlight_names(),
        vec![
            "attribute", "constant", "function.builtin", "function", "keyword", "operator",
            "property", "punctuation", "punctuation.bracket", "punctuation.delimiter", "string",
            "string.special", "tag", "type", "type.builtin", "variable", "variable.builtin",
            "variable.parameter", "comment"
        ]
    );
    assert_eq!(ssg::components::component_template("img"), "components/img.html");
}
