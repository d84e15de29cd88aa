use ssg::attributes::Attributes;
use ssg::code_blocks::{extract_code_block, find_pre_close, splice_pre_block};
use ssg::components::{component_context, find_components, substitute_components, TagReplacementContext};
use ssg::image::{ImageCatalog, ImageProcessor};
use ssg::markdown::{emit_html, markdown_events, HeadingLevel, MdEvent, MdTag};
use ssg::renderer::Renderer;

fn chars(s: &str) -> Vec<char> {
    s.chars().collect()
}

#[test]
fn test_render_markdown() {
    let renderer = Renderer::new();
    let md = "# Hello\n\nThis is **bold**.";
    let html = renderer.render_markdown(md);

    assert!(html.contains("<h1 data-md>"));
    assert!(html.contains("Hello"));
    assert!(html.contains("<strong data-md>bold</strong>"));
}

#[test]
fn test_render_markdown_with_code() {
    let renderer = Renderer::new();
    let md = "```rust\nfn main() {}\n```";
    let html = renderer.render_markdown(md);

    assert!(
        html.contains("hljs"),
        "HTML should contain hljs class, got: {}",
        html
    );
    assert!(html.contains("<code"));
    assert!(html.contains("fn"));
    assert!(html.contains("main"));
    assert!(html.contains("keyword"), "Should have keyword highlighting");
    assert!(
        html.contains("function"),
        "Should have function highlighting"
    );
}

#[test]
fn test_render_markdown_with_links() {
    let renderer = Renderer::new();
    let md = "[Click here](https://example.com)";
    let html = renderer.render_markdown(md);

    assert!(html.contains("<a data-md href=\"https://example.com\">"));
    assert!(html.contains("Click here"));
}

#[test]
fn test_markdown_vs_raw_html_distinction() {
    let renderer = Renderer::new();

    let md_image = "![alt text](./image.png)";
    let html = renderer.render_markdown(md_image);
    assert!(
        html.contains("<img data-md"),
        "Markdown image should have data-md marker"
    );

    let raw_html_image = r#"<img src="./image.png" alt="raw image">"#;
    let html = renderer.render_markdown(raw_html_image);
    assert!(
        !html.contains("data-md"),
        "Raw HTML image should NOT have data-md marker"
    );
    assert!(
        html.contains(r#"<img src="./image.png" alt="raw image">"#),
        "Raw HTML should pass through unchanged"
    );

    let md_link = "[link](https://example.com)";
    let html = renderer.render_markdown(md_link);
    assert!(
        html.contains("<a data-md"),
        "Markdown link should have data-md marker"
    );

    let raw_html_link = r#"<a href="https://example.com">raw link</a>"#;
    let html = renderer.render_markdown(raw_html_link);
    assert!(
        !html.contains("<a data-md"),
        "Raw HTML <a> tag should NOT have data-md marker, got: {}",
        html
    );
    assert!(
        html.contains(r#"<a href="https://example.com">raw link</a>"#),
        "Raw HTML <a> should pass through unchanged"
    );
}

#[test]
fn events_are_emitted_with_markers() {
    let events = vec![
        MdEvent::Start(MdTag::Heading { level: HeadingLevel::H2, id: Some("a\"b".to_string()) }),
        MdEvent::Text("x < y & z".to_string()),
        MdEvent::End(MdTag::Heading { level: HeadingLevel::H2, id: None }),
        MdEvent::Start(MdTag::List { start: Some(3) }),
        MdEvent::Start(MdTag::Item),
        MdEvent::TaskListMarker(true),
        MdEvent::Code("a'b".to_string()),
        MdEvent::End(MdTag::Item),
        MdEvent::End(MdTag::List { start: Some(3) }),
        MdEvent::Start(MdTag::List { start: Some(1) }),
        MdEvent::End(MdTag::List { start: Some(1) }),
        MdEvent::Start(MdTag::Link { dest: "a'b?x=1&y=2".to_string(), title: "T\"".to_string() }),
        MdEvent::End(MdTag::Link { dest: String::new(), title: String::new() }),
        MdEvent::Start(MdTag::Image { dest: "./i.png".to_string(), title: String::new() }),
        MdEvent::Text("alt".to_string()),
        MdEvent::End(MdTag::Image { dest: String::new(), title: String::new() }),
        MdEvent::Html("<video src='./v.mp4'>".to_string()),
        MdEvent::SoftBreak,
        MdEvent::HardBreak,
        MdEvent::Rule,
        MdEvent::FootnoteReference("n1".to_string()),
        MdEvent::Start(MdTag::CodeBlock { info: Some("rust ignore".to_string()) }),
        MdEvent::End(MdTag::CodeBlock { info: None }),
        MdEvent::Start(MdTag::CodeBlock { info: Some(String::new()) }),
        MdEvent::Start(MdTag::CodeBlock { info: None }),
    ];
    assert_eq!(
        emit_html(&events),
        concat_all(&[
            "<h2 data-md id=\"a&quot;b\">x &lt; y &amp; z</h2>\n",
            "<ol data-md start=\"3\">\n<li data-md><input type=\"checkbox\" disabled checked />\n",
            "<code data-md>a'b</code></li>\n</ol>\n",
            "<ol data-md>\n</ol>\n",
            "<a data-md href=\"a&#x27;b?x=1&amp;y=2\" title=\"T&quot;\"></a>",
            "<img data-md src=\"./i.png\" alt=\"alt\" />",
            "<video src='./v.mp4'>\n<br />\n<hr data-md />\n",
            "<sup class=\"footnote-reference\" data-md><a href=\"#n1\">n1</a></sup>",
            "<pre data-md><code class=\"language-rust\"></code></pre>\n",
            "<pre data-md><code><pre data-md><code>",
        ])
    );
    assert_eq!(emit_html(&Vec::new()), "");
}

fn concat_all(parts: &[&str]) -> String {
    let mut s = String::new();
    for p in parts {
        s.push_str(p);
    }
    s
}

#[test]
fn markdown_events_carry_what_the_parser_found() {
    let events = markdown_events("## T\n\n~~gone~~ and `code`\n\n1. one\n\n|a|\n|-|\n|b|\n");
    let html = emit_html(&events);
    assert_eq!(
        html,
        "<h2 data-md>T</h2>\n<p data-md><del data-md>gone</del> and <code data-md>code</code></p>\n<ol data-md>\n<li data-md>one</li>\n</ol>\n<table data-md><thead data-md><tr data-md><td data-md>a</td></tr></thead>\n<tr data-md><td data-md>b</td></tr>\n</table>\n"
    );
}

#[test]
fn sanitize_strips_every_marker() {
    assert_eq!(
        Renderer::sanitize("<p data-md>a</p><hr data-md /><img data-md src=\"x\">"),
        "<p>a</p><hr /><img src=\"x\">"
    );
    assert_eq!(Renderer::sanitize("data-md"), "data-md");
}

#[test]
fn entities_are_decoded_one_after_the_other() {
    assert_eq!(
        Renderer::decode_html_entities("&lt;a&gt; &amp;&amp; &quot;x&quot; &#39;y&#39;"),
        "<a> && \"x\" 'y'"
    );
    assert_eq!(Renderer::decode_html_entities("&amp;lt;"), "&lt;");
    assert_eq!(Renderer::decode_html_entities("&amp;quot;"), "\"");
}

#[test]
fn escape_html_appends() {
    let mut out = String::from("x");
    Renderer::escape_html(&mut out, "<a href=\"b\">'&'</a>");
    assert_eq!(out, "x&lt;a href=&quot;b&quot;&gt;'&amp;'&lt;/a&gt;");
}

#[test]
fn attributes_are_read_off_a_start_tag() {
    let attrs = Renderer::extract_attributes(
        "<img data-md src=\"./a b.png\" alt='x \"y\"' width=10 hidden  title = \"t\" />",
    );
    assert_eq!(attrs.get("data-md"), Some(&"true".to_string()));
    assert_eq!(attrs.get("src"), Some(&"./a b.png".to_string()));
    assert_eq!(attrs.get("alt"), Some(&"x \"y\"".to_string()));
    assert_eq!(attrs.get("width"), Some(&"10".to_string()));
    assert_eq!(attrs.get("hidden"), Some(&"true".to_string()));
    assert_eq!(attrs.get("title"), Some(&"t".to_string()));
    assert_eq!(attrs.get("nope"), None);
    assert_eq!(attrs.len(), 6);
    assert_eq!(Renderer::extract_attributes("<p>").len(), 0);
    assert_eq!(Renderer::extract_attributes("<a href=\"open").get("href"), Some(&"open".to_string()));
    let twice = Renderer::extract_attributes("<a x=\"1\" x=\"2\">");
    assert_eq!(twice.get("x"), Some(&"2".to_string()));
    assert!(Renderer::is_url_attribute("src"));
    assert!(Renderer::is_url_attribute("srcset"));
    assert!(Renderer::is_url_attribute("poster"));
    assert!(!Renderer::is_url_attribute("alt"));
}

#[test]
fn code_block_is_read_out_of_a_pre() {
    let block = extract_code_block(&chars(
        " <code class=\"language-rust\">fn a() -&gt; &amp;str {}</code>\n",
    ))
    .unwrap();
    assert_eq!(block.lang.as_deref(), Some("rust"));
    assert_eq!(block.code, "fn a() -> &str {}");
    let plain = extract_code_block(&chars("<code>x</code>")).unwrap();
    assert_eq!(plain.lang, None);
    assert_eq!(plain.code, "x");
    assert!(extract_code_block(&chars("<span>x</span>")).is_none());
    assert!(extract_code_block(&chars("<code>never closed")).is_none());
    assert!(extract_code_block(&chars("<code</code>x>")).is_none());
    assert_eq!(find_pre_close(&chars("a<b </pre>></pre>"), 0), Some(11));
    assert_eq!(find_pre_close(&chars("a</pre"), 0), None);
    assert_eq!(
        splice_pre_block(&chars("<pre>"), &chars("x"), None),
        chars("<pre>x</pre>")
    );
    assert_eq!(
        splice_pre_block(&chars("<pre>"), &chars("x"), Some(chars("<b>"))),
        chars("<b>")
    );
}

#[test]
fn highlighting_replaces_blocks_with_a_language_only() {
    let renderer = Renderer::new();
    let html = "<p>a</p><pre data-md><code>plain &lt;</code></pre>\n<i>b</i>";
    assert_eq!(renderer.highlight_code_blocks(html), html);
    let out = renderer.highlight_code_blocks(
        "x<pre data-md><code class=\"language-rust\">let a = 1;\n</code></pre>y",
    );
    assert!(out.starts_with("x<pre class=\"athl hljs\">"), "{}", out);
    assert!(out.ends_with("</code></pre>y"), "{}", out);
    assert!(!out.contains("data-md"));
    assert_eq!(renderer.highlight_code_blocks("a <pre>never closed"), "a <pre>never closed");
    assert_eq!(
        renderer.highlight_code_blocks("<pre data-md><code class=\"language-rust\">let a = 1;\n</code> <b>x</b>"),
        "<pre data-md><code class=\"language-rust\">let a = 1;\n</code> <b>x</b>"
    );
    assert_eq!(renderer.highlight_code_blocks("a < b"), "a < b");
    assert!(renderer.process_pre_content("<code>x</code>").is_none());
    assert!(renderer
        .process_pre_content("<code class=\"language-python\">x = 1</code>")
        .unwrap()
        .contains("language-python"));
    assert!(renderer.highlight_code("fn main() {}", "rust").unwrap().contains("<span"));
}

#[test]
fn components_are_found_with_their_content() {
    let html = chars("<p data-md>a <p>raw</p> b</p><img data-md src=\"x\" /><p data-md>open");
    let found = find_components(&html, &chars("p"));
    assert_eq!(found.len(), 2);
    assert_eq!(found[0].start, 0);
    assert_eq!(found[0].end, 29);
    assert_eq!(found[0].tag, "<p data-md>");
    assert_eq!(found[0].inner, "a <p>raw</p> b");
    assert_eq!(found[1].inner, "open");
    assert_eq!(found[1].end, html.len());
    let imgs = find_components(&html, &chars("img"));
    assert_eq!(imgs.len(), 1);
    assert_eq!(imgs[0].tag, "<img data-md src=\"x\" />");
    assert_eq!(imgs[0].inner, "");
    assert_eq!(find_components(&chars("<p>raw</p>"), &chars("p")).len(), 0);
    assert_eq!(find_components(&chars("<iframe src=\"x\"></iframe>"), &chars("iframe")).len(), 1);
    assert_eq!(find_components(&chars("<pre data-md>"), &chars("p")).len(), 0);
}

#[test]
fn renderings_take_the_place_of_components() {
    let html = "a<em data-md>x</em>b<em data-md>y</em>c";
    assert_eq!(
        substitute_components(html, "em", &vec![Some("[1]".to_string()), None]),
        "a[1]b<em data-md>y</em>c"
    );
    assert_eq!(
        substitute_components(html, "em", &vec![None, Some("[2]".to_string()), Some("extra".to_string())]),
        "a<em data-md>x</em>b[2]c"
    );
    assert_eq!(substitute_components(html, "em", &vec![]), html);
    assert_eq!(substitute_components(html, "strong", &vec![Some("no".to_string())]), html);
}

fn tera_with(templates: &[(&str, &str)]) -> tera::Tera {
    let mut tera = tera::Tera::default();
    for (name, body) in templates {
        tera.add_raw_template(name, body).unwrap();
    }
    tera
}

#[test]
fn context_holds_attributes_and_content() {
    let mut attrs = Attributes::new();
    attrs.insert("data-md".to_string(), "true".to_string());
    attrs.insert("href".to_string(), "./x".to_string());
    attrs.insert("title".to_string(), "T".to_string());
    let context = component_context(&attrs, "dev", false, &None, "inner");
    let tera = tera_with(&[(
        "t",
        "{{ href }}|{{ title }}|{{ content }}|{% if has_srcset is defined %}img{% endif %}|{% if data_md is defined %}m{% endif %}",
    )]);
    assert_eq!(tera.render("t", &context).unwrap(), "/dev/x|T|inner||");
    let image_context = component_context(&attrs, "dev", true, &None, "");
    let tera = tera_with(&[("t", "{{ has_srcset }}|{% if content is defined %}c{% endif %}")]);
    assert_eq!(tera.render("t", &image_context).unwrap(), "false|");
}

#[test]
fn replace_tag_renders_marked_tags_through_the_template() {
    let tera = tera_with(&[
        ("components/a.html", "<a class=\"link\" href=\"{{ href | safe }}\">{{ content | safe }}</a>"),
        ("components/broken.html", "{{ missing.value }}"),
    ]);
    let catalog = ImageCatalog::new();
    let ctx = TagReplacementContext {
        tera: &tera,
        template_name: "components/a.html",
        category: "dev",
        base_path: "dev",
        image_processor: None,
        content_dir: None,
        catalog: &catalog,
    };
    assert_eq!(
        Renderer::replace_tag(
            "x <a data-md href=\"./p\">go <b>now</b></a> <a href=\"./raw\">raw</a>",
            "a",
            &ctx
        ),
        "x <a class=\"link\" href=\"/dev/p\">go <b>now</b></a> <a href=\"./raw\">raw</a>"
    );
    let broken = TagReplacementContext { template_name: "components/broken.html", ..ctx };
    let html = "x <a data-md href=\"./p\">go</a> y";
    assert_eq!(Renderer::replace_tag(html, "a", &broken), html);
}

#[test]
fn image_components_get_their_variants() {
    let tera = tera_with(&[(
        "components/img.html",
        "{% if has_srcset %}<img src=\"{{ cdn_src | safe }}\" width=\"{{ width }}\" height=\"{{ height }}\" data-lqip=\"{{ lqip | safe }}\" data-n=\"{{ sources | length }}\" data-first=\"{{ sources.0.url | safe }} {{ sources.0.width }}\" data-webp=\"{{ webp_sources.1.url | safe }}\">{% else %}<img src=\"{{ src | safe }}\" alt=\"{{ alt }}\">{% endif %}",
    )]);
    let mut catalog = ImageCatalog::new();
    catalog.add("content/posts/dev/p/a.png".to_string(), Some((640, 480)));
    let html = "<img data-md src=\"./p/a.png\" alt=\"A\" /><img data-md src=\"./p/b.png\" alt=\"B\" />";
    let out = Renderer::post_process_components(
        html,
        &tera,
        "dev",
        Some("https://cdn.example.com/"),
        Some("content/posts"),
        &catalog,
    );
    assert_eq!(
        out,
        "<img src=\"https://cdn.example.com/images/dev/p/a.png\" width=\"640\" height=\"480\" data-lqip=\"https://cdn.example.com/images/dev/p/a.w10.png\" data-n=\"3\" data-first=\"https://cdn.example.com/images/dev/p/a.w480.png 480\" data-webp=\"https://cdn.example.com/images/dev/p/a.w600.png.webp\"><img src=\"/dev/p/b.png\" alt=\"B\">"
    );
    let processor = ImageProcessor::new(Some("https://cdn.example.com".to_string()));
    let ctx = TagReplacementContext {
        tera: &tera,
        template_name: "components/img.html",
        category: "dev",
        base_path: "dev",
        image_processor: Some(&processor),
        content_dir: Some("content/posts"),
        catalog: &catalog,
    };
    let attrs = Renderer::extract_attributes("<img data-md src=\"./p/a.png\" />");
    assert_eq!(ctx.image_of(&attrs).unwrap().width, 640);
}

#[test]
fn full_render_strips_markers_and_resolves_paths() {
    let renderer = Renderer::new();
    let tera = tera_with(&[("components/h1.html", "<h1 class=\"title\">{{ content | safe }}</h1>")]);
    let html = renderer
        .render_markdown_with_components(
            "# Hi\n\ntext ![i](./i.png)\n\n<video src=\"./v.mp4\"></video>\n",
            &tera,
            "dev",
        )
        .unwrap();
    assert_eq!(
        html,
        "<h1 class=\"title\">Hi</h1>\n<p>text <img src=\"./i.png\" alt=\"i\" /></p>\n<p><video src=\"/dev/v.mp4\"></video></p>\n"
    );
    assert!(!html.contains("data-md"));
}

#[test]
fn markdown_events_are_the_events_of_the_parser() {
    let events = markdown_events("# T {#top}\n\n[l](http://x \"ti\") ![i](a.png)\n\n```rust ignore\nx\n```\n\n- [x] done\n");
    let shown: Vec<String> = events.iter().map(|e| format!("{:?}", e)).collect();
    assert_eq!(
        shown,
        vec![
            "Start(Heading { level: H1, id: Some(\"top\") })",
            "Text(\"T\")",
            "End(Heading { level: H1, id: Some(\"top\") })",
            "Start(Paragraph)",
            "Start(Link { dest: \"http://x\", title: \"ti\" })",
            "Text(\"l\")",
            "End(Link { dest: \"http://x\", title: \"ti\" })",
            "Text(\" \")",
            "Start(Image { dest: \"a.png\", title: \"\" })",
            "Text(\"i\")",
            "End(Image { dest: \"a.png\", title: \"\" })",
            "End(Paragraph)",
            "Start(CodeBlock { info: Some(\"rust ignore\") })",
            "Text(\"x\\n\")",
            "End(CodeBlock { info: Some(\"rust ignore\") })",
            "Start(List { start: None })",
            "Start(Item)",
            "TaskListMarker(true)",
            "Text(\"done\")",
            "End(Item)",
            "End(List { start: None })",
        ]
    );
    assert!(markdown_events("").is_empty());
}
