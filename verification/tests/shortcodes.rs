use ssg::shortcodes::{
    escape_html, is_word_char, parse_attributes, ShortcodeError, ShortcodeKind, ShortcodeRegistry,
};

#[test]
fn test_parse_attributes() {
    let attrs = parse_attributes(r#"src="image.jpg" alt="Test" width='100'"#);
    assert_eq!(attrs.get("src"), Some(&"image.jpg".to_string()));
    assert_eq!(attrs.get("alt"), Some(&"Test".to_string()));
    assert_eq!(attrs.get("width"), Some(&"100".to_string()));
}

#[test]
fn test_figure_shortcode() {
    let registry = ShortcodeRegistry::new();
    let result = registry
        .process(r#"[figure src="test.jpg" alt="Test image" caption="My caption"]"#)
        .unwrap();
    assert!(result.contains("<figure>"));
    assert!(result.contains(r#"src="test.jpg""#));
    assert!(result.contains("<figcaption>My caption</figcaption>"));
}

#[test]
fn test_callout_shortcode() {
    let registry = ShortcodeRegistry::new();
    let result = registry
        .process(r#"[callout type="warning" title="Note"]This is important[/callout]"#)
        .unwrap();
    assert!(result.contains("callout-warning"));
    assert!(result.contains("This is important"));
}

#[test]
fn test_youtube_shortcode() {
    let registry = ShortcodeRegistry::new();
    let result = registry.process(r#"[youtube id="dQw4w9WgXcQ"]"#).unwrap();
    assert!(result.contains("youtube.com/embed/dQw4w9WgXcQ"));
}

#[test]
fn test_markdown_links_not_processed() {
    let registry = ShortcodeRegistry::new();
    let result = registry
        .process(r#"[link text](https://example.com)"#)
        .unwrap();
    // Should remain unchanged since it's markdown syntax
    assert_eq!(result, r#"[link text](https://example.com)"#);
}

#[test]
fn test_escape_html() {
    assert_eq!(
        escape_html("<script>alert('xss')</script>"),
        "&lt;script&gt;alert(&#39;xss&#39;)&lt;/script&gt;"
    );
}

#[test]
fn test_react_shortcode() {
    let registry = ShortcodeRegistry::new();
    let result = registry
        .process(r#"[react component="Chart" data="1,2,3" title="Test"]"#)
        .unwrap();
    assert!(result.contains("react-island"));
    assert!(result.contains(r#"data-component="Chart""#));
    assert!(result.contains(r#"data-props='"#));
    // Props are HTML-escaped in the output
    assert!(result.contains(r#"&quot;data&quot;:&quot;1,2,3&quot;"#));
    assert!(result.contains(r#"&quot;title&quot;:&quot;Test&quot;"#));
    assert!(result.contains(r#"data-loading="lazy""#));
}

#[test]
fn test_react_shortcode_with_fallback() {
    let registry = ShortcodeRegistry::new();
    let result = registry
        .process(r#"[react component="CodeEditor" lang="ts"]const x = 1;[/react]"#)
        .unwrap();
    assert!(result.contains("react-island__fallback"));
    assert!(result.contains("const x = 1;"));
    // Props are HTML-escaped in the output
    assert!(result.contains(r#"&quot;lang&quot;:&quot;ts&quot;"#));
}

#[test]
fn test_react_shortcode_eager_loading() {
    let registry = ShortcodeRegistry::new();
    let result = registry
        .process(r#"[react component="Chart" loading="eager"]"#)
        .unwrap();
    assert!(result.contains(r#"data-loading="eager""#));
}

#[test]
fn test_react_shortcode_missing_component() {
    let registry = ShortcodeRegistry::new();
    let result = registry.process(r#"[react data="1,2,3"]"#);
    assert!(result.is_err());
}

#[test]
fn figure_markup_is_exact() {
    let registry = ShortcodeRegistry::new();
    assert_eq!(
        registry
            .process(r#"a [figure src="t.jpg" alt="A<b" width="10" caption='c "q"'] b"#)
            .unwrap(),
        "a <figure><img src=\"t.jpg\" alt=\"A&lt;b\" loading=\"lazy\" width=\"10\" /><figcaption>c &quot;q&quot;</figcaption></figure> b"
    );
    assert_eq!(
        registry.process("[figure]").unwrap(),
        "<figure><img src=\"\" alt=\"\" loading=\"lazy\" /></figure>"
    );
}

#[test]
fn callout_and_code_markup_are_exact() {
    let registry = ShortcodeRegistry::new();
    assert_eq!(
        registry.process("[callout]\n  hi <b>there</b>\n[/callout]").unwrap(),
        "<div class=\"callout callout-info\"><div class=\"callout-content\">hi <b>there</b></div></div>"
    );
    assert_eq!(
        registry
            .process("[code lang=\"rs\" filename=\"a.rs\"]let x = 1 < 2;[/code]")
            .unwrap(),
        "<div class=\"code-block\"><div class=\"code-filename\">a.rs</div><pre><code class=\"language-rs\">let x = 1 &lt; 2;</code></pre></div>"
    );
    assert_eq!(
        registry.process("[code lang=\"rs\"]").unwrap(),
        "<pre><code class=\"language-rs\"></code></pre>"
    );
}

#[test]
fn youtube_markup_is_exact_and_needs_an_id() {
    let registry = ShortcodeRegistry::new();
    assert_eq!(
        registry.process("[youtube id=\"abc\"]").unwrap(),
        "<div class=\"video-container\"><iframe src=\"https://www.youtube.com/embed/abc\" title=\"YouTube video\" frameborder=\"0\" allow=\"accelerometer; autoplay; clipboard-write; encrypted-media; gyroscope; picture-in-picture\" allowfullscreen loading=\"lazy\"></iframe></div>"
    );
    assert_eq!(
        registry.process("[youtube title=\"x\"]"),
        Err(ShortcodeError::MissingYoutubeId)
    );
    assert_eq!(
        registry.process("text [react x='1']"),
        Err(ShortcodeError::MissingReactComponent)
    );
}

#[test]
fn react_props_are_a_json_object() {
    let registry = ShortcodeRegistry::new();
    assert_eq!(
        registry
            .process(r#"[react component="C" a="1" loading="eager" b='say "hi"\' a="2"]"#)
            .unwrap(),
        "<div class=\"react-island\" data-component=\"C\" data-props='{&quot;a&quot;:&quot;2&quot;,&quot;b&quot;:&quot;say \\&quot;hi\\&quot;\\\\&quot;}' data-loading=\"eager\"><noscript>Interactive component requires JavaScript</noscript></div>"
    );
    assert_eq!(
        registry.process(r#"[react component="C"]"#).unwrap(),
        "<div class=\"react-island\" data-component=\"C\" data-props='{}' data-loading=\"lazy\"><noscript>Interactive component requires JavaScript</noscript></div>"
    );
}

#[test]
fn unknown_names_and_broken_tags_stay() {
    let registry = ShortcodeRegistry::new();
    assert_eq!(registry.process("[unknown a=\"1\"] x").unwrap(), "[unknown a=\"1\"] x");
    assert_eq!(registry.process("[ figure] [] [figure").unwrap(), "[ figure] [] [figure");
    assert_eq!(registry.process("").unwrap(), "");
    assert_eq!(
        registry.process("[callout]never closed").unwrap(),
        "<div class=\"callout callout-info\"><div class=\"callout-content\"></div></div>never closed"
    );
}

#[test]
fn block_pass_takes_the_first_end_tag_each_time() {
    let registry = ShortcodeRegistry::new();
    assert_eq!(
        registry
            .process("[callout type=\"a\"]x [callout type=\"b\"]y[/callout] z[/callout]")
            .unwrap(),
        "<div class=\"callout callout-a\"><div class=\"callout-content\">x <div class=\"callout callout-b\"><div class=\"callout-content\">y</div></div> z</div></div>"
    );
}

#[test]
fn register_aliases_a_handler() {
    let mut registry = ShortcodeRegistry::new();
    registry.register("video", ShortcodeKind::Youtube);
    registry.register("figure", ShortcodeKind::Callout);
    assert!(registry.process("[video id=\"x\"]").unwrap().contains("youtube.com/embed/x"));
    assert!(registry.process("[figure]").unwrap().starts_with("<div class=\"callout"));
}

#[test]
fn attributes_follow_the_grammar() {
    let attrs = parse_attributes("a = \"1\" b='2'c=\"3\" d=4 e=\"5\" data-src=\"6\" f=\"unclosed");
    assert_eq!(attrs.get("a"), Some(&"1".to_string()));
    assert_eq!(attrs.get("b"), Some(&"2".to_string()));
    assert_eq!(attrs.get("c"), Some(&"3".to_string()));
    assert_eq!(attrs.get("d"), None);
    assert_eq!(attrs.get("e"), Some(&"5".to_string()));
    assert_eq!(attrs.get("src"), Some(&"6".to_string()));
    assert_eq!(attrs.get("data"), None);
    assert_eq!(attrs.get("f"), None);
    assert_eq!(attrs.len(), 5);
}

#[test]
fn word_characters_are_those_of_the_regex_class() {
    assert!(is_word_char('a'));
    assert!(is_word_char('Z'));
    assert!(is_word_char('0'));
    assert!(is_word_char('_'));
    assert!(!is_word_char('-'));
    assert!(!is_word_char(' '));
    assert!(is_word_char('한'));
    assert!(is_word_char('é'));
    assert!(!is_word_char('€'));
    assert!(!is_word_char('\u{a0}'));
}
