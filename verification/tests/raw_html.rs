use ssg::renderer::Renderer;

#[test]
fn test_resolve_raw_html_paths_video() {
    let html = r#"<video autoPlay playsInline muted loop src="./folder/video.mp4"></video>"#;
    let result = Renderer::resolve_raw_html_paths(html, "dev");
    assert_eq!(
        result,
        r#"<video autoPlay playsInline muted loop src="/dev/folder/video.mp4"></video>"#
    );
}

#[test]
fn test_resolve_raw_html_paths_audio() {
    let html = r#"<audio src="./audio.mp3"></audio>"#;
    let result = Renderer::resolve_raw_html_paths(html, "music");
    assert_eq!(result, r#"<audio src="/music/audio.mp3"></audio>"#);
}

#[test]
fn test_resolve_raw_html_paths_source() {
    let html = r#"<video><source src="./video.webm" type="video/webm"></video>"#;
    let result = Renderer::resolve_raw_html_paths(html, "dev");
    assert_eq!(
        result,
        r#"<video><source src="/dev/video.webm" type="video/webm"></video>"#
    );
}

#[test]
fn test_resolve_raw_html_paths_absolute_url() {
    let html = r#"<video src="https://example.com/video.mp4"></video>"#;
    let result = Renderer::resolve_raw_html_paths(html, "dev");
    assert_eq!(
        result,
        r#"<video src="https://example.com/video.mp4"></video>"#
    );
}

#[test]
fn test_resolve_raw_html_paths_skips_data_md() {
    let html = r#"<img data-md src="./image.png" />"#;
    let result = Renderer::resolve_raw_html_paths(html, "dev");
    assert_eq!(result, r#"<img data-md src="./image.png" />"#);
}

#[test]
fn test_resolve_raw_html_paths_poster_attr() {
    let html = r#"<video src="./video.mp4" poster="./thumb.jpg"></video>"#;
    let result = Renderer::resolve_raw_html_paths(html, "dev");
    assert_eq!(
        result,
        r#"<video src="/dev/video.mp4" poster="/dev/thumb.jpg"></video>"#
    );
}

#[test]
fn raw_html_keeps_text_and_other_tags() {
    let html = "before <p class=\"a>b\">x</p> <IFRAME src='../v.html'></IFRAME> a < b";
    let result = Renderer::resolve_raw_html_paths(html, "work/apps");
    assert_eq!(
        result,
        "before <p class=\"a>b\">x</p> <IFRAME src='/work/v.html'></IFRAME> a < b"
    );
    assert_eq!(Renderer::resolve_raw_html_paths("", "dev"), "");
    assert_eq!(
        Renderer::resolve_raw_html_paths("<object data=\"./x.swf\">", "dev"),
        "<object data=\"/dev/x.swf\">"
    );
    assert_eq!(
        Renderer::resolve_raw_html_paths("<img src=\"./x.png\">", "dev"),
        "<img src=\"./x.png\">"
    );
}

#[test]
fn tag_end_skips_quoted_angle_brackets() {
    let s: Vec<char> = "<a title=\"x > y\" b='>'>rest>".chars().collect();
    assert_eq!(Renderer::find_tag_end(&s, 0), Some(22));
    let open: Vec<char> = "<a title=\"never closed>".chars().collect();
    assert_eq!(Renderer::find_tag_end(&open, 0), None);
}

#[test]
fn tag_urls_are_resolved_per_attribute_and_quote() {
    assert_eq!(
        Renderer::resolve_tag_urls("<video src='./a.mp4' poster=\"../p.jpg\" data='x'>", "a/b"),
        "<video src='/a/b/a.mp4' poster=\"/a/p.jpg\" data='x'>"
    );
    assert_eq!(
        Renderer::resolve_tag_urls("<video src=\"/abs.mp4\">", "a"),
        "<video src=\"/abs.mp4\">"
    );
}
