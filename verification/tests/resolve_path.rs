use ssg::renderer::Renderer;

#[test]
fn test_resolve_path_absolute_urls() {
    assert_eq!(
        Renderer::resolve_path("https://example.com/image.png", "chat"),
        "https://example.com/image.png"
    );
    assert_eq!(
        Renderer::resolve_path("http://example.com/image.png", "chat"),
        "http://example.com/image.png"
    );
    assert_eq!(
        Renderer::resolve_path("//cdn.example.com/image.png", "chat"),
        "//cdn.example.com/image.png"
    );
}

#[test]
fn test_resolve_path_absolute_paths() {
    assert_eq!(
        Renderer::resolve_path("/assets/image.png", "chat"),
        "/assets/image.png"
    );
}

#[test]
fn test_resolve_path_current_dir() {
    assert_eq!(
        Renderer::resolve_path("./post/image.png", "chat"),
        "/chat/post/image.png"
    );
    assert_eq!(
        Renderer::resolve_path("./image.png", "dev"),
        "/dev/image.png"
    );
}

#[test]
fn test_resolve_path_current_dir_edge_cases() {
    assert_eq!(Renderer::resolve_path("./", "chat"), "/chat");
    assert_eq!(Renderer::resolve_path("./", ""), "/");
    assert_eq!(
        Renderer::resolve_path("././image.png", "chat"),
        "/chat/image.png"
    );
}

#[test]
fn test_resolve_path_parent_dir() {
    assert_eq!(Renderer::resolve_path("../image.png", "chat"), "/image.png");
    assert_eq!(
        Renderer::resolve_path("../../image.png", "chat"),
        "/image.png"
    );
}

#[test]
fn test_resolve_path_parent_dir_edge_cases() {
    assert_eq!(Renderer::resolve_path("../", "chat"), "/");
    assert_eq!(
        Renderer::resolve_path("../../../image.png", "chat"),
        "/image.png"
    );
}

#[test]
fn test_resolve_path_bare_relative() {
    assert_eq!(
        Renderer::resolve_path("image.png", "chat"),
        "/chat/image.png"
    );
    assert_eq!(
        Renderer::resolve_path("subfolder/image.png", "dev"),
        "/dev/subfolder/image.png"
    );
}

#[test]
fn test_resolve_path_empty() {
    assert_eq!(Renderer::resolve_path("", "chat"), "/");
    assert_eq!(Renderer::resolve_path("  ", "chat"), "/");
}

#[test]
fn test_resolve_path_special_protocols() {
    assert_eq!(Renderer::resolve_path("#anchor", "chat"), "#anchor");
    assert_eq!(
        Renderer::resolve_path("mailto:test@example.com", "chat"),
        "mailto:test@example.com"
    );
    assert_eq!(
        Renderer::resolve_path("data:image/png;base64,abc", "chat"),
        "data:image/png;base64,abc"
    );
}

#[test]
fn test_resolve_path_category_extraction() {
    assert_eq!(
        Renderer::resolve_path("./i-use-arch-btw/image.png", "chat"),
        "/chat/i-use-arch-btw/image.png"
    );
    assert_eq!(
        Renderer::resolve_path("./subdir/image.png", "tutorials"),
        "/tutorials/subdir/image.png"
    );
}

#[test]
fn test_resolve_path_nested_category() {
    assert_eq!(
        Renderer::resolve_path("./my-post/image.png", "work/web-application"),
        "/work/web-application/my-post/image.png"
    );
    assert_eq!(
        Renderer::resolve_path("./image.png", "dev/tutorials"),
        "/dev/tutorials/image.png"
    );
    assert_eq!(
        Renderer::resolve_path("../image.png", "work/apps"),
        "/work/image.png"
    );
    assert_eq!(
        Renderer::resolve_path("../../image.png", "work/apps"),
        "/image.png"
    );
}

#[test]
fn resolve_path_round_trips() {
    assert_eq!(Renderer::resolve_path("./x.png", "cat"), "/cat/x.png");
    assert_eq!(Renderer::resolve_path("../x.png", "a/b"), "/a/x.png");
    assert_eq!(Renderer::resolve_path("../../x.png", "a/b"), "/x.png");
    assert_eq!(Renderer::resolve_path("", "cat"), "/");
}

#[test]
fn resolve_path_trims_all_unicode_white_space() {
    assert_eq!(
        Renderer::resolve_path("\u{3000}\t./x.png\u{a0}\n", "cat"),
        "/cat/x.png"
    );
    assert_eq!(Renderer::resolve_path("\u{2003}", "cat"), "/");
}

#[test]
fn resolve_path_ignores_empty_base_segments() {
    assert_eq!(Renderer::resolve_path("../x.png", "/a//b/"), "/a/x.png");
    assert_eq!(Renderer::resolve_path(".//x.png", "a"), "/a/x.png");
    assert_eq!(Renderer::resolve_path("../", "a/b"), "/a");
}
