use ssg::image::{ImageCatalog, ImageProcessor};
use ssg::metadata::{MetadataCache, PostMetadata};
use ssg::navigation::{
    build_post_navigation, build_post_navigation_with_cdn, create_post_link, relative_cover_source,
};
use ssg::types::{Frontmatter, PostDate, Timestamp};

const DAY: i64 = 86_400;
const BASE: i64 = 1_700_000_000;

fn post(slug: &str, category: &str, secs: i64) -> PostMetadata {
    PostMetadata {
        slug: slug.to_string(),
        category: category.to_string(),
        frontmatter: Frontmatter {
            title: format!("Post {}", slug.trim_start_matches("post-")),
            date: PostDate { posted: Timestamp { secs, nanos: 0 }, modified: None },
            tags: vec![],
            description: None,
            cover_image: None,
            og_image: None,
            display_ad: false,
            hidden: false,
            comments: true,
        },
    }
}

fn create_test_metadata() -> MetadataCache {
    let mut metadata = MetadataCache::new();
    metadata.posts = vec![
        post("post-1", "dev", BASE - 2 * DAY),
        post("post-2", "dev", BASE - DAY),
        post("post-3", "dev", BASE),
    ];
    metadata
}

#[test]
fn navigation_test_navigation_middle_post() {
    let metadata = create_test_metadata();
    let nav = build_post_navigation("post-2", "dev", &metadata, true);

    assert!(nav.prev.is_some());
    assert_eq!(nav.prev.as_ref().unwrap().slug, "post-1");

    assert!(nav.next.is_some());
    assert_eq!(nav.next.as_ref().unwrap().slug, "post-3");
}

#[test]
fn navigation_test_navigation_first_post() {
    let metadata = create_test_metadata();
    let nav = build_post_navigation("post-3", "dev", &metadata, true);

    assert!(nav.prev.is_some());
    assert_eq!(nav.prev.as_ref().unwrap().slug, "post-2");
    assert!(nav.next.is_none());
}

#[test]
fn navigation_test_navigation_last_post() {
    let metadata = create_test_metadata();
    let nav = build_post_navigation("post-1", "dev", &metadata, true);

    assert!(nav.prev.is_none());
    assert!(nav.next.is_some());
    assert_eq!(nav.next.as_ref().unwrap().slug, "post-2");
}

#[test]
fn navigation_test_navigation_url_encoding() {
    let metadata = create_test_metadata();
    let nav = build_post_navigation("post-2", "dev", &metadata, true);

    assert!(nav.prev.is_some());
    assert_eq!(nav.prev.as_ref().unwrap().url, "/dev/post-1/");
}

#[test]
fn navigation_skips_hidden_posts_and_other_categories() {
    let mut metadata = create_test_metadata();
    metadata.posts[1].frontmatter.hidden = true;
    metadata.posts.push(post("other", "chat", BASE - DAY / 2));
    let nav = build_post_navigation("post-3", "dev", &metadata, true);
    assert_eq!(nav.prev.unwrap().slug, "post-1");
    let nav = build_post_navigation("post-3", "dev", &metadata, false);
    assert_eq!(nav.prev.unwrap().slug, "other");
    let nav = build_post_navigation("post-2", "dev", &metadata, true);
    assert!(nav.prev.is_none() && nav.next.is_none());
    let nav = build_post_navigation("unknown", "dev", &metadata, true);
    assert!(nav.prev.is_none() && nav.next.is_none());
}

#[test]
fn link_holds_address_and_cover() {
    let mut p = post("한글 포스트", "개발/rust", BASE);
    p.frontmatter.og_image = Some("/og.png".to_string());
    let link = create_post_link(&p);
    assert_eq!(
        link.url,
        "/%EA%B0%9C%EB%B0%9C/rust/%ED%95%9C%EA%B8%80%20%ED%8F%AC%EC%8A%A4%ED%8A%B8/"
    );
    assert_eq!(link.cover_image.as_deref(), Some("/og.png"));
    assert_eq!(link.category, "개발/rust");
    assert!(link.thumbnail_metadata.is_none());
    p.frontmatter.cover_image = Some("/cover.png".to_string());
    assert_eq!(create_post_link(&p).cover_image.as_deref(), Some("/cover.png"));
}

#[test]
fn resolved_covers_are_turned_back() {
    assert_eq!(relative_cover_source("/dev/p/c.png", "dev"), "./p/c.png");
    assert_eq!(relative_cover_source("//dev/p/c.png", "dev"), "./p/c.png");
    assert_eq!(relative_cover_source("/other/p/c.png", "dev"), "./other/p/c.png");
    assert_eq!(relative_cover_source("./p/c.png", "dev"), "./p/c.png");
}

#[test]
fn navigation_with_cdn_adds_thumbnails() {
    let mut metadata = create_test_metadata();
    metadata.posts[0].frontmatter.cover_image = Some("/dev/post-1/cover.png".to_string());
    metadata.posts[2].frontmatter.cover_image = Some("/dev/post-3/missing.png".to_string());
    let processor = ImageProcessor::new(Some("https://cdn.example.com".to_string()));
    let mut catalog = ImageCatalog::new();
    catalog.add("content/posts/dev/post-1/cover.png".to_string(), None);
    let nav = build_post_navigation_with_cdn(
        "post-2",
        "dev",
        &metadata,
        true,
        &processor,
        "content/posts",
        &catalog,
    );
    let prev = nav.prev.unwrap();
    let thumb = prev.thumbnail_metadata.unwrap();
    assert_eq!(thumb.src, "https://cdn.example.com/images/dev/post-1/cover.w500.png");
    assert_eq!(thumb.webp_src, "https://cdn.example.com/images/dev/post-1/cover.w500.png.webp");
    assert!(nav.next.unwrap().thumbnail_metadata.is_none());
}
