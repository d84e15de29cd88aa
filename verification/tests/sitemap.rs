use ssg::config::{BuildConfig, SiteConfig, SsgConfig};
use ssg::feeds::FeedGenerator;
use ssg::metadata::{MetadataCache, PostMetadata};
use ssg::robots::RobotsGenerator;
use ssg::sitemap::{SitemapGenerator, SitemapUrl};
use ssg::types::{Category, Frontmatter, PostDate, Timestamp};

fn create_test_config() -> SsgConfig {
    SsgConfig {
        site: SiteConfig {
            url: "https://example.com".to_string(),
            title: "Test Blog".to_string(),
            author: "Test Author".to_string(),
            description: "Test Description".to_string(),
            ..Default::default()
        },
        build: BuildConfig { posts_per_page: 10, ..Default::default() },
        ..Default::default()
    }
}

fn create_test_post(slug: &str, category: &str, hidden: bool) -> PostMetadata {
    PostMetadata {
        slug: slug.to_string(),
        category: category.to_string(),
        frontmatter: Frontmatter {
            title: format!("Test Post {}", slug),
            date: PostDate::new(Timestamp { secs: 1_705_312_800, nanos: 0 }),
            tags: vec!["test".to_string()],
            cover_image: None,
            og_image: None,
            description: None,
            display_ad: false,
            hidden,
            comments: true,
        },
    }
}

fn create_test_category(slug: &str, hidden: bool) -> Category {
    Category {
        slug: slug.to_string(),
        name: slug.to_string(),
        description: String::new(),
        index: 0,
        hidden,
        icon: None,
        color: None,
        cover_image: None,
    }
}

#[test]
fn sitemap_test_escape_xml() {
    let input = "https://example.com/path?a=1&b=2";
    let expected = "https://example.com/path?a=1&amp;b=2";
    assert_eq!(SitemapGenerator::escape_xml(input), expected);
}

#[test]
fn feeds_test_escape_xml() {
    let input = r#"Hello & <world> "test""#;
    let expected = r#"Hello &amp; &lt;world&gt; &quot;test&quot;"#;
    assert_eq!(FeedGenerator::escape_xml(input), expected);
}

#[test]
fn test_hidden_posts_excluded_from_sitemap() {
    let config = create_test_config();
    let mut metadata = MetadataCache::new();

    metadata.posts.push(create_test_post("visible-post", "dev", false));
    metadata.posts.push(create_test_post("hidden-post", "dev", true));
    metadata.posts.push(create_test_post("another-visible", "dev", false));

    let mut urls = Vec::new();
    SitemapGenerator::add_posts(&mut urls, &config, &metadata);

    assert_eq!(urls.len(), 2, "Should only include 2 visible posts");
    assert!(urls.iter().any(|u| u.loc.contains("visible-post")));
    assert!(urls.iter().any(|u| u.loc.contains("another-visible")));
    assert!(
        !urls.iter().any(|u| u.loc.contains("hidden-post")),
        "Hidden post should not be in sitemap"
    );
}

#[test]
fn test_hidden_categories_excluded_from_sitemap() {
    let config = create_test_config();
    let mut metadata = MetadataCache::new();

    metadata.category_info.push(create_test_category("visible-cat", false));
    metadata.category_info.push(create_test_category("hidden-cat", true));

    let mut urls = Vec::new();
    SitemapGenerator::add_categories(&mut urls, &config, &metadata);

    assert_eq!(urls.len(), 1, "Should only include 1 visible category");
    assert!(urls.iter().any(|u| u.loc.contains("visible-cat")));
    assert!(
        !urls.iter().any(|u| u.loc.contains("hidden-cat")),
        "Hidden category should not be in sitemap"
    );
}

#[test]
fn test_pagination_urls_calculated_correctly() {
    let mut config = create_test_config();
    config.build.posts_per_page = 5;

    let mut metadata = MetadataCache::new();
    metadata.category_info.push(create_test_category("dev", false));

    // Add 12 posts - should result in 3 pages (5 + 5 + 2)
    for i in 0..12 {
        let mut post = create_test_post(&format!("post-{}", i), "dev", false);
        post.frontmatter.tags = vec![];
        metadata.posts.push(post);
    }
    metadata.recalculate_stats();

    let mut urls = Vec::new();
    SitemapGenerator::add_categories(&mut urls, &config, &metadata);

    // Should have: 1 category index + 2 pagination pages (page/2, page/3)
    assert_eq!(urls.len(), 3, "Should have category + 2 pagination pages");
    assert!(urls.iter().any(|u| u.loc == "https://example.com/dev/"));
    assert!(urls.iter().any(|u| u.loc == "https://example.com/dev/page/2/"));
    assert!(urls.iter().any(|u| u.loc == "https://example.com/dev/page/3/"));
    assert!(
        !urls.iter().any(|u| u.loc.contains("page/1")),
        "Page 1 should not exist (it's the index)"
    );
}

#[test]
fn test_korean_urls_properly_encoded() {
    let config = create_test_config();
    let mut metadata = MetadataCache::new();

    metadata.posts.push(create_test_post("한글-포스트", "개발", false));

    let mut urls = Vec::new();
    SitemapGenerator::add_posts(&mut urls, &config, &metadata);

    assert_eq!(urls.len(), 1);
    let url = &urls[0].loc;
    assert!(url.contains("%"), "Korean characters should be percent-encoded");
    assert!(!url.contains("한"), "Korean characters should not appear literally");
}

#[test]
fn test_empty_metadata_produces_valid_sitemap() {
    let config = create_test_config();
    let metadata = MetadataCache::new();

    let mut urls = Vec::new();
    SitemapGenerator::add_homepage(&mut urls, &config);
    SitemapGenerator::add_posts(&mut urls, &config, &metadata);
    SitemapGenerator::add_categories(&mut urls, &config, &metadata);
    SitemapGenerator::add_tags(&mut urls, &config, &metadata);

    // Should still have homepage + tags overview
    assert!(urls.len() >= 1, "Should at least have homepage");
    assert!(urls.iter().any(|u| u.loc == "https://example.com"));

    let xml = SitemapGenerator::build_sitemap_xml(&urls);
    assert!(xml.starts_with("<?xml version"));
    assert!(xml.contains("<urlset"));
    assert!(xml.contains("</urlset>"));
}

#[test]
fn test_sitemap_xml_structure_valid() {
    let urls = vec![SitemapUrl {
        loc: "https://example.com/test/".to_string(),
        lastmod: Some("2025-01-01T00:00:00+00:00".to_string()),
        changefreq: Some("weekly".to_string()),
        priority: Some(8),
    }];

    let xml = SitemapGenerator::build_sitemap_xml(&urls);

    assert!(xml.contains("<loc>https://example.com/test/</loc>"));
    assert!(xml.contains("<lastmod>2025-01-01T00:00:00+00:00</lastmod>"));
    assert!(xml.contains("<changefreq>weekly</changefreq>"));
    assert!(xml.contains("<priority>0.8</priority>"));
}

#[test]
fn test_robots_txt_contains_sitemap() {
    let config = create_test_config();
    let content = RobotsGenerator::generate(&config);
    assert!(content.contains("User-agent: *"));
    assert!(content.contains("Allow: /"));
    assert!(content.contains("Sitemap: https://example.com/sitemap.xml"));
    assert_eq!(
        content,
        "User-agent: *\nAllow: /\n\nSitemap: https://example.com/sitemap.xml\n"
    );
}

#[test]
fn sitemap_document_is_exact() {
    let config = create_test_config();
    let mut metadata = MetadataCache::new();
    let mut visible = create_test_post("a&b", "dev", false);
    visible.frontmatter.date.modified = Some(Timestamp { secs: 1_705_399_200, nanos: 0 });
    metadata.posts.push(visible);
    metadata.posts.push(create_test_post("secret", "dev", true));
    metadata.category_info.push(create_test_category("dev", false));
    metadata.recalculate_stats();
    let xml = SitemapGenerator::generate(&config, &metadata, &vec!["about".to_string()]);
    assert_eq!(
        xml,
        "<?xml version=\"1.0\" encoding=\"UTF-8\"?>\n<urlset xmlns=\"http://www.sitemaps.org/schemas/sitemap/0.9\">\n  <url>\n    <loc>https://example.com</loc>\n    <changefreq>daily</changefreq>\n    <priority>1.0</priority>\n  </url>\n  <url>\n    <loc>https://example.com/dev/a%26b/</loc>\n    <lastmod>2024-01-16T10:00:00+00:00</lastmod>\n    <changefreq>monthly</changefreq>\n    <priority>0.8</priority>\n  </url>\n  <url>\n    <loc>https://example.com/dev/</loc>\n    <changefreq>weekly</changefreq>\n    <priority>0.7</priority>\n  </url>\n  <url>\n    <loc>https://example.com/tags/</loc>\n    <changefreq>weekly</changefreq>\n    <priority>0.6</priority>\n  </url>\n  <url>\n    <loc>https://example.com/tags/test/</loc>\n    <changefreq>weekly</changefreq>\n    <priority>0.5</priority>\n  </url>\n  <url>\n    <loc>https://example.com/about/</loc>\n    <changefreq>monthly</changefreq>\n    <priority>0.6</priority>\n  </url>\n</urlset>\n"
    );
    assert!(!xml.contains("secret"));
}
