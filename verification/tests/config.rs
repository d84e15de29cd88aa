use ssg::config::{BuildConfig, SiteConfig, SsgConfig};

#[test]
fn test_default_config() {
    let config = SsgConfig::default();
    assert_eq!(config.site.title, "marshallku blog");
    assert_eq!(config.build.posts_per_page, 10);
}

#[test]
fn defaults_of_every_field() {
    let site = SiteConfig::default();
    assert_eq!(site.url, "https://marshallku.com");
    assert_eq!(site.author, "Marshall K");
    assert_eq!(site.description, "marshallku blog");
    assert!(site.cdn_url.is_none());
    let build = BuildConfig::default();
    assert_eq!(build.content_dir, "content/posts");
    assert_eq!(build.output_dir, "dist");
    assert_eq!(build.pagination_window, 5);
    assert_eq!(build.partial_dir, "html");
    assert!(build.search.enabled);
    assert!(!build.encode_filenames);
    assert!(!build.generate_partials);
    assert!(build.homepage_posts_limit.is_none());
}

#[test]
fn template_config_borrows_the_site() {
    let mut config = SsgConfig::default();
    config.site.api_url = Some("https://api.example.com".to_string());
    let t = config.to_template_config();
    assert_eq!(t.site_title, "marshallku blog");
    assert_eq!(t.api_url, Some("https://api.example.com"));
    assert_eq!(t.google_analytics_id, None);
    assert_eq!(config.homepage_limit(), 10);
    config.build.homepage_posts_limit = Some(3);
    assert_eq!(config.homepage_limit(), 3);
}
