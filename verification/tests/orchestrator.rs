use ssg::cache::BuildCache;
use ssg::config::SsgConfig;
use ssg::feeds::{FeedError, FeedGenerator};
use ssg::generator::{get_page_path, get_post_path, is_asset, maybe_encode};
use ssg::metadata::MetadataCache;
use ssg::image::ImageCatalog;
use ssg::orchestrator::{
    after_parse, before_parse, build_post_extra_data, index_post, is_markdown_path,
    merge_results, related_posts, resolve_post_images, BuildProgress, BuildResult, NextStep,
    OriginalImagePaths, SkipReason,
};
use ssg::types::Category;
use ssg::parser::Parser;
use ssg::renderer::Renderer;
use ssg::sitemap::SitemapGenerator;
use ssg::types::{Frontmatter, Page, PageFrontmatter, Post, PostDate, Timestamp};

fn front(title: &str, secs: i64, hidden: bool) -> Frontmatter {
    Frontmatter {
        title: title.to_string(),
        date: PostDate::new(Timestamp { secs, nanos: 0 }),
        tags: vec!["test".to_string(), "example".to_string()],
        cover_image: None,
        og_image: None,
        description: None,
        display_ad: false,
        hidden,
        comments: true,
    }
}

fn post(slug: &str, category: &str, secs: i64, hidden: bool) -> Post {
    Post {
        slug: slug.to_string(),
        category: category.to_string(),
        frontmatter: front(slug, secs, hidden),
        content: format!("# {}\n\nBody of *{}*.", slug, slug),
        rendered_html: None,
    }
}

fn success(path: &str, slug: &str, hash: &str) -> BuildResult {
    BuildResult::Success {
        path: path.to_string(),
        slug: slug.to_string(),
        category: "dev".to_string(),
        frontmatter: front(slug, 10, false),
        file_hash: hash.to_string(),
        template_hash: "t".to_string(),
        output_path: format!("dist/dev/{}/index.html", slug),
    }
}

#[test]
fn cached_files_are_skipped_only_with_the_cache_in_use() {
    let mut cache = BuildCache::new();
    cache.record_build("a.md", "h".into(), "t".into(), "o".into(), "now".into());
    assert_eq!(before_parse(&cache, true, "a.md", "h", "t"), NextStep::Skip(SkipReason::Cached));
    assert_eq!(before_parse(&cache, false, "a.md", "h", "t"), NextStep::Proceed);
    assert_eq!(before_parse(&cache, true, "a.md", "h2", "t"), NextStep::Proceed);
    assert_eq!(before_parse(&cache, true, "a.md", "h", "t2"), NextStep::Proceed);
    assert_eq!(before_parse(&cache, true, "b.md", "h", "t"), NextStep::Proceed);
    assert_eq!(after_parse(&post("a", "dev", 1, true)), NextStep::Skip(SkipReason::Draft));
    assert_eq!(after_parse(&post("a", "dev", 1, false)), NextStep::Proceed);
}

#[test]
fn images_are_resolved_against_the_category() {
    let mut p = post("a", "work/apps", 1, false);
    p.frontmatter.cover_image = Some("./a/cover.png".to_string());
    p.frontmatter.og_image = Some("../og.png".to_string());
    let original = OriginalImagePaths::of(&p);
    resolve_post_images(&mut p);
    assert_eq!(p.frontmatter.cover_image.as_deref(), Some("/work/apps/a/cover.png"));
    assert_eq!(p.frontmatter.og_image.as_deref(), Some("/work/og.png"));
    assert_eq!(original.cover_image.as_deref(), Some("./a/cover.png"));
    assert_eq!(original.og_image.as_deref(), Some("../og.png"));
    assert_eq!(p.slug, "a");
}

#[test]
fn first_pass_indexes_visible_posts() {
    let mut metadata = MetadataCache::new();
    let mut a = post("a", "dev", 1, false);
    a.frontmatter.cover_image = Some("./a/c.png".to_string());
    index_post(&mut metadata, a);
    index_post(&mut metadata, post("h", "dev", 2, true));
    index_post(&mut metadata, post("b", "dev", 3, false));
    assert_eq!(metadata.posts.len(), 2);
    assert_eq!(metadata.posts[0].frontmatter.cover_image.as_deref(), Some("/dev/a/c.png"));
    assert_eq!(metadata.categories[0].count, 2);
    index_post(&mut metadata, post("a", "dev", 5, false));
    assert_eq!(metadata.posts.len(), 2);
}

#[test]
fn related_posts_are_the_newest_of_the_category() {
    let mut metadata = MetadataCache::new();
    for (i, slug) in ["a", "b", "c", "d", "e", "f"].iter().enumerate() {
        index_post(&mut metadata, post(slug, "dev", i as i64, false));
    }
    index_post(&mut metadata, post("x", "chat", 100, false));
    let current = post("d", "dev", 3, false);
    let related: Vec<&str> =
        related_posts(&current, &metadata).iter().map(|p| p.slug.as_str()).collect();
    assert_eq!(related, vec!["f", "e", "c", "b"]);
}

#[test]
fn progress_counts_built_and_skipped() {
    let mut progress = BuildProgress::new();
    progress.record(&success("a.md", "a", "h"));
    progress.record(&BuildResult::Skipped { path: "b.md".into(), reason: SkipReason::Cached });
    progress.record(&BuildResult::Skipped { path: "c.md".into(), reason: SkipReason::Draft });
    progress.record(&BuildResult::Error { path: "d.md".into(), error: "bad".into() });
    progress.increment_built();
    assert_eq!(progress, BuildProgress { built: 2, skipped: 2 });
    let mut full = BuildProgress { built: usize::MAX, skipped: 0 };
    full.increment_built();
    assert_eq!(full.built, usize::MAX);
}

#[test]
fn merge_records_successes_only() {
    let mut cache = BuildCache::new();
    cache.record_build("old.md", "h0".into(), "t".into(), "o".into(), "then".into());
    cache.record_build("bad.md", "h0".into(), "t".into(), "o".into(), "then".into());
    let mut metadata = MetadataCache::new();
    let results = vec![
        success("a.md", "a", "h1"),
        BuildResult::Error { path: "bad.md".into(), error: "Invalid frontmatter".into() },
        BuildResult::Skipped { path: "old.md".into(), reason: SkipReason::Cached },
        success("b.md", "b", "h2"),
        BuildResult::Error { path: "new-bad.md".into(), error: "no title".into() },
        success("a.md", "a", "h3"),
    ];
    let outcome = merge_results(&mut cache, &mut metadata, &results, "2024-01-15T10:00:00+00:00");
    assert_eq!(outcome.built, 3);
    assert_eq!(outcome.skipped, 1);
    assert_eq!(
        outcome.errors,
        vec![
            ("bad.md".to_string(), "Invalid frontmatter".to_string()),
            ("new-bad.md".to_string(), "no title".to_string())
        ]
    );
    assert!(outcome.failed());
    assert_eq!(outcome.exit_code(), 1);
    assert_eq!(outcome.failure_message(), "2 posts failed to build");
    assert_eq!(cache.entries.len(), 4);
    assert_eq!(cache.get("a.md").unwrap().file_hash, "h3");
    assert_eq!(cache.get("a.md").unwrap().built_at, "2024-01-15T10:00:00+00:00");
    assert_eq!(cache.get("bad.md").unwrap().built_at, "then");
    assert!(cache.get("new-bad.md").is_none());
    assert_eq!(metadata.posts.len(), 2);
    assert!(!cache.needs_rebuild("b.md", "h2", "t"));
    let clean = merge_results(&mut cache, &mut metadata, &vec![], "x");
    assert!(!clean.failed());
    assert_eq!(clean.exit_code(), 0);
}

#[test]
fn output_paths() {
    let mut config = SsgConfig::default();
    let p = post("한글", "dev/rust", 1, false);
    assert_eq!(get_post_path(&config, &p), "dist/dev/rust/한글/index.html");
    config.build.encode_filenames = true;
    config.build.output_dir = "out".to_string();
    assert_eq!(get_post_path(&config, &p), "out/dev/rust/%ED%95%9C%EA%B8%80/index.html");
    let page = Page {
        slug: "about me".to_string(),
        frontmatter: PageFrontmatter {
            title: "About".to_string(),
            description: None,
            hidden: false,
            comments: true,
        },
        content: String::new(),
        rendered_html: None,
    };
    assert_eq!(get_page_path(&config, &page), "out/about%20me/index.html");
    assert_eq!(maybe_encode(&SsgConfig::default(), "a b"), "a b");
    assert!(is_asset("PNG") && is_asset("jpeg") && is_asset("pdf") && is_asset("webm"));
    assert!(!is_asset("md") && !is_asset("rs") && !is_asset(""));
    assert!(is_markdown_path("content/posts/dev/a.md"));
    assert!(!is_markdown_path("content/posts/dev/a.markdown"));
    assert!(!is_markdown_path("content/posts/dev/amd"));
}

#[test]
fn feeds_are_written_from_the_sources() {
    let mut config = SsgConfig::default();
    config.site.url = "https://example.com".to_string();
    config.site.title = "Blog & more".to_string();
    config.site.author = "Me".to_string();
    let mut metadata = MetadataCache::new();
    let mut a = post("a", "dev", 1_705_312_800, false);
    a.frontmatter.description = Some("All about <a>".to_string());
    let b = post("b", "chat", 1_705_399_200, false);
    let hidden = post("secret-post", "dev", 1_705_485_600, true);
    for p in [&a, &b, &hidden] {
        index_post(&mut metadata, p.clone());
    }
    let now = Timestamp { secs: 1_705_572_000, nanos: 0 };
    let sources = vec![a.clone(), b.clone(), hidden.clone()];
    let files = FeedGenerator::generate_all_feeds(&config, &metadata, &sources, now).unwrap();
    let paths: Vec<&str> = files.iter().map(|f| f.path.as_str()).collect();
    assert_eq!(paths, vec!["feed.xml", "dev/feed.xml", "chat/feed.xml", "atom.xml"]);
    for f in &files {
        assert!(!f.content.contains("secret-post"), "{}", f.path);
    }
    let rss = &files[0].content;
    assert!(rss.starts_with("<?xml version=\"1.0\" encoding=\"UTF-8\"?>\n<rss version=\"2.0\""));
    assert!(rss.contains("<title>Blog &amp; more</title>"));
    assert!(rss.contains("<atom:link href=\"https://example.com/feed.xml\" rel=\"self\" type=\"application/rss+xml\" />"));
    assert!(rss.contains("<lastBuildDate>Thu, 18 Jan 2024 10:00:00 +0000</lastBuildDate>"));
    let item_b = "    <item>\n        <title>b</title>\n        <link>https://example.com/chat/b</link>\n        <dc:creator><![CDATA[Me]]></dc:creator>\n        <pubDate>Tue, 16 Jan 2024 10:00:00 +0000</pubDate>\n        <category><![CDATA[chat]]></category>\n        <category><![CDATA[test]]></category>\n        <category><![CDATA[example]]></category>\n        <guid isPermaLink=\"false\">https://example.com/chat/b</guid>\n        <description><![CDATA[b]]></description>\n        <content:encoded><![CDATA[<h1>b</h1>\n<p>Body of <em>b</em>.</p>\n]]></content:encoded>\n    </item>\n    <item>\n        <title>a</title>";
    assert!(rss.contains(item_b), "{}", rss);
    assert!(rss.contains("<description><![CDATA[All about &lt;a&gt;]]></description>"));
    assert!(rss.ends_with("</item>\n</channel>\n</rss>\n"));
    let dev = &files[1].content;
    assert!(dev.contains("<title>Blog &amp; more - dev</title>"));
    assert!(dev.contains("<description>dev posts from Blog &amp; more</description>"));
    assert!(dev.contains("<link>https://example.com/dev/</link>"));
    assert!(!dev.contains("<title>b</title>"));
    let atom = &files[3].content;
    assert!(atom.contains("<updated>2024-01-18T10:00:00+00:00</updated>"));
    assert!(atom.contains("  <entry>\n    <title>b</title>\n    <link href=\"https://example.com/chat/b/\" rel=\"alternate\" type=\"text/html\" />\n    <id>https://example.com/chat/b/</id>\n    <published>2024-01-16T10:00:00+00:00</published>\n    <updated>2024-01-16T10:00:00+00:00</updated>"));
    assert!(atom.contains("    <category term=\"test\" />\n    <category term=\"example\" />\n  </entry>"));
    assert!(atom.ends_with("  </entry>\n</feed>\n"));

    match FeedGenerator::generate_all_feeds(&config, &metadata, &vec![a], now) {
        Err(FeedError::PostNotFound(slug)) => assert_eq!(slug, "b"),
        other => panic!("{:?}", other.map(|f| f.len())),
    }
    let empty = MetadataCache::new();
    assert!(FeedGenerator::generate_all_feeds(&config, &empty, &vec![], now).unwrap().is_empty());
    assert_eq!(FeedGenerator::render_markdown_simple("*x*"), "<p><em>x</em></p>\n");
}

#[test]
fn one_post_is_built_once_and_skipped_the_second_time() {
    let mut config = SsgConfig::default();
    config.site.url = "https://example.com".to_string();
    let path = "content/posts/dev/test-post.md";
    let source = "---\ntitle: \"Test Post\"\ndate: 2024-01-15T10:00:00Z\ntags: [test, example]\nhidden: false\n---\n\n# Hello\n\nText.\n";
    let file_hash = ssg::cache::hash_bytes(source.as_bytes());
    let template_hash = ssg::cache::hash_directory(&vec![]);
    let mut cache = BuildCache::new();
    let mut metadata = MetadataCache::new();
    let mut tera = tera::Tera::default();
    tera.add_raw_template("post.html", "<main>{{ content | safe }}</main>").unwrap();

    let mut build = |cache: &BuildCache| -> BuildResult {
        if let NextStep::Skip(reason) = before_parse(cache, true, path, &file_hash, &template_hash) {
            return BuildResult::Skipped { path: path.to_string(), reason };
        }
        let doc = Parser::parse_file(path, source).unwrap();
        assert_eq!(doc.frontmatter.as_deref().unwrap().lines().next(), Some("title: \"Test Post\""));
        let mut post = doc.into_post(Frontmatter {
            title: "Test Post".to_string(),
            date: PostDate::new(Timestamp::parse("2024-01-15T10:00:00Z").unwrap()),
            tags: vec!["test".to_string(), "example".to_string()],
            cover_image: None,
            og_image: None,
            description: None,
            display_ad: false,
            hidden: false,
            comments: true,
        });
        assert_eq!(after_parse(&post), NextStep::Proceed);
        let html = Renderer::new()
            .render_markdown_with_components(&post.content, &tera, &post.category)
            .unwrap();
        assert_eq!(html, "<h1>Hello</h1>\n<p>Text.</p>\n");
        post.rendered_html = Some(html);
        resolve_post_images(&mut post);
        let output_path = get_post_path(&config, &post);
        assert_eq!(output_path, "dist/dev/test-post/index.html");
        BuildResult::Success {
            path: path.to_string(),
            slug: post.slug,
            category: post.category,
            frontmatter: post.frontmatter,
            file_hash: file_hash.clone(),
            template_hash: template_hash.clone(),
            output_path,
        }
    };

    let first = vec![build(&cache)];
    let outcome = merge_results(&mut cache, &mut metadata, &first, "2024-01-15T10:00:01+00:00");
    assert_eq!((outcome.built, outcome.skipped, outcome.exit_code()), (1, 0, 0));
    let sitemap = SitemapGenerator::generate(&config, &metadata, &vec![]);
    assert!(sitemap.contains("<loc>https://example.com/dev/test-post/</loc>"));
    assert!(sitemap.contains("<lastmod>2024-01-15T10:00:00+00:00</lastmod>"));

    let second = vec![build(&cache)];
    assert!(matches!(
        second[0],
        BuildResult::Skipped { reason: SkipReason::Cached, .. }
    ));
    let outcome = merge_results(&mut cache, &mut metadata, &second, "later");
    assert_eq!((outcome.built, outcome.skipped, outcome.exit_code()), (0, 1, 0));
    assert_eq!(cache.get(path).unwrap().built_at, "2024-01-15T10:00:01+00:00");
    assert_eq!(metadata.posts.len(), 1);
}

#[test]
fn extra_data_holds_navigation_images_and_related_posts() {
    let mut metadata = MetadataCache::new();
    metadata.set_category_info(vec![Category {
        slug: "dev".to_string(),
        name: "Development".to_string(),
        description: String::new(),
        index: 1,
        hidden: false,
        icon: None,
        color: None,
        cover_image: None,
    }]);
    for (i, slug) in ["a", "b", "c"].iter().enumerate() {
        let mut p = post(slug, "dev", i as i64, false);
        p.frontmatter.cover_image = Some(format!("./{}/cover.png", slug));
        index_post(&mut metadata, p);
    }
    let mut current = post("b", "dev", 1, false);
    current.frontmatter.cover_image = Some("./b/cover.png".to_string());
    current.frontmatter.og_image = Some("./b/og.png".to_string());
    let original = OriginalImagePaths::of(&current);
    resolve_post_images(&mut current);
    let mut catalog = ImageCatalog::new();
    catalog.add("content/posts/dev/b/cover.png".to_string(), Some((900, 600)));
    catalog.add("content/posts/dev/b/og.png".to_string(), None);
    catalog.add("content/posts/dev/c/cover.png".to_string(), None);

    let extra = build_post_extra_data(
        &current,
        &metadata,
        Some("https://cdn.example.com"),
        "content/posts",
        &catalog,
        Some(&original),
    );
    assert_eq!(extra.category_info.as_ref().unwrap().name, "Development");
    assert_eq!(extra.navigation.prev.as_ref().unwrap().slug, "a");
    assert!(extra.navigation.prev.as_ref().unwrap().thumbnail_metadata.is_none());
    let next = extra.navigation.next.as_ref().unwrap();
    assert_eq!(next.slug, "c");
    assert_eq!(
        next.thumbnail_metadata.as_ref().unwrap().src,
        "https://cdn.example.com/images/dev/c/cover.w500.png"
    );
    let cover = extra.cover_image_metadata.as_ref().unwrap();
    assert_eq!((cover.width, cover.height), (900, 600));
    assert_eq!(cover.sources.len(), 4);
    assert_eq!(
        extra.og_image_metadata.as_ref().unwrap().webp_src,
        "https://cdn.example.com/images/dev/b/og.w500.png.webp"
    );
    let related: Vec<(&str, bool)> = extra
        .related_posts
        .iter()
        .map(|r| (r.post.slug.as_str(), r.thumbnail_metadata.is_some()))
        .collect();
    assert_eq!(related, vec![("c", true), ("a", false)]);

    let plain = build_post_extra_data(&current, &metadata, None, "content/posts", &catalog, Some(&original));
    assert!(plain.cover_image_metadata.is_none() && plain.og_image_metadata.is_none());
    assert!(plain.navigation.next.unwrap().thumbnail_metadata.is_none());
    assert!(plain.related_posts.iter().all(|r| r.thumbnail_metadata.is_none()));
    let other = post("z", "chat", 1, false);
    let none = build_post_extra_data(&other, &metadata, None, "content/posts", &catalog, None);
    assert!(none.category_info.is_none());
    assert!(none.navigation.prev.is_none() && none.navigation.next.is_none());
    assert!(none.related_posts.is_empty());
}
