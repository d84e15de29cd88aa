use ssg::indices::{
    category_listing, category_pages, category_tab_posts, homepage_posts, homepage_tabs,
    listing_pages, page_posts, sort_by_index, tag_listing, tag_pages, tags_by_count,
    visible_categories,
};
use ssg::metadata::{sort_by_recency, Listing, MetadataCache, PostMetadata};
use ssg::recent::RecentGenerator;
use ssg::config::SsgConfig;
use ssg::types::{Category, Frontmatter, PostDate, Timestamp};

fn front(title: &str, secs: i64, tags: &[&str], hidden: bool) -> Frontmatter {
    Frontmatter {
        title: title.to_string(),
        date: PostDate::new(Timestamp { secs, nanos: 0 }),
        tags: tags.iter().map(|t| t.to_string()).collect(),
        cover_image: None,
        og_image: None,
        description: None,
        display_ad: false,
        hidden,
        comments: true,
    }
}

fn category(slug: &str, index: i32, hidden: bool) -> Category {
    Category {
        slug: slug.to_string(),
        name: slug.to_string(),
        description: String::new(),
        index,
        hidden,
        icon: None,
        color: None,
        cover_image: None,
    }
}

fn sample() -> MetadataCache {
    let mut m = MetadataCache::new();
    m.upsert_post("a".into(), "dev".into(), front("A", 100, &["rust", "web"], false));
    m.upsert_post("b".into(), "dev/rust".into(), front("B", 300, &["rust"], false));
    m.upsert_post("c".into(), "chat".into(), front("C", 200, &[], false));
    m.upsert_post("h".into(), "dev".into(), front("H", 400, &["secret", "rust"], true));
    m.upsert_post("d".into(), "devops".into(), front("D", 50, &["web"], false));
    m
}

fn slugs(posts: &[&PostMetadata]) -> Vec<String> {
    posts.iter().map(|p| p.slug.clone()).collect()
}

#[test]
fn upsert_replaces_by_slug_and_category() {
    let mut m = sample();
    assert_eq!(m.posts.len(), 5);
    m.upsert_post("a".into(), "dev".into(), front("A2", 150, &["rust"], false));
    assert_eq!(m.posts.len(), 5);
    assert_eq!(m.posts[0].frontmatter.title, "A2");
    m.upsert_post("a".into(), "chat".into(), front("A3", 10, &[], false));
    assert_eq!(m.posts.len(), 6);
    assert_eq!(m.posts[5].category, "chat");
    m.upsert_post("a".into(), "chat".into(), front("A3", 10, &[], false));
    assert_eq!(m.posts.len(), 6);
}

#[test]
fn counts_follow_the_visible_posts() {
    let m = sample();
    let counts =
        |cs: &Vec<ssg::metadata::Count>| cs.iter().map(|c| (c.name.clone(), c.count)).collect::<Vec<_>>();
    assert_eq!(
        counts(&m.categories),
        vec![
            ("dev".to_string(), 1),
            ("dev/rust".to_string(), 1),
            ("chat".to_string(), 1),
            ("devops".to_string(), 1)
        ]
    );
    assert_eq!(counts(&m.tags), vec![("rust".to_string(), 2), ("web".to_string(), 2)]);
    assert_eq!(m.get_tags(), vec!["rust", "web"]);
    assert_eq!(m.get_categories(), vec!["dev", "dev/rust", "chat", "devops"]);
    let mut drifted = sample();
    drifted.tags.clear();
    drifted.categories[0].count = 99;
    drifted.recalculate_stats();
    assert_eq!(counts(&drifted.tags), counts(&m.tags));
    assert_eq!(counts(&drifted.categories), counts(&m.categories));
}

#[test]
fn listings_never_show_hidden_posts() {
    let m = sample();
    assert_eq!(slugs(&m.get_recent_posts(10)), vec!["b", "c", "a", "d"]);
    assert_eq!(slugs(&m.get_recent_posts(2)), vec!["b", "c"]);
    assert_eq!(slugs(&m.get_recent_posts(0)), Vec::<String>::new());
    assert_eq!(slugs(&m.get_posts_by_category("dev")), vec!["a"]);
    assert_eq!(slugs(&m.get_posts_by_category_tree("dev")), vec!["a", "b"]);
    assert_eq!(slugs(&m.get_posts_by_category_tree("de")), Vec::<String>::new());
    assert_eq!(slugs(&m.get_posts_by_tag("rust")), vec!["a", "b"]);
    assert_eq!(slugs(&m.get_posts_by_tag("secret")), Vec::<String>::new());
    assert_eq!(slugs(&m.list(&Listing::Related("dev", "a"))), Vec::<String>::new());
    assert_eq!(slugs(&m.list(&Listing::Visible)), vec!["a", "b", "c", "d"]);
    assert_eq!(m.find_post("h").unwrap().frontmatter.title, "H");
    assert!(m.find_post("zzz").is_none());
}

#[test]
fn posts_of_one_date_keep_their_order() {
    let mut m = MetadataCache::new();
    m.upsert_post("x".into(), "c".into(), front("X", 5, &[], false));
    m.upsert_post("y".into(), "c".into(), front("Y", 9, &[], false));
    m.upsert_post("z".into(), "c".into(), front("Z", 5, &[], false));
    let mut later = front("W", 5, &[], false);
    later.date.posted.nanos = 1;
    m.upsert_post("w".into(), "c".into(), later);
    let all = m.list(&Listing::Visible);
    assert_eq!(slugs(&sort_by_recency(&all)), vec!["y", "w", "x", "z"]);
}

#[test]
fn category_info_is_kept() {
    let mut m = sample();
    m.set_category_info(vec![category("dev", 2, false), category("x", 1, true), category("chat", 1, false)]);
    assert_eq!(m.get_category_info().len(), 3);
    let shown = visible_categories(&m);
    assert_eq!(shown.iter().map(|c| c.slug.as_str()).collect::<Vec<_>>(), vec!["dev", "chat"]);
    let sorted = sort_by_index(&shown);
    assert_eq!(sorted.iter().map(|c| c.slug.as_str()).collect::<Vec<_>>(), vec!["chat", "dev"]);
    assert_eq!(slugs(&homepage_posts(&m, 10)), vec!["c", "a"]);
    assert_eq!(slugs(&homepage_posts(&m, 1)), Vec::<String>::new());
    assert_eq!(slugs(&category_tab_posts(&m, "dev", 5)), vec!["a"]);
    assert_eq!(slugs(&category_listing(&m, "dev")), vec!["b", "a"]);
    assert_eq!(slugs(&tag_listing(&m, "web")), vec!["a", "d"]);
}

#[test]
fn tags_are_ordered_by_use() {
    let mut m = MetadataCache::new();
    m.upsert_post("a".into(), "c".into(), front("A", 1, &["one", "two", "three"], false));
    m.upsert_post("b".into(), "c".into(), front("B", 2, &["two", "three"], false));
    m.upsert_post("c".into(), "c".into(), front("C", 3, &["three", "four"], false));
    let tags: Vec<(String, usize)> =
        tags_by_count(&m).iter().map(|c| (c.name.clone(), c.count)).collect();
    assert_eq!(
        tags,
        vec![
            ("three".to_string(), 3),
            ("two".to_string(), 2),
            ("one".to_string(), 1),
            ("four".to_string(), 1)
        ]
    );
}

#[test]
fn twelve_posts_make_three_pages_of_five() {
    let mut m = MetadataCache::new();
    for i in 0..12 {
        m.upsert_post(format!("p{:02}", i), "dev".into(), front("P", 1000 - i, &[], false));
    }
    let listing = category_listing(&m, "dev");
    assert_eq!(ssg::pagination::total_pages(listing.len(), 5), 3);
    assert_eq!(slugs(&page_posts(&listing, 5, 1)), vec!["p00", "p01", "p02", "p03", "p04"]);
    assert_eq!(slugs(&page_posts(&listing, 5, 2)), vec!["p05", "p06", "p07", "p08", "p09"]);
    assert_eq!(slugs(&page_posts(&listing, 5, 3)), vec!["p10", "p11"]);
    assert_eq!(slugs(&page_posts(&listing, 5, 4)), Vec::<String>::new());
    assert_eq!(slugs(&page_posts(&listing, 5, 0)), Vec::<String>::new());
    assert_eq!(ssg::pagination::page_url_of("/dev/", 1), "/dev/");
    assert_eq!(ssg::pagination::page_url_of("/dev/", 2), "/dev/page/2");
    assert_eq!(ssg::generator::listing_path("dist/dev", 1), "dist/dev/index.html");
    assert_eq!(ssg::generator::listing_path("dist/dev", 3), "dist/dev/page/3/index.html");
}

#[test]
fn recent_list_holds_the_six_newest() {
    let mut m = sample();
    for i in 0..5 {
        m.upsert_post(format!("n{}", i), "한글".into(), front("N", 1_705_312_800 + i, &[], false));
    }
    m.posts[0].frontmatter.description = Some("about a".to_string());
    let mut config = SsgConfig::default();
    let list = RecentGenerator::new(SsgConfig::default()).generate(&m);
    assert_eq!(list.len(), 6);
    assert_eq!(list[0].uri, "/한글/n4/");
    assert_eq!(list[0].date, "2024-01-15T10:00:04+00:00");
    assert_eq!(list[0].desc, "");
    assert_eq!(list[5].uri, "/dev/rust/b/");
    assert_eq!(list[5].title, "B");
    config.build.encode_filenames = true;
    let list = RecentGenerator::new(config).generate(&m);
    assert_eq!(list[0].uri, "/%ED%95%9C%EA%B8%80/n4/");
    assert!(!list.iter().any(|p| p.title == "H"));
}

#[test]
fn twelve_posts_are_listed_on_three_pages() {
    let mut m = MetadataCache::new();
    for i in 0..12 {
        m.upsert_post(format!("p{:02}", i), "dev".into(), front("P", 1000 - i, &["t"], false));
    }
    m.upsert_post("hidden".into(), "dev".into(), front("H", 5000, &["t"], true));
    let mut config = SsgConfig::default();
    config.build.posts_per_page = 5;
    let pages = category_pages(&config, &m, "dev");
    assert_eq!(pages.len(), 3);
    assert_eq!(
        pages.iter().map(|p| p.output_path.as_str()).collect::<Vec<_>>(),
        vec!["dist/dev/index.html", "dist/dev/page/2/index.html", "dist/dev/page/3/index.html"]
    );
    assert_eq!(pages.iter().map(|p| p.number).collect::<Vec<_>>(), vec![1, 2, 3]);
    assert_eq!(slugs(&pages[0].posts), vec!["p00", "p01", "p02", "p03", "p04"]);
    assert_eq!(slugs(&pages[1].posts), vec!["p05", "p06", "p07", "p08", "p09"]);
    assert_eq!(slugs(&pages[2].posts), vec!["p10", "p11"]);
    let first = pages[0].pagination.as_ref().unwrap();
    assert_eq!(first.total_posts, 12);
    assert_eq!(first.first_url, "/dev/");
    assert_eq!(first.pages[0].url, "/dev/");
    assert_eq!(first.pages[1].url, "/dev/page/2");
    assert!(!pages.iter().any(|p| p.output_path.contains("page/1/")));
    let tags = tag_pages(&config, &m, "t");
    assert_eq!(tags.len(), 3);
    assert_eq!(tags[1].output_path, "dist/tag/t/page/2/index.html");
    assert_eq!(tags[1].pagination.as_ref().unwrap().prev_url.as_deref(), Some("/tag/t/"));
    let empty = category_pages(&config, &m, "none");
    assert_eq!(empty.len(), 1);
    assert!(empty[0].pagination.is_none());
    assert!(empty[0].posts.is_empty());
    assert_eq!(empty[0].output_path, "dist/none/index.html");
    let listing = category_listing(&m, "dev");
    assert_eq!(listing_pages(&listing, 12, 5, "/x/", "out").len(), 1);
    assert_eq!(listing_pages(&listing, 0, 5, "/x/", "out").len(), 1);
}

#[test]
fn homepage_has_a_tab_for_every_shown_category() {
    let mut m = sample();
    m.set_category_info(vec![category("dev", 2, false), category("x", 1, true), category("chat", 1, false)]);
    let tabs = homepage_tabs(&m, 3);
    assert_eq!(tabs.iter().map(|t| t.category.slug.as_str()).collect::<Vec<_>>(), vec!["chat", "dev"]);
    assert_eq!(slugs(&tabs[0].posts), vec!["c"]);
    assert_eq!(slugs(&tabs[1].posts), vec!["a"]);
}

#[test]
fn search_index_knows_the_visible_posts_only() {
    let mut m = sample();
    m.posts[0].frontmatter.description = Some("about a".to_string());
    let index = ssg::search::SearchIndexGenerator::new(SsgConfig::default()).generate(&m);
    let urls: Vec<&str> = index.iter().map(|e| e.url.as_str()).collect();
    assert_eq!(urls, vec!["/dev/rust/b/", "/chat/c/", "/dev/a/", "/devops/d/"]);
    assert!(!index.iter().any(|e| e.title == "H" || e.tags.iter().any(|t| t == "secret")));
    assert_eq!(index[2].title, "A");
    assert_eq!(index[2].category, "dev");
    assert_eq!(index[2].tags, vec!["rust".to_string(), "web".to_string()]);
    assert_eq!(index[2].description, "about a");
    assert_eq!(index[2].date, "1970-01-01T00:01:40+00:00");
    assert_eq!(index[0].description, "");
}
