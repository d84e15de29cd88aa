use ssg::parser::{DateField, FrontmatterFields, PageFrontmatterFields, ParseError, Parser};
use ssg::types::{PostDate, Timestamp};

#[test]
fn test_split_frontmatter() {
    let content = "---\ntitle: Test Post\n---\nContent here";

    let (fm, content) = Parser::split_frontmatter(content).unwrap();
    assert!(fm.contains("title: Test Post"));
    assert_eq!(content, "Content here");
}

#[test]
fn test_split_frontmatter_multiline() {
    let content =
        "---\ntitle: Test\ndate: 2025-11-11T10:00:00Z\n---\n# Heading\n\nContent with multiple lines";

    let (fm, content) = Parser::split_frontmatter(content).unwrap();
    assert!(fm.contains("title: Test"));
    assert!(content.starts_with("# Heading"));
}

#[test]
fn test_path_to_slug() {
    let slug = Parser::path_to_slug("content/posts/dev/hello-world.md").unwrap();
    assert_eq!(slug, "hello-world");
}

#[test]
fn test_split_frontmatter_missing_closing_delimiter_fails() {
    let content = "---\ntitle: Test Post\nContent without closing delimiter";

    let result = Parser::split_frontmatter(content);
    assert!(result.is_err(), "Should fail without closing ---");
}

#[test]
fn test_extract_category_nested() {
    let category = Parser::extract_category("content/posts/dev/rust/hello-world.md").unwrap();
    assert_eq!(category, "dev/rust");
}

#[test]
fn test_extract_category_missing_posts_fails() {
    let result = Parser::extract_category("content/articles/dev/hello-world.md");
    assert!(result.is_err(), "Should fail when 'posts' not in path");
}

#[test]
fn split_frontmatter_needs_two_delimiters() {
    assert_eq!(
        Parser::split_frontmatter("no delimiters at all"),
        Err(ParseError::InvalidFrontmatter)
    );
    assert_eq!(
        Parser::split_frontmatter("--- only one, whatever the body says"),
        Err(ParseError::InvalidFrontmatter)
    );
    assert_eq!(
        Parser::split_frontmatter("-----"),
        Err(ParseError::InvalidFrontmatter)
    );
    assert_eq!(
        Parser::split_frontmatter("------"),
        Ok((String::new(), String::new()))
    );
    assert_eq!(
        Parser::split_frontmatter("junk --- a: 1 --- body --- more"),
        Ok(("a: 1".to_string(), "body --- more".to_string()))
    );
}

#[test]
fn slug_is_the_stem_of_the_file_name() {
    assert_eq!(Parser::path_to_slug("a/b/c.tar.gz").unwrap(), "c.tar");
    assert_eq!(Parser::path_to_slug("a/b/.hidden").unwrap(), ".hidden");
    assert_eq!(Parser::path_to_slug("a/b/noext").unwrap(), "noext");
    assert_eq!(Parser::path_to_slug("a//b/./post.md/").unwrap(), "post");
    assert_eq!(Parser::path_to_slug(""), Err(ParseError::InvalidPath));
    assert_eq!(Parser::path_to_slug("a/.."), Err(ParseError::InvalidPath));
}

#[test]
fn category_is_what_lies_between_posts_and_the_file() {
    assert_eq!(
        Parser::extract_category("/srv/site/content/posts/dev/hello.md").unwrap(),
        "dev"
    );
    assert_eq!(
        Parser::extract_category("content/posts/posts/x.md").unwrap(),
        "posts"
    );
    assert_eq!(
        Parser::extract_category("content/posts/hello.md"),
        Err(ParseError::MissingCategory)
    );
    assert_eq!(
        Parser::extract_category("content/posts"),
        Err(ParseError::MissingCategory)
    );
    assert_eq!(
        Parser::extract_category("content/pages/about.md"),
        Err(ParseError::MissingPostsDirectory)
    );
}

#[test]
fn parse_file_reads_slug_category_and_parts() {
    let doc = Parser::parse_file(
        "content/posts/work/apps/my-post.md",
        "---\ntitle: T\n---\n\nBody text\n",
    )
    .unwrap();
    assert_eq!(doc.slug, "my-post");
    assert_eq!(doc.category, "work/apps");
    assert_eq!(doc.frontmatter.as_deref(), Some("title: T"));
    assert_eq!(doc.content, "Body text");

    assert_eq!(
        Parser::parse_file("content/posts/dev/x.md", "no front matter").err(),
        Some(ParseError::InvalidFrontmatter)
    );
    assert_eq!(
        Parser::parse_file("content/x.md", "---\n---\n").err(),
        Some(ParseError::MissingPostsDirectory)
    );
}

#[test]
fn page_without_frontmatter_gets_its_title_from_the_slug() {
    let doc = Parser::parse_page_file("content/pages/about-this-site.md", "Hello").unwrap();
    assert_eq!(doc.slug, "about-this-site");
    assert!(doc.frontmatter.is_none());
    assert_eq!(doc.content, "Hello");
    let page = doc.into_page(None);
    assert_eq!(page.frontmatter.title, "about this site");
    assert!(!page.frontmatter.hidden);
    assert!(page.frontmatter.comments);

    let doc = Parser::parse_page_file("content/pages/about.md", "  ---\ntitle: A\n---\nBody").unwrap();
    assert_eq!(doc.frontmatter.as_deref(), Some("title: A"));
    assert_eq!(doc.content, "Body");

    assert_eq!(
        Parser::parse_page_file("content/pages/about.md", "--- broken").err(),
        Some(ParseError::InvalidFrontmatter)
    );
}

fn fields(title: Option<&str>, date: Option<DateField>) -> FrontmatterFields {
    FrontmatterFields {
        title: title.map(|t| t.to_string()),
        date,
        tags: None,
        cover_image: None,
        og_image: None,
        description: None,
        display_ad: None,
        hidden: None,
        comments: None,
    }
}

#[test]
fn test_parse_frontmatter_simple_date() {
    let posted = Timestamp::parse("2025-01-01T12:00:00Z").unwrap();
    let mut given = fields(Some("Test Post"), Some(DateField::Simple(posted)));
    given.tags = Some(vec![]);
    let fm = Parser::build_frontmatter(given).unwrap();
    assert_eq!(fm.title, "Test Post");
    assert!(fm.date.posted.to_rfc3339().starts_with("2025"));
    assert!(fm.date.modified.is_none());
}

#[test]
fn test_parse_frontmatter_nested_date() {
    let posted = Timestamp::parse("2025-01-01T12:00:00Z");
    let modified = Timestamp::parse("2025-01-15T14:30:00Z");
    let given = fields(Some("Test Post"), Some(DateField::Nested { posted, modified }));
    let fm = Parser::build_frontmatter(given).unwrap();
    assert_eq!(fm.title, "Test Post");
    assert!(fm.date.posted.to_rfc3339().starts_with("2025"));
    assert!(fm.date.modified.is_some());
    assert!(fm.date.modified.unwrap().to_rfc3339().starts_with("2025-01-15"));
}

#[test]
fn test_parse_frontmatter_missing_title_fails() {
    let posted = Timestamp::parse("2025-01-01T12:00:00Z").unwrap();
    let result = Parser::build_frontmatter(fields(None, Some(DateField::Simple(posted))));
    assert!(result.is_err(), "Should fail when title is missing");
    assert_eq!(result.err(), Some(ParseError::MissingTitle));
}

#[test]
fn test_parse_frontmatter_missing_date_fails() {
    let result = Parser::build_frontmatter(fields(Some("Test Post"), None));
    assert!(result.is_err(), "Should fail when date is missing");
    assert_eq!(result.err(), Some(ParseError::MissingDate));
}

#[test]
fn test_parse_frontmatter_invalid_date_fails() {
    assert_eq!(Timestamp::parse("not-a-date"), None);
    let date = Timestamp::parse("not-a-date").map(DateField::Simple);
    let result = Parser::build_frontmatter(fields(Some("Test Post"), date));
    assert!(result.is_err(), "Should fail with invalid date format");
}

#[test]
fn frontmatter_defaults_and_required_fields() {
    let posted = Timestamp { secs: 1, nanos: 2 };
    let fm = Parser::build_frontmatter(fields(Some("T"), Some(DateField::Simple(posted)))).unwrap();
    assert!(fm.tags.is_empty());
    assert!(!fm.display_ad && !fm.hidden && fm.comments);
    assert_eq!(fm.date, PostDate { posted, modified: None });
    let mut given = fields(Some("T"), Some(DateField::Nested { posted: Some(posted), modified: None }));
    given.tags = Some(vec!["a".to_string()]);
    given.hidden = Some(true);
    given.comments = Some(false);
    given.display_ad = Some(true);
    given.cover_image = Some("./c.png".to_string());
    let fm = Parser::build_frontmatter(given).unwrap();
    assert_eq!(fm.tags, vec!["a"]);
    assert!(fm.display_ad && fm.hidden && !fm.comments);
    assert_eq!(fm.cover_image.as_deref(), Some("./c.png"));
    assert_eq!(
        Parser::build_frontmatter(fields(
            Some("T"),
            Some(DateField::Nested { posted: None, modified: Some(posted) })
        ))
        .err(),
        Some(ParseError::MissingDate)
    );
    assert_eq!(Parser::build_frontmatter(fields(None, None)).err(), Some(ParseError::MissingTitle));
    assert_eq!(
        Parser::normalize_date(Some(DateField::Simple(posted))),
        Some(PostDate { posted, modified: None })
    );
    let page = Parser::build_page_frontmatter(PageFrontmatterFields {
        title: Some("About".to_string()),
        description: None,
        hidden: None,
        comments: None,
    })
    .unwrap();
    assert!(!page.hidden && page.comments);
    assert_eq!(
        Parser::build_page_frontmatter(PageFrontmatterFields {
            title: None,
            description: Some("d".to_string()),
            hidden: Some(true),
            comments: None,
        })
        .err(),
        Some(ParseError::MissingTitle)
    );
    assert!(ParseError::MissingTitle.message().contains("title"));
    assert!(ParseError::MissingDate.message().contains("date"));
    assert!(ParseError::InvalidPath.message().contains("path"));
}
