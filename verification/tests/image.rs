use ssg::image::{retained_sizes, ImageCatalog, ImageProcessor};

#[test]
fn test_parse_image_path() {
    let processor = ImageProcessor::new(Some("https://cdn.example.com".to_string()));

    let (path, ext) = processor.parse_image_path("./images/photo.jpg");
    assert_eq!(path, "images/photo");
    assert_eq!(ext, "jpg");

    let (path, ext) = processor.parse_image_path("images/photo.png");
    assert_eq!(path, "images/photo");
    assert_eq!(ext, "png");
}

#[test]
fn test_build_cdn_url() {
    let processor = ImageProcessor::new(Some("https://cdn.example.com".to_string()));

    let url = processor.build_cdn_url(
        "https://cdn.example.com",
        "dev",
        "my-post/images/photo",
        Some(480),
        "jpg",
        false,
    );
    assert_eq!(
        url,
        "https://cdn.example.com/images/dev/my-post/images/photo.w480.jpg"
    );

    let url = processor.build_cdn_url(
        "https://cdn.example.com",
        "dev",
        "my-post/photo",
        None,
        "png",
        false,
    );
    assert_eq!(url, "https://cdn.example.com/images/dev/my-post/photo.png");

    let url = processor.build_cdn_url(
        "https://cdn.example.com",
        "dev",
        "my-post/photo",
        Some(600),
        "png",
        true,
    );
    assert_eq!(
        url,
        "https://cdn.example.com/images/dev/my-post/photo.w600.png.webp"
    );
}

#[test]
fn test_generate_sources() {
    let processor = ImageProcessor::new(Some("https://cdn.example.com".to_string()));

    let sources = processor.generate_sources(
        "https://cdn.example.com",
        "dev",
        "post/photo",
        "jpg",
        &vec![480, 600],
        false,
    );

    assert_eq!(sources.len(), 3); // 2 sizes + 1 fallback
    assert_eq!(sources[0].width, 480);
    assert!(sources[0].url.contains(".w480."));
    assert_eq!(sources[1].width, 600);
    assert!(sources[1].url.contains(".w600."));
    assert_eq!(sources[2].width, u32::MAX); // fallback
    assert!(!sources[2].url.contains(".w")); // no size suffix
}

#[test]
fn test_skip_external_images() {
    let processor = ImageProcessor::new(Some("https://cdn.example.com".to_string()));

    let result = processor.process_image("https://example.com/image.jpg", Some((800, 600)), "dev");
    assert!(result.is_none());
}

#[test]
fn test_skip_without_cdn() {
    let processor = ImageProcessor::new(None);

    let result = processor.process_image("./test/image.jpg", Some((800, 600)), "dev");
    assert!(result.is_none());
}

#[test]
fn breakpoints_above_the_width_are_dropped() {
    assert_eq!(retained_sizes(0), Vec::<u32>::new());
    assert_eq!(retained_sizes(479), Vec::<u32>::new());
    assert_eq!(retained_sizes(480), vec![480]);
    assert_eq!(retained_sizes(860), vec![480, 600, 860]);
    assert_eq!(retained_sizes(5000), vec![480, 600, 860, 1180]);
}

#[test]
fn image_metadata_lists_variants_and_placeholder() {
    let processor = ImageProcessor::new(Some("https://cdn.example.com//".to_string()));
    let m = processor.process_image("./my-post/photo.jpg", Some((700, 500)), "dev").unwrap();
    assert_eq!(m.width, 700);
    assert_eq!(m.height, 500);
    assert_eq!(m.src, "https://cdn.example.com/images/dev/my-post/photo.jpg");
    assert_eq!(m.lqip, "https://cdn.example.com/images/dev/my-post/photo.w10.jpg");
    let widths: Vec<u32> = m.sources.iter().map(|s| s.width).collect();
    assert_eq!(widths, vec![480, 600, u32::MAX]);
    assert_eq!(
        m.webp_sources[1].url,
        "https://cdn.example.com/images/dev/my-post/photo.w600.jpg.webp"
    );
    assert_eq!(
        m.webp_sources[2].url,
        "https://cdn.example.com/images/dev/my-post/photo.jpg.webp"
    );
    assert!(processor.process_image("./my-post/photo.jpg", None, "dev").is_none());
    assert!(processor.process_image("//cdn/x.jpg", Some((1, 1)), "dev").is_none());
}

#[test]
fn thumbnail_has_fixed_width() {
    let processor = ImageProcessor::new(Some("https://cdn.example.com".to_string()));
    let t = processor.process_thumbnail("./p/cover", true, "dev").unwrap();
    assert_eq!(t.src, "https://cdn.example.com/images/dev/p/cover.w500.jpg");
    assert_eq!(t.webp_src, "https://cdn.example.com/images/dev/p/cover.w500.jpg.webp");
    assert!(processor.process_thumbnail("./p/cover.png", false, "dev").is_none());
    assert!(processor.process_thumbnail("http://x/cover.png", true, "dev").is_none());
}

#[test]
fn catalog_answers_by_local_path() {
    let processor = ImageProcessor::new(Some("https://cdn.example.com".to_string()));
    let mut catalog = ImageCatalog::new();
    catalog.add("content/posts/dev/p/a.png".to_string(), Some((1200, 800)));
    catalog.add("content/posts/dev/p/broken.png".to_string(), None);
    assert_eq!(
        processor.resolve_local_path("././p/a.png", "content/posts/dev"),
        "content/posts/dev/p/a.png"
    );
    assert_eq!(processor.resolve_local_path("p/a.png", "content/posts/dev/"), "content/posts/dev/p/a.png");
    assert_eq!(processor.resolve_local_path("/abs/a.png", "content"), "/abs/a.png");
    let m = processor
        .process_image_in("./p/a.png", "content/posts/dev", "dev", &catalog)
        .unwrap();
    assert_eq!(m.sources.len(), 5);
    assert!(processor
        .process_image_in("./p/broken.png", "content/posts/dev", "dev", &catalog)
        .is_none());
    assert!(processor
        .process_thumbnail_in("./p/broken.png", "content/posts/dev", "dev", &catalog)
        .is_some());
    assert!(processor
        .process_thumbnail_in("./p/none.png", "content/posts/dev", "dev", &catalog)
        .is_none());
}
