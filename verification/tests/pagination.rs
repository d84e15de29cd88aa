use ssg::pagination::{build_pagination_context, page_bounds, total_pages, window_bounds};

#[test]
fn page_counts() {
    assert_eq!(total_pages(0, 5), 1);
    assert_eq!(total_pages(1, 5), 1);
    assert_eq!(total_pages(5, 5), 1);
    assert_eq!(total_pages(6, 5), 2);
    assert_eq!(total_pages(12, 5), 3);
    assert_eq!(total_pages(12, 0), 1);
    assert_eq!(total_pages(usize::MAX, 1), usize::MAX);
}

#[test]
fn page_bounds_cover_the_listing() {
    assert_eq!(page_bounds(12, 5, 1), (0, 5));
    assert_eq!(page_bounds(12, 5, 2), (5, 10));
    assert_eq!(page_bounds(12, 5, 3), (10, 12));
    assert_eq!(page_bounds(12, 5, 4), (12, 12));
    assert_eq!(page_bounds(10, 5, 2), (5, 10));
    assert_eq!(page_bounds(10, 5, 3), (10, 10));
    assert_eq!(page_bounds(0, 5, 1), (0, 0));
    assert_eq!(page_bounds(3, 0, 1), (0, 0));
    assert_eq!(page_bounds(3, 5, 0), (0, 0));
    assert_eq!(page_bounds(usize::MAX, usize::MAX, 2), (usize::MAX, usize::MAX));
}

#[test]
fn window_moves_with_the_current_page() {
    assert_eq!(window_bounds(1, 3, 5), (1, 3));
    assert_eq!(window_bounds(1, 10, 5), (1, 5));
    assert_eq!(window_bounds(3, 10, 5), (1, 5));
    assert_eq!(window_bounds(4, 10, 5), (2, 6));
    assert_eq!(window_bounds(8, 10, 5), (6, 10));
    assert_eq!(window_bounds(10, 10, 5), (6, 10));
    assert_eq!(window_bounds(5, 10, 4), (3, 7));
    assert_eq!(window_bounds(5, 10, 0), (1, 0));
}

#[test]
fn pagination_in_the_middle() {
    let p = build_pagination_context(5, 95, 10, 5, "/dev/");
    assert_eq!(p.current_page, 5);
    assert_eq!(p.total_pages, 10);
    assert_eq!(p.total_posts, 95);
    assert_eq!(p.posts_per_page, 10);
    assert_eq!(p.first_url, "/dev/");
    assert_eq!(p.last_url, "/dev/page/10");
    let pages: Vec<(usize, &str, bool)> =
        p.pages.iter().map(|l| (l.number, l.url.as_str(), l.is_current)).collect();
    assert_eq!(
        pages,
        vec![
            (3, "/dev/page/3", false),
            (4, "/dev/page/4", false),
            (5, "/dev/page/5", true),
            (6, "/dev/page/6", false),
            (7, "/dev/page/7", false)
        ]
    );
    assert_eq!(p.jump_prev_url.as_deref(), Some("/dev/page/2"));
    assert_eq!(p.jump_next_url.as_deref(), Some("/dev/page/8"));
    assert_eq!(p.prev_url.as_deref(), Some("/dev/page/2"));
    assert_eq!(p.next_url.as_deref(), Some("/dev/page/8"));
    assert!(p.has_prev && p.has_next);
}

#[test]
fn pagination_at_the_ends() {
    let p = build_pagination_context(1, 12, 5, 5, "/tag/x/");
    assert_eq!(p.total_pages, 3);
    assert_eq!(p.pages.len(), 3);
    assert_eq!(p.pages[0].url, "/tag/x/");
    assert!(p.pages[0].is_current);
    assert_eq!(p.prev_url, None);
    assert_eq!(p.next_url.as_deref(), Some("/tag/x/page/2"));
    assert_eq!(p.jump_prev_url, None);
    assert_eq!(p.jump_next_url, None);
    assert!(!p.has_prev && p.has_next);
    let p = build_pagination_context(2, 12, 5, 5, "/tag/x/");
    assert_eq!(p.prev_url.as_deref(), Some("/tag/x/"));
    let p = build_pagination_context(3, 12, 5, 5, "/tag/x/");
    assert_eq!(p.next_url, None);
    assert_eq!(p.prev_url.as_deref(), Some("/tag/x/page/2"));
    assert_eq!(p.last_url, "/tag/x/page/3");
    let p = build_pagination_context(5, 100, 10, 5, "/b/");
    assert_eq!(p.jump_prev_url.as_deref(), Some("/b/page/2"));
    let p = build_pagination_context(4, 100, 10, 5, "/b/");
    assert_eq!(p.jump_prev_url.as_deref(), Some("/b/"));
    let p = build_pagination_context(1, 0, 10, 5, "/b/");
    assert_eq!(p.total_pages, 1);
    assert_eq!(p.last_url, "/b/");
    assert_eq!(p.pages.len(), 1);
}
