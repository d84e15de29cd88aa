//! The links from a post to its neighbours.

use crate::image::{
    local_path, processed_thumbnail, thumbnail_view, ImageCatalog, ImageProcessor,
    ThumbnailMetadata, ThumbnailMetadataView,
};
use crate::metadata::{
    by_recency, post_views, ref_views, select, sort_by_recency, Listing, MetadataCache,
    PostMetadata, PostMetadataView, Selection,
};
use crate::slug::{encode_for_url, url_encoded};
use crate::text::{
    append, append_str, chars_of, clone_opt, has_prefix, opt_chars, slice, starts_with, str_eq,
    string_of, strip_leading, strip_leading_char,
};
use vstd::prelude::*;

verus! {

/// A link to a post.
#[derive(Debug)]
pub struct PostLink {
    pub slug: String,
    pub title: String,
    pub url: String,
    pub category: String,
    pub cover_image: Option<String>,
    pub thumbnail_metadata: Option<ThumbnailMetadata>,
}

/// The older and the newer neighbour of a post.
#[derive(Debug)]
pub struct PostNavigation {
    pub prev: Option<PostLink>,
    pub next: Option<PostLink>,
}

pub struct PostLinkView {
    pub slug: Seq<char>,
    pub title: Seq<char>,
    pub url: Seq<char>,
    pub category: Seq<char>,
    pub cover_image: Option<Seq<char>>,
    pub thumbnail: Option<ThumbnailMetadataView>,
}

impl View for PostLink {
    type V = PostLinkView;

    open spec fn view(&self) -> PostLinkView {
        PostLinkView {
            slug: self.slug@,
            title: self.title@,
            url: self.url@,
            category: self.category@,
            cover_image: opt_chars(self.cover_image),
            thumbnail: thumbnail_view(self.thumbnail_metadata),
        }
    }
}

/// The address of a post: `/{category}/{slug}/`, both encoded.
pub open spec fn post_url(category: Seq<char>, slug: Seq<char>) -> Seq<char> {
    "/"@ + url_encoded(category) + "/"@ + url_encoded(slug) + "/"@
}

/// The image that stands for a post: its cover, or else its social image.
pub open spec fn cover_of(p: PostMetadataView) -> Option<Seq<char>> {
    match p.frontmatter.cover_image {
        Some(c) => Some(c),
        None => p.frontmatter.og_image,
    }
}

/// The link to a post, without thumbnail.
pub open spec fn post_link(p: PostMetadataView) -> PostLinkView {
    PostLinkView {
        slug: p.slug,
        title: p.frontmatter.title,
        url: post_url(p.category, p.slug),
        category: p.category,
        cover_image: cover_of(p),
        thumbnail: None,
    }
}

/// The thumbnail that stands for a post: that of its cover as its document
/// would write it, where the post has a cover that the image pipeline
/// takes and that exists among the documents of its category.
pub open spec fn post_thumbnail_of(
    p: PostMetadataView,
    cdn: Option<Seq<char>>,
    content_dir: Seq<char>,
    catalog: ImageCatalog,
) -> Option<ThumbnailMetadataView> {
    match cover_of(p) {
        None => None,
        Some(src) => {
            let rel = relative_cover(src, p.category);
            processed_thumbnail(
                cdn,
                rel,
                catalog.has(local_path(rel, category_dir(content_dir, p.category))),
                p.category,
            )
        },
    }
}

/// The link to a post, with the thumbnail of its cover where it has one.
pub open spec fn post_link_with_cdn(
    p: PostMetadataView,
    cdn: Option<Seq<char>>,
    content_dir: Seq<char>,
    catalog: ImageCatalog,
) -> PostLinkView {
    PostLinkView { thumbnail: post_thumbnail_of(p, cdn, content_dir, catalog), ..post_link(p) }
}

/// The reference to a post's cover as its document would write it. A cover
/// that was resolved to a site-absolute path is turned back: the category
/// in front of it becomes `.`.
pub open spec fn relative_cover(src: Seq<char>, category: Seq<char>) -> Seq<char> {
    if has_prefix(src, "/"@) {
        let rest = strip_leading(src, '/');
        if has_prefix(rest, category) {
            "."@ + rest.skip(category.len() as int)
        } else {
            "./"@ + rest
        }
    } else {
        src
    }
}

/// The index of the first post with the given slug.
pub open spec fn slug_index(posts: Seq<PostMetadataView>, slug: Seq<char>, from: int) -> Option<
    int,
>
    decreases posts.len() - from,
{
    if from < 0 || from >= posts.len() {
        None
    } else if posts[from].slug == slug {
        Some(from)
    } else {
        slug_index(posts, slug, from + 1)
    }
}

/// The posts among which a post has neighbours, the newest first: the
/// visible posts of its category, or all visible posts.
pub open spec fn neighbourhood(
    posts: Seq<PostMetadataView>,
    category: Seq<char>,
    same_category: bool,
) -> Seq<PostMetadataView> {
    by_recency(
        select(
            posts,
            if same_category {
                Selection::Category(category)
            } else {
                Selection::Visible
            },
        ),
    )
}

/// The older and the newer neighbour of the post with the given slug; none
/// where the post is not in its neighbourhood.
pub open spec fn neighbours(
    posts: Seq<PostMetadataView>,
    slug: Seq<char>,
    category: Seq<char>,
    same_category: bool,
) -> (Option<PostMetadataView>, Option<PostMetadataView>) {
    let around = neighbourhood(posts, category, same_category);
    match slug_index(around, slug, 0) {
        None => (None, None),
        Some(i) => (
            if 0 <= i + 1 < around.len() {
                Some(around[i + 1])
            } else {
                None
            },
            if 0 < i <= around.len() {
                Some(around[i - 1])
            } else {
                None
            },
        ),
    }
}

/// The link to a post, where there is one.
pub open spec fn opt_link(p: Option<PostMetadataView>) -> Option<PostLinkView> {
    match p {
        Some(p) => Some(post_link(p)),
        None => None,
    }
}

/// The link with thumbnail to a post, where there is one.
pub open spec fn opt_link_with_cdn(
    p: Option<PostMetadataView>,
    cdn: Option<Seq<char>>,
    content_dir: Seq<char>,
    catalog: ImageCatalog,
) -> Option<PostLinkView> {
    match p {
        Some(p) => Some(post_link_with_cdn(p, cdn, content_dir, catalog)),
        None => None,
    }
}

/// The view of a link, where there is one.
pub open spec fn opt_link_view(l: Option<PostLink>) -> Option<PostLinkView> {
    match l {
        Some(l) => Some(l@),
        None => None,
    }
}

/// The link to a post, without thumbnail.
pub fn create_post_link(post: &PostMetadata) -> (r: PostLink)
    ensures
        r@ == post_link(post@),
{
    let mut url = chars_of("/");
    append_str(&mut url, encode_for_url(post.category.as_str()).as_str());
    append_str(&mut url, "/");
    append_str(&mut url, encode_for_url(post.slug.as_str()).as_str());
    append_str(&mut url, "/");
    let cover = match &post.frontmatter.cover_image {
        Some(c) => Some(c.clone()),
        None => clone_opt(&post.frontmatter.og_image),
    };
    PostLink {
        slug: post.slug.clone(),
        title: post.frontmatter.title.clone(),
        url: string_of(&url),
        category: post.category.clone(),
        cover_image: cover,
        thumbnail_metadata: None,
    }
}

/// The reference to a post's cover as its document would write it.
pub fn relative_cover_source(src: &str, category: &str) -> (r: String)
    ensures
        r@ == relative_cover(src@, category@),
{
    let s = chars_of(src);
    if crate::text::starts_with_str(&s, "/") {
        let rest = strip_leading_char(&s, '/');
        let cat = chars_of(category);
        if starts_with(&rest, &cat) {
            let mut r = chars_of(".");
            let tail = slice(&rest, cat.len(), rest.len());
            assert(tail@ =~= rest@.skip(cat.len() as int));
            append(&mut r, &tail);
            string_of(&r)
        } else {
            let mut r = chars_of("./");
            append(&mut r, &rest);
            string_of(&r)
        }
    } else {
        string_of(&s)
    }
}

/// The directory of the documents of a category.
pub open spec fn category_dir(content_dir: Seq<char>, category: Seq<char>) -> Seq<char> {
    local_path(category, content_dir)
}

/// The thumbnail of a post's cover.
pub fn post_thumbnail(
    post: &PostMetadata,
    image_processor: &ImageProcessor,
    content_dir: &str,
    catalog: &ImageCatalog,
) -> (r: Option<ThumbnailMetadata>)
    ensures
        thumbnail_view(r) == post_thumbnail_of(
            post@,
            image_processor.cdn(),
            content_dir@,
            *catalog,
        ),
{
    let cover = match &post.frontmatter.cover_image {
        Some(c) => Some(c),
        None => match &post.frontmatter.og_image {
            Some(c) => Some(c),
            None => None,
        },
    };
    match cover {
        None => None,
        Some(src) => {
            let rel = relative_cover_source(src.as_str(), post.category.as_str());
            let dir = image_processor.resolve_local_path(post.category.as_str(), content_dir);
            image_processor.process_thumbnail_in(
                rel.as_str(),
                dir.as_str(),
                post.category.as_str(),
                catalog,
            )
        },
    }
}

/// The link to a post, with the thumbnail of its cover where it has one.
pub fn create_post_link_with_cdn(
    post: &PostMetadata,
    image_processor: &ImageProcessor,
    content_dir: &str,
    catalog: &ImageCatalog,
) -> (r: PostLink)
    ensures
        r@ == post_link_with_cdn(post@, image_processor.cdn(), content_dir@, *catalog),
{
    let mut link = create_post_link(post);
    link.thumbnail_metadata = post_thumbnail(post, image_processor, content_dir, catalog);
    link
}

/// The older and the newer neighbour of a post in the index.
pub fn find_neighbours<'a>(
    current_slug: &str,
    current_category: &str,
    metadata: &'a MetadataCache,
    same_category: bool,
) -> (r: (Option<&'a PostMetadata>, Option<&'a PostMetadata>))
    ensures
        (
            match r.0 {
                Some(p) => Some(p@),
                None => None,
            },
            match r.1 {
                Some(p) => Some(p@),
                None => None,
            },
        ) == neighbours(metadata.post_views(), current_slug@, current_category@, same_category),
{
    let listed = if same_category {
        metadata.list(&Listing::Category(current_category))
    } else {
        metadata.list(&Listing::Visible)
    };
    let around = sort_by_recency(&listed);
    let ghost all = ref_views(around@);
    assert(all == neighbourhood(metadata.post_views(), current_category@, same_category));
    let mut i: usize = 0;
    while i < around.len()
        invariant
            i <= around.len(),
            all == ref_views(around@),
            all == neighbourhood(metadata.post_views(), current_category@, same_category),
            slug_index(all, current_slug@, 0) == slug_index(all, current_slug@, i as int),
        decreases around.len() - i,
    {
        assert(all[i as int] == around@[i as int]@);
        if str_eq(around[i].slug.as_str(), current_slug) {
            let prev = if i + 1 < around.len() {
                assert(all[i + 1] == around@[i + 1]@);
                Some(around[i + 1])
            } else {
                None
            };
            let next = if i > 0 {
                assert(all[i - 1] == around@[i - 1]@);
                Some(around[i - 1])
            } else {
                None
            };
            return (prev, next);
        }
        i += 1;
    }
    (None, None)
}

/// The links from a post to its neighbours, without thumbnails.
pub fn build_post_navigation(
    current_slug: &str,
    current_category: &str,
    metadata: &MetadataCache,
    same_category: bool,
) -> (r: PostNavigation)
    ensures
        opt_link_view(r.prev) == opt_link(
            neighbours(metadata.post_views(), current_slug@, current_category@, same_category).0,
        ),
        opt_link_view(r.next) == opt_link(
            neighbours(metadata.post_views(), current_slug@, current_category@, same_category).1,
        ),
{
    let (older, newer) = find_neighbours(current_slug, current_category, metadata, same_category);
    let prev = match older {
        Some(p) => Some(create_post_link(p)),
        None => None,
    };
    let next = match newer {
        Some(p) => Some(create_post_link(p)),
        None => None,
    };
    PostNavigation { prev, next }
}

/// The links from a post to its neighbours, with the thumbnails of their
/// covers.
pub fn build_post_navigation_with_cdn(
    current_slug: &str,
    current_category: &str,
    metadata: &MetadataCache,
    same_category: bool,
    image_processor: &ImageProcessor,
    content_dir: &str,
    catalog: &ImageCatalog,
) -> (r: PostNavigation)
    ensures
        opt_link_view(r.prev) == opt_link_with_cdn(
            neighbours(metadata.post_views(), current_slug@, current_category@, same_category).0,
            image_processor.cdn(),
            content_dir@,
            *catalog,
        ),
        opt_link_view(r.next) == opt_link_with_cdn(
            neighbours(metadata.post_views(), current_slug@, current_category@, same_category).1,
            image_processor.cdn(),
            content_dir@,
            *catalog,
        ),
{
    let (older, newer) = find_neighbours(current_slug, current_category, metadata, same_category);
    let prev = match older {
        Some(p) => Some(create_post_link_with_cdn(p, image_processor, content_dir, catalog)),
        None => None,
    };
    let next = match newer {
        Some(p) => Some(create_post_link_with_cdn(p, image_processor, content_dir, catalog)),
        None => None,
    };
    PostNavigation { prev, next }
}

/// A post's neighbours are visible posts of the index.
pub proof fn lemma_neighbours_are_visible(
    posts: Seq<PostMetadataView>,
    slug: Seq<char>,
    category: Seq<char>,
    same_category: bool,
)
    ensures
        neighbours(posts, slug, category, same_category).0 matches Some(p) ==> posts.contains(p)
            && !p.frontmatter.hidden,
        neighbours(posts, slug, category, same_category).1 matches Some(p) ==> posts.contains(p)
            && !p.frontmatter.hidden,
{
    let which = if same_category {
        Selection::Category(category)
    } else {
        Selection::Visible
    };
    let around = neighbourhood(posts, category, same_category);
    crate::metadata::lemma_select_members(posts, which);
    crate::metadata::lemma_by_recency(select(posts, which));
    match neighbours(posts, slug, category, same_category).0 {
        Some(p) => {
            assert(around.contains(p));
            assert(select(posts, which).contains(p));
        },
        None => {},
    }
    match neighbours(posts, slug, category, same_category).1 {
        Some(p) => {
            assert(around.contains(p));
            assert(select(posts, which).contains(p));
        },
        None => {},
    }
}

} // verus!
