//! The decisions of a build: which files are built, what a worker reports
//! of each, and how the reports are merged into the cache and the index
//! once all workers are done.

use crate::cache::{rebuild_needed, BuildCache, CacheEntryView};
use crate::metadata::{
    by_recency, first, ref_views, select, sort_by_recency, upserted, Listing, MetadataCache,
    PostMetadata, PostMetadataView, Selection,
};
use crate::renderer::{resolved_path, Renderer};
use crate::text::{chars_of, clone_opt, ends_with_str, has_suffix, opt_chars, owned, string_of};
use crate::image::{
    image_view, local_path, processed_image, processed_thumbnail, thumbnail_view, ImageCatalog,
    ImageMetadata, ImageMetadataView, ImageProcessor, ThumbnailMetadata, ThumbnailMetadataView,
};
use crate::navigation::{
    build_post_navigation, build_post_navigation_with_cdn, neighbours, opt_link,
    opt_link_view, opt_link_with_cdn, post_thumbnail, post_thumbnail_of, PostLinkView,
    PostNavigation,
};
use crate::sitemap::{
    lemma_sitemap_names_visible_posts, sitemap_entries, sitemap_xml, xml_escaped,
};
use crate::slug::url_encoded;
use crate::text::{contains, strip_trailing};
use crate::types::{Category, CategoryView, Frontmatter, FrontmatterView, Post};
use vstd::prelude::*;

verus! {

/// The number of related posts that a post shows at most.
pub const RELATED_POSTS_COUNT: usize = 4;

/// Why a file was not built.
#[derive(Debug, Clone, Copy, PartialEq, Eq, Structural)]
pub enum SkipReason {
    /// The cache knows the file with the same fingerprints.
    Cached,
    /// The post is hidden.
    Draft,
}

/// What a worker reports of one file.
#[derive(Debug)]
pub enum BuildResult {
    Success {
        path: String,
        slug: String,
        category: String,
        frontmatter: Frontmatter,
        file_hash: String,
        template_hash: String,
        output_path: String,
    },
    Skipped { path: String, reason: SkipReason },
    Error { path: String, error: String },
}

/// What a worker does next with a file.
#[derive(Debug, Clone, Copy, PartialEq, Eq, Structural)]
pub enum NextStep {
    Skip(SkipReason),
    Proceed,
}

/// What happens to a file before it is read: with the cache in use, a file
/// that needs no rebuild is skipped.
pub open spec fn step_before_parse(
    entries: Map<Seq<char>, CacheEntryView>,
    use_cache: bool,
    path: Seq<char>,
    file_hash: Seq<char>,
    template_hash: Seq<char>,
) -> NextStep {
    if use_cache && !rebuild_needed(entries, path, file_hash, template_hash) {
        NextStep::Skip(SkipReason::Cached)
    } else {
        NextStep::Proceed
    }
}

/// Decides whether a file is read at all.
pub fn before_parse(
    cache: &BuildCache,
    use_cache: bool,
    path: &str,
    file_hash: &str,
    template_hash: &str,
) -> (r: NextStep)
    ensures
        r == step_before_parse(cache@, use_cache, path@, file_hash@, template_hash@),
{
    if use_cache && !cache.needs_rebuild(path, file_hash, template_hash) {
        NextStep::Skip(SkipReason::Cached)
    } else {
        NextStep::Proceed
    }
}

/// Decides whether a post that was read is rendered: a hidden post is not.
pub fn after_parse(post: &Post) -> (r: NextStep)
    ensures
        r == if post.frontmatter.hidden {
            NextStep::Skip(SkipReason::Draft)
        } else {
            NextStep::Proceed
        },
{
    if post.frontmatter.hidden {
        NextStep::Skip(SkipReason::Draft)
    } else {
        NextStep::Proceed
    }
}

/// An image reference of a post, resolved against its category.
pub open spec fn resolved_image(image: Option<Seq<char>>, category: Seq<char>) -> Option<Seq<char>> {
    match image {
        Some(i) => Some(resolved_path(i, category)),
        None => None,
    }
}

fn resolve_image(image: &Option<String>, category: &str) -> (r: Option<String>)
    ensures
        opt_chars(r) == resolved_image(opt_chars(*image), category@),
{
    match image {
        Some(i) => Some(Renderer::resolve_path(i.as_str(), category)),
        None => None,
    }
}

/// Resolves the cover and the social image of a post against its category.
pub fn resolve_post_images(post: &mut Post)
    ensures
        final(post)@.frontmatter.cover_image == resolved_image(
            old(post)@.frontmatter.cover_image,
            old(post)@.category,
        ),
        final(post)@.frontmatter.og_image == resolved_image(
            old(post)@.frontmatter.og_image,
            old(post)@.category,
        ),
        final(post)@.slug == old(post)@.slug,
        final(post)@.category == old(post)@.category,
        final(post)@.content == old(post)@.content,
        final(post)@.rendered_html == old(post)@.rendered_html,
        final(post)@.frontmatter.title == old(post)@.frontmatter.title,
        final(post)@.frontmatter.date == old(post)@.frontmatter.date,
        final(post)@.frontmatter.tags == old(post)@.frontmatter.tags,
        final(post)@.frontmatter.description == old(post)@.frontmatter.description,
        final(post)@.frontmatter.hidden == old(post)@.frontmatter.hidden,
        final(post)@.frontmatter.display_ad == old(post)@.frontmatter.display_ad,
        final(post)@.frontmatter.comments == old(post)@.frontmatter.comments,
{
    let cover = resolve_image(&post.frontmatter.cover_image, post.category.as_str());
    let og = resolve_image(&post.frontmatter.og_image, post.category.as_str());
    post.frontmatter.cover_image = cover;
    post.frontmatter.og_image = og;
}

/// The image references of a post as its document writes them.
#[derive(Debug)]
pub struct OriginalImagePaths {
    pub cover_image: Option<String>,
    pub og_image: Option<String>,
}

impl OriginalImagePaths {
    /// Keeps the references of a post before they are resolved.
    pub fn of(post: &Post) -> (r: Self)
        ensures
            opt_chars(r.cover_image) == post@.frontmatter.cover_image,
            opt_chars(r.og_image) == post@.frontmatter.og_image,
    {
        OriginalImagePaths {
            cover_image: clone_opt(&post.frontmatter.cover_image),
            og_image: clone_opt(&post.frontmatter.og_image),
        }
    }
}

/// Whether a path names a Markdown document.
pub fn is_markdown_path(path: &str) -> (b: bool)
    ensures
        b == has_suffix(path@, ".md"@),
{
    ends_with_str(&chars_of(path), ".md")
}

/// The first pass of a build: a post that was read is put into the index,
/// with its images resolved, unless it is hidden.
pub fn index_post(metadata: &mut MetadataCache, post: Post)
    ensures
        final(metadata).post_views() == if post@.frontmatter.hidden {
            old(metadata).post_views()
        } else {
            upserted(
                old(metadata).post_views(),
                PostMetadataView {
                    slug: post@.slug,
                    category: post@.category,
                    frontmatter: FrontmatterView {
                        cover_image: resolved_image(post@.frontmatter.cover_image, post@.category),
                        og_image: resolved_image(post@.frontmatter.og_image, post@.category),
                        ..post@.frontmatter
                    },
                },
            )
        },
        post@.frontmatter.hidden ==> *final(metadata) == *old(metadata),
        !post@.frontmatter.hidden ==> final(metadata).counts_current(),
        final(metadata).version == old(metadata).version,
        final(metadata).category_info == old(metadata).category_info,
{
    if !post.frontmatter.hidden {
        let mut post = post;
        resolve_post_images(&mut post);
        metadata.upsert_post(post.slug, post.category, post.frontmatter);
    }
}

/// The posts that a post shows as related: the newest visible posts of its
/// category, itself aside.
pub fn related_posts<'a>(post: &Post, metadata: &'a MetadataCache) -> (r: Vec<&'a PostMetadata>)
    ensures
        ref_views(r@) == first(
            by_recency(
                select(metadata.post_views(), Selection::Related(post@.category, post@.slug)),
            ),
            RELATED_POSTS_COUNT as nat,
        ),
{
    let listed = metadata.list(&Listing::Related(post.category.as_str(), post.slug.as_str()));
    let mut sorted = sort_by_recency(&listed);
    if RELATED_POSTS_COUNT < sorted.len() {
        let ghost all = ref_views(sorted@);
        sorted.truncate(RELATED_POSTS_COUNT);
        assert(ref_views(sorted@) =~= all.take(RELATED_POSTS_COUNT as int));
    }
    sorted
}

/// What the template of a post is given besides the post.
#[derive(Debug)]
pub struct PostExtraData {
    /// What is known of the post's category.
    pub category_info: Option<Category>,
    /// The links to the neighbours in the post's category.
    pub navigation: PostNavigation,
    /// The variants of the cover, where a CDN is configured.
    pub cover_image_metadata: Option<ImageMetadata>,
    /// The thumbnail of the social image, where a CDN is configured.
    pub og_image_metadata: Option<ThumbnailMetadata>,
    /// The related posts, each with the thumbnail of its cover.
    pub related_posts: Vec<RelatedPost>,
}

/// A related post with the thumbnail of its cover.
#[derive(Debug)]
pub struct RelatedPost {
    pub post: PostMetadata,
    pub thumbnail_metadata: Option<ThumbnailMetadata>,
}

/// The index of the first category with the given slug.
pub open spec fn category_index(categories: Seq<Category>, slug: Seq<char>, from: int) -> Option<int>
    decreases categories.len() - from,
{
    if from < 0 || from >= categories.len() {
        None
    } else if categories[from].slug@ == slug {
        Some(from)
    } else {
        category_index(categories, slug, from + 1)
    }
}

fn find_category(metadata: &MetadataCache, slug: &str) -> (r: Option<Category>)
    ensures
        match r {
            Some(c) => category_index(metadata.category_info@, slug@, 0) is Some && c@
                == metadata.category_info@[category_index(metadata.category_info@, slug@, 0)->0]@,
            None => category_index(metadata.category_info@, slug@, 0) is None,
        },
{
    let mut i: usize = 0;
    while i < metadata.category_info.len()
        invariant
            i <= metadata.category_info.len(),
            category_index(metadata.category_info@, slug@, 0) == category_index(
                metadata.category_info@,
                slug@,
                i as int,
            ),
        decreases metadata.category_info.len() - i,
    {
        if crate::text::str_eq(metadata.category_info[i].slug.as_str(), slug) {
            return Some(metadata.category_info[i].clone());
        }
        i += 1;
    }
    None
}

/// The CDN as the image pipeline addresses it: without trailing slashes.
pub open spec fn cdn_of(cdn_url: Option<&str>) -> Option<Seq<char>> {
    match cdn_url {
        Some(url) => Some(strip_trailing(url@, '/')),
        None => None,
    }
}

/// The variants of a post's cover, as its document refers to it.
pub open spec fn cover_metadata(
    cdn: Option<Seq<char>>,
    paths: Option<&OriginalImagePaths>,
    category: Seq<char>,
    content_dir: Seq<char>,
    catalog: ImageCatalog,
) -> Option<ImageMetadataView> {
    match paths {
        Some(p) => match p.cover_image {
            Some(src) => processed_image(
                cdn,
                src@,
                catalog.size_of(local_path(src@, local_path(category, content_dir))),
                category,
            ),
            None => None,
        },
        None => None,
    }
}

/// The thumbnail of a post's social image, as its document refers to it.
pub open spec fn social_image_metadata(
    cdn: Option<Seq<char>>,
    paths: Option<&OriginalImagePaths>,
    category: Seq<char>,
    content_dir: Seq<char>,
    catalog: ImageCatalog,
) -> Option<ThumbnailMetadataView> {
    match paths {
        Some(p) => match p.og_image {
            Some(src) => processed_thumbnail(
                cdn,
                src@,
                catalog.has(local_path(src@, local_path(category, content_dir))),
                category,
            ),
            None => None,
        },
        None => None,
    }
}

/// The links to a post's neighbours in its category, with thumbnails where
/// a CDN is configured.
pub open spec fn post_navigation(
    posts: Seq<PostMetadataView>,
    slug: Seq<char>,
    category: Seq<char>,
    cdn: Option<Seq<char>>,
    content_dir: Seq<char>,
    catalog: ImageCatalog,
) -> (Option<PostLinkView>, Option<PostLinkView>) {
    let around = neighbours(posts, slug, category, true);
    if cdn is Some {
        (
            opt_link_with_cdn(around.0, cdn, content_dir, catalog),
            opt_link_with_cdn(around.1, cdn, content_dir, catalog),
        )
    } else {
        (opt_link(around.0), opt_link(around.1))
    }
}

/// A related post with the thumbnail of its cover, where a CDN is
/// configured.
pub open spec fn related_entry(
    p: PostMetadataView,
    cdn: Option<Seq<char>>,
    content_dir: Seq<char>,
    catalog: ImageCatalog,
) -> (PostMetadataView, Option<ThumbnailMetadataView>) {
    (
        p,
        if cdn is Some {
            post_thumbnail_of(p, cdn, content_dir, catalog)
        } else {
            None
        },
    )
}

/// What the template of a post is given besides the post: what is known of
/// its category, the links to its neighbours in the category, the related
/// posts, and, where a CDN is configured, the variants of its images.
/// `original_paths` holds the image references as the document writes them.
pub fn build_post_extra_data(
    post: &Post,
    metadata: &MetadataCache,
    cdn_url: Option<&str>,
    content_dir: &str,
    catalog: &ImageCatalog,
    original_paths: Option<&OriginalImagePaths>,
) -> (r: PostExtraData)
    ensures
        match r.category_info {
            Some(c) => category_index(metadata.category_info@, post.category@, 0) is Some && c@
                == metadata.category_info@[category_index(
                metadata.category_info@,
                post.category@,
                0,
            )->0]@,
            None => category_index(metadata.category_info@, post.category@, 0) is None,
        },
        (opt_link_view(r.navigation.prev), opt_link_view(r.navigation.next)) == post_navigation(
            metadata.post_views(),
            post.slug@,
            post.category@,
            cdn_of(cdn_url),
            content_dir@,
            *catalog,
        ),
        image_view(r.cover_image_metadata) == cover_metadata(
            cdn_of(cdn_url),
            original_paths,
            post.category@,
            content_dir@,
            *catalog,
        ),
        thumbnail_view(r.og_image_metadata) == social_image_metadata(
            cdn_of(cdn_url),
            original_paths,
            post.category@,
            content_dir@,
            *catalog,
        ),
        related_views(r.related_posts@) == first(
            by_recency(
                select(metadata.post_views(), Selection::Related(post@.category, post@.slug)),
            ),
            RELATED_POSTS_COUNT as nat,
        ).map_values(
            |p: PostMetadataView| related_entry(p, cdn_of(cdn_url), content_dir@, *catalog),
        ),
{
    let category_info = find_category(metadata, post.category.as_str());
    let processor = match cdn_url {
        Some(url) => Some(ImageProcessor::new(Some(owned(url)))),
        None => None,
    };
    let ghost cdn = cdn_of(cdn_url);
    assert(match processor {
        Some(p) => p.cdn() == cdn,
        None => cdn is None,
    });
    let navigation = match &processor {
        Some(p) => build_post_navigation_with_cdn(
            post.slug.as_str(),
            post.category.as_str(),
            metadata,
            true,
            p,
            content_dir,
            catalog,
        ),
        None => build_post_navigation(post.slug.as_str(), post.category.as_str(), metadata, true),
    };
    let mut cover_image_metadata: Option<ImageMetadata> = None;
    let mut og_image_metadata: Option<ThumbnailMetadata> = None;
    match (&processor, original_paths) {
        (Some(p), Some(paths)) => {
            let dir = p.resolve_local_path(post.category.as_str(), content_dir);
            match &paths.cover_image {
                Some(src) => {
                    cover_image_metadata = p.process_image_in(
                        src.as_str(),
                        dir.as_str(),
                        post.category.as_str(),
                        catalog,
                    );
                },
                None => {},
            }
            match &paths.og_image {
                Some(src) => {
                    og_image_metadata = p.process_thumbnail_in(
                        src.as_str(),
                        dir.as_str(),
                        post.category.as_str(),
                        catalog,
                    );
                },
                None => {},
            }
        },
        _ => {},
    }
    let related = related_posts(post, metadata);
    let mut related_with_thumbnails: Vec<RelatedPost> = Vec::new();
    let mut i: usize = 0;
    while i < related.len()
        invariant
            i <= related.len(),
            related_with_thumbnails.len() == i,
            match processor {
                Some(p) => p.cdn() == cdn && cdn is Some,
                None => cdn is None,
            },
            forall|j: int|
                0 <= j < i ==> (
                    related_with_thumbnails@[j].post@,
                    thumbnail_view(related_with_thumbnails@[j].thumbnail_metadata),
                ) == related_entry(related@[j]@, cdn, content_dir@, *catalog),
        decreases related.len() - i,
    {
        let thumbnail_metadata = match &processor {
            Some(p) => post_thumbnail(related[i], p, content_dir, catalog),
            None => None,
        };
        related_with_thumbnails.push(RelatedPost { post: related[i].clone(), thumbnail_metadata });
        i += 1;
    }
    assert(related_views(related_with_thumbnails@) =~= ref_views(related@).map_values(
        |p: PostMetadataView| related_entry(p, cdn, content_dir@, *catalog),
    ));
    PostExtraData {
        category_info,
        navigation,
        cover_image_metadata,
        og_image_metadata,
        related_posts: related_with_thumbnails,
    }
}

/// The related posts with their thumbnails.
pub open spec fn related_views(related: Seq<RelatedPost>) -> Seq<
    (PostMetadataView, Option<ThumbnailMetadataView>),
> {
    related.map_values(|r: RelatedPost| (r.post@, thumbnail_view(r.thumbnail_metadata)))
}

// ---------------------------------------------------------------------------
// Progress
// ---------------------------------------------------------------------------

/// How many files were built and skipped so far.
#[derive(Debug, Clone, Copy, PartialEq, Eq, Structural)]
pub struct BuildProgress {
    pub built: usize,
    pub skipped: usize,
}

impl BuildProgress {
    /// No file built or skipped yet.
    pub fn new() -> (r: Self)
        ensures
            r.built == 0,
            r.skipped == 0,
    {
        BuildProgress { built: 0, skipped: 0 }
    }

    /// Counts one more built file; the count stops at the largest number
    /// that the machine holds.
    pub fn increment_built(&mut self)
        ensures
            final(self).skipped == old(self).skipped,
            final(self).built == if old(self).built < usize::MAX {
                old(self).built + 1
            } else {
                old(self).built as int
            },
    {
        if self.built < usize::MAX {
            self.built = self.built + 1;
        }
    }

    /// Counts one more skipped file; the count stops at the largest number
    /// that the machine holds.
    pub fn increment_skipped(&mut self)
        ensures
            final(self).built == old(self).built,
            final(self).skipped == if old(self).skipped < usize::MAX {
                old(self).skipped + 1
            } else {
                old(self).skipped as int
            },
    {
        if self.skipped < usize::MAX {
            self.skipped = self.skipped + 1;
        }
    }

    /// Counts a worker's report: a success as built, a skip as skipped, an
    /// error as neither.
    pub fn record(&mut self, result: &BuildResult)
        ensures
            *final(self) == progress_after(*old(self), *result),
    {
        match result {
            BuildResult::Success { .. } => self.increment_built(),
            BuildResult::Skipped { .. } => self.increment_skipped(),
            BuildResult::Error { .. } => {},
        }
    }
}

/// A count after one more, up to the largest number that the machine holds.
pub open spec fn bump_count(n: usize) -> usize {
    if n < usize::MAX {
        (n + 1) as usize
    } else {
        n
    }
}

/// The progress after a worker's report is counted.
pub open spec fn progress_after(p: BuildProgress, result: BuildResult) -> BuildProgress {
    match result {
        BuildResult::Success { .. } => BuildProgress { built: bump_count(p.built), ..p },
        BuildResult::Skipped { .. } => BuildProgress { skipped: bump_count(p.skipped), ..p },
        BuildResult::Error { .. } => p,
    }
}

// ---------------------------------------------------------------------------
// Merging
// ---------------------------------------------------------------------------

/// The posts of the index after the first `n` reports are merged: every
/// success puts its post.
pub open spec fn merged_posts(posts: Seq<PostMetadataView>, results: Seq<BuildResult>, n: int) -> Seq<
    PostMetadataView,
>
    decreases n,
{
    if n <= 0 || n > results.len() {
        posts
    } else {
        let before = merged_posts(posts, results, n - 1);
        match results[n - 1] {
            BuildResult::Success { slug, category, frontmatter, .. } => upserted(
                before,
                PostMetadataView { slug: slug@, category: category@, frontmatter: frontmatter@ },
            ),
            _ => before,
        }
    }
}

/// The entries of the cache after the first `n` reports are merged: every
/// success records its build, finished at `built_at`.
pub open spec fn merged_entries(
    entries: Map<Seq<char>, CacheEntryView>,
    results: Seq<BuildResult>,
    built_at: Seq<char>,
    n: int,
) -> Map<Seq<char>, CacheEntryView>
    decreases n,
{
    if n <= 0 || n > results.len() {
        entries
    } else {
        let before = merged_entries(entries, results, built_at, n - 1);
        match results[n - 1] {
            BuildResult::Success { path, file_hash, template_hash, output_path, .. } => before.insert(
                path@,
                CacheEntryView {
                    file_hash: file_hash@,
                    template_hash: template_hash@,
                    output_path: output_path@,
                    built_at,
                },
            ),
            _ => before,
        }
    }
}

/// The failures among the first `n` reports: path and message, in order.
pub open spec fn failures(results: Seq<BuildResult>, n: int) -> Seq<(Seq<char>, Seq<char>)>
    decreases n,
{
    if n <= 0 || n > results.len() {
        Seq::empty()
    } else {
        match results[n - 1] {
            BuildResult::Error { path, error } => failures(results, n - 1).push((path@, error@)),
            _ => failures(results, n - 1),
        }
    }
}

/// The progress after the first `n` reports.
pub open spec fn progress(results: Seq<BuildResult>, n: int) -> BuildProgress
    decreases n,
{
    if n <= 0 || n > results.len() {
        BuildProgress { built: 0, skipped: 0 }
    } else {
        progress_after(progress(results, n - 1), results[n - 1])
    }
}

/// Whether one of the first `n` reports is a success.
pub open spec fn any_built(results: Seq<BuildResult>, n: int) -> bool
    decreases n,
{
    if n <= 0 || n > results.len() {
        false
    } else {
        results[n - 1] is Success || any_built(results, n - 1)
    }
}

/// How a build ended.
#[derive(Debug)]
pub struct BuildOutcome {
    pub built: usize,
    pub skipped: usize,
    /// The files that failed, each with its error.
    pub errors: Vec<(String, String)>,
}

impl BuildOutcome {
    /// The failures as path and message.
    pub open spec fn error_views(&self) -> Seq<(Seq<char>, Seq<char>)> {
        self.errors@.map_values(|e: (String, String)| (e.0@, e.1@))
    }

    /// Whether the build failed: it did when one file failed.
    pub fn failed(&self) -> (b: bool)
        ensures
            b == (self.errors@.len() > 0),
    {
        self.errors.len() > 0
    }

    /// The status with which the build command ends: zero only where no
    /// file failed.
    pub fn exit_code(&self) -> (code: i32)
        ensures
            code == 0 <==> self.errors@.len() == 0,
            code == 0 || code == 1,
    {
        if self.errors.len() > 0 {
            1
        } else {
            0
        }
    }

    /// The message with which a failed build ends.
    pub fn failure_message(&self) -> (r: String)
        ensures
            r@ == crate::text::decimal(self.errors@.len()) + " posts failed to build"@,
    {
        let mut out = crate::text::decimal_chars(self.errors.len() as u64);
        crate::text::append_str(&mut out, " posts failed to build");
        string_of(&out)
    }
}

/// Merges the workers' reports into the cache and the index, after all
/// workers are done: every success records its build and puts its post,
/// every failure is kept with its message, and nothing is recorded for a
/// file that failed or was skipped. The index counts its categories and
/// tags anew with every post that is put, and stays as it is where no
/// report is a success.
pub fn merge_results(
    cache: &mut BuildCache,
    metadata: &mut MetadataCache,
    results: &Vec<BuildResult>,
    built_at: &str,
) -> (r: BuildOutcome)
    ensures
        final(cache)@ == merged_entries(old(cache)@, results@, built_at@, results.len() as int),
        final(metadata).post_views() == merged_posts(
            old(metadata).post_views(),
            results@,
            results.len() as int,
        ),
        r.error_views() == failures(results@, results.len() as int),
        r.built == progress(results@, results.len() as int).built,
        r.skipped == progress(results@, results.len() as int).skipped,
        final(cache).version == old(cache).version,
        final(metadata).category_info == old(metadata).category_info,
        final(metadata).version == old(metadata).version,
        if any_built(results@, results.len() as int) {
            final(metadata).counts_current()
        } else {
            *final(metadata) == *old(metadata)
        },
        old(metadata).counts_current() ==> final(metadata).counts_current(),
{
    let mut outcome = BuildOutcome { built: 0, skipped: 0, errors: Vec::new() };
    let mut counted = BuildProgress::new();
    let mut i: usize = 0;
    assert(outcome.error_views() =~= Seq::<(Seq<char>, Seq<char>)>::empty());
    while i < results.len()
        invariant
            i <= results.len(),
            cache@ == merged_entries(old(cache)@, results@, built_at@, i as int),
            metadata.post_views() == merged_posts(old(metadata).post_views(), results@, i as int),
            outcome.error_views() == failures(results@, i as int),
            counted == progress(results@, i as int),
            cache.version == old(cache).version,
            metadata.category_info == old(metadata).category_info,
            metadata.version == old(metadata).version,
            if any_built(results@, i as int) {
                metadata.counts_current()
            } else {
                *metadata == *old(metadata)
            },
        decreases results.len() - i,
    {
        let ghost errors_before = outcome.error_views();
        counted.record(&results[i]);
        match &results[i] {
            BuildResult::Success {
                path,
                slug,
                category,
                frontmatter,
                file_hash,
                template_hash,
                output_path,
            } => {
                metadata.upsert_post(slug.clone(), category.clone(), frontmatter.clone());
                cache.record_build(
                    path.as_str(),
                    file_hash.clone(),
                    template_hash.clone(),
                    output_path.clone(),
                    owned(built_at),
                );
            },
            BuildResult::Skipped { .. } => {},
            BuildResult::Error { path, error } => {
                outcome.errors.push((path.clone(), error.clone()));
                assert(outcome.error_views() =~= errors_before.push((path@, error@)));
            },
        }
        i += 1;
    }
    outcome.built = counted.built;
    outcome.skipped = counted.skipped;
    outcome
}

/// No entry is written for a file that no report builds: what the cache
/// holds of it stays as it was.
pub proof fn lemma_failed_files_stay_out(
    entries: Map<Seq<char>, CacheEntryView>,
    results: Seq<BuildResult>,
    built_at: Seq<char>,
    n: int,
    path: Seq<char>,
)
    requires
        0 <= n <= results.len(),
        forall|i: int|
            0 <= i < n ==> !(#[trigger] results[i] matches BuildResult::Success { path: p, .. }
                && p@ == path),
    ensures
        merged_entries(entries, results, built_at, n).dom().contains(path)
            == entries.dom().contains(path),
        entries.dom().contains(path) ==> merged_entries(entries, results, built_at, n)[path]
            == entries[path],
    decreases n,
{
    if n > 0 {
        lemma_failed_files_stay_out(entries, results, built_at, n - 1, path);
        assert(!(results[n - 1] matches BuildResult::Success { path: p, .. } && p@ == path));
    }
}

/// A file that a report builds needs no rebuild afterwards, as long as its
/// fingerprints stay those of its last report.
pub proof fn lemma_built_files_are_skipped_next(
    entries: Map<Seq<char>, CacheEntryView>,
    results: Seq<BuildResult>,
    built_at: Seq<char>,
    n: int,
    last: int,
)
    requires
        0 <= last < n <= results.len(),
        results[last] is Success,
        forall|i: int|
            last < i < n ==> !(#[trigger] results[i] matches BuildResult::Success { path: p, .. }
                && p@ == results[last]->Success_path@),
    ensures
        step_before_parse(
            merged_entries(entries, results, built_at, n),
            true,
            results[last]->Success_path@,
            results[last]->Success_file_hash@,
            results[last]->Success_template_hash@,
        ) == NextStep::Skip(SkipReason::Cached),
    decreases n,
{
    if n - 1 > last {
        lemma_built_files_are_skipped_next(entries, results, built_at, n - 1, last);
        assert(!(results[n - 1] matches BuildResult::Success { path: p, .. } && p@
            == results[last]->Success_path@));
    }
}

/// The course of one visible post through two builds. Without the cache
/// in use it is read, whatever the cache holds. Once its report is merged,
/// the index holds the post, the sitemap that is written from that index
/// names the post's address, and a build with the cache in use skips the
/// file as long as its fingerprints stay those of the report.
pub proof fn lemma_built_post_is_published_then_skipped(
    entries: Map<Seq<char>, CacheEntryView>,
    posts: Seq<PostMetadataView>,
    report: BuildResult,
    built_at: Seq<char>,
    site: Seq<char>,
    per_page: nat,
    categories: Seq<CategoryView>,
    tags: Seq<Seq<char>>,
    pages: Seq<Seq<char>>,
)
    requires
        report is Success,
        !report->Success_frontmatter@.hidden,
    ensures
        step_before_parse(
            entries,
            false,
            report->Success_path@,
            report->Success_file_hash@,
            report->Success_template_hash@,
        ) == NextStep::Proceed,
        merged_posts(posts, seq![report], 1).contains(
            PostMetadataView {
                slug: report->Success_slug@,
                category: report->Success_category@,
                frontmatter: report->Success_frontmatter@,
            },
        ),
        contains(
            sitemap_xml(
                sitemap_entries(
                    site,
                    per_page,
                    merged_posts(posts, seq![report], 1),
                    categories,
                    tags,
                    pages,
                ),
            ),
            "<loc>"@ + xml_escaped(
                site + "/"@ + url_encoded(report->Success_category@) + "/"@ + url_encoded(
                    report->Success_slug@,
                ) + "/"@,
            ) + "</loc>"@,
        ),
        step_before_parse(
            merged_entries(entries, seq![report], built_at, 1),
            true,
            report->Success_path@,
            report->Success_file_hash@,
            report->Success_template_hash@,
        ) == NextStep::Skip(SkipReason::Cached),
{
    let results = seq![report];
    let p = PostMetadataView {
        slug: report->Success_slug@,
        category: report->Success_category@,
        frontmatter: report->Success_frontmatter@,
    };
    let index = merged_posts(posts, results, 1);
    assert(merged_posts(posts, results, 0) == posts);
    assert(index == upserted(posts, p));
    crate::metadata::lemma_key_index(posts, p.slug, p.category, 0);
    let i = match crate::metadata::key_index(posts, p.slug, p.category, 0) {
        Some(i) => i,
        None => posts.len() as int,
    };
    assert(index[i] == p);
    lemma_sitemap_names_visible_posts(site, per_page, index, categories, tags, pages, i);
    lemma_built_files_are_skipped_next(entries, results, built_at, 1, 0);
}

/// The reports with the two at `k` and behind it in the other order.
pub open spec fn exchanged(results: Seq<BuildResult>, k: int) -> Seq<BuildResult> {
    results.update(k, results[k + 1]).update(k + 1, results[k])
}

/// Whether two reports record builds of one file.
pub open spec fn same_file(a: BuildResult, b: BuildResult) -> bool {
    a is Success && b is Success && a->Success_path@ == b->Success_path@
}

proof fn lemma_merge_reads_first_reports(
    entries: Map<Seq<char>, CacheEntryView>,
    one: Seq<BuildResult>,
    other: Seq<BuildResult>,
    built_at: Seq<char>,
    n: int,
)
    requires
        0 <= n <= one.len(),
        n <= other.len(),
        forall|i: int| 0 <= i < n ==> one[i] == other[i],
    ensures
        merged_entries(entries, one, built_at, n) == merged_entries(entries, other, built_at, n),
        progress(one, n) == progress(other, n),
    decreases n,
{
    if n > 0 {
        lemma_merge_reads_first_reports(entries, one, other, built_at, n - 1);
        assert(one[n - 1] == other[n - 1]);
    }
}

/// The cache and the counts of a build do not depend on the order in which
/// two workers report, unless both report a build of the same file.
pub proof fn lemma_report_order_is_free(
    entries: Map<Seq<char>, CacheEntryView>,
    results: Seq<BuildResult>,
    built_at: Seq<char>,
    k: int,
    n: int,
)
    requires
        0 <= k,
        k + 1 < n <= results.len(),
        !same_file(results[k], results[k + 1]),
    ensures
        merged_entries(entries, exchanged(results, k), built_at, n) == merged_entries(
            entries,
            results,
            built_at,
            n,
        ),
        progress(exchanged(results, k), n) == progress(results, n),
    decreases n,
{
    let other = exchanged(results, k);
    if n == k + 2 {
        lemma_merge_reads_first_reports(entries, other, results, built_at, k);
        let start = merged_entries(entries, results, built_at, k);
        assert(merged_entries(entries, other, built_at, k) == start);
        assert(other[k] == results[k + 1]);
        assert(other[k + 1] == results[k]);
        let first = merged_entries(entries, results, built_at, k + 1);
        let second = merged_entries(entries, other, built_at, k + 1);
        assert(first == match results[k] {
            BuildResult::Success { path, file_hash, template_hash, output_path, .. } => start.insert(
                path@,
                CacheEntryView {
                    file_hash: file_hash@,
                    template_hash: template_hash@,
                    output_path: output_path@,
                    built_at,
                },
            ),
            _ => start,
        });
        assert(second == match results[k + 1] {
            BuildResult::Success { path, file_hash, template_hash, output_path, .. } => start.insert(
                path@,
                CacheEntryView {
                    file_hash: file_hash@,
                    template_hash: template_hash@,
                    output_path: output_path@,
                    built_at,
                },
            ),
            _ => start,
        });
        assert(merged_entries(entries, other, built_at, n) =~= merged_entries(
            entries,
            results,
            built_at,
            n,
        ));
        let p = progress(results, k);
        assert(progress(other, k) == p);
        assert(progress(results, k + 1) == progress_after(p, results[k]));
        assert(progress(other, k + 1) == progress_after(p, results[k + 1]));
    } else {
        lemma_report_order_is_free(entries, results, built_at, k, n - 1);
        assert(other[n - 1] == results[n - 1]);
    }
}

} // verus!
