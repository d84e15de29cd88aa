//! The listings of a site: the homepage, the pages of every category and
//! tag, and the overview of the tags.

use crate::metadata::{
    by_recency, Count, count_views, first, lemma_by_recency, lemma_listing_shows_no_hidden,
    lemma_select_members, MetadataCache, post_views, PostMetadata, PostMetadataView, ref_views,
    select, selects, Selection, sort_by_recency,
};
use crate::config::SsgConfig;
use crate::generator::{listing_file, listing_path, maybe_encode, output_name};
use crate::pagination::{
    build_pagination_context, page_bounds, page_count, page_range, total_pages,
    PaginationContext,
};
use crate::text::{
    append_str, chars_of, lemma_insert_members, lemma_last_members, str_eq, string_of,
};
use crate::types::{category_views, Category, CategoryView};
use vstd::prelude::*;

verus! {

/// The views of the categories that the references point to.
pub open spec fn category_ref_views(cs: Seq<&Category>) -> Seq<CategoryView> {
    cs.map_values(|c: &Category| c@)
}

/// The categories among the first `n` that are not hidden, in order.
pub open spec fn shown_categories(cs: Seq<CategoryView>, n: int) -> Seq<CategoryView>
    decreases n,
{
    if n <= 0 || n > cs.len() {
        Seq::empty()
    } else if cs[n - 1].hidden {
        shown_categories(cs, n - 1)
    } else {
        shown_categories(cs, n - 1).push(cs[n - 1])
    }
}

/// Where `c` goes into a list that is ordered by index: behind every
/// category whose index is not above its own.
pub open spec fn index_position(sorted: Seq<CategoryView>, c: CategoryView) -> int
    decreases sorted.len(),
{
    if sorted.len() == 0 {
        0
    } else if c.index < sorted.last().index {
        index_position(sorted.drop_last(), c)
    } else {
        sorted.len() as int
    }
}

/// The categories ordered by index; those of one index keep their order.
pub open spec fn by_index(cs: Seq<CategoryView>) -> Seq<CategoryView>
    decreases cs.len(),
{
    if cs.len() == 0 {
        Seq::empty()
    } else {
        let sorted = by_index(cs.drop_last());
        sorted.insert(index_position(sorted, cs.last()), cs.last())
    }
}

proof fn lemma_index_position(sorted: Seq<CategoryView>, c: CategoryView)
    ensures
        0 <= index_position(sorted, c) <= sorted.len(),
        forall|j: int| index_position(sorted, c) <= j < sorted.len() ==> c.index < sorted[j].index,
        index_position(sorted, c) > 0 ==> sorted[index_position(sorted, c) - 1].index <= c.index,
    decreases sorted.len(),
{
    if sorted.len() > 0 && c.index < sorted.last().index {
        let init = sorted.drop_last();
        lemma_index_position(init, c);
        assert forall|j: int| index_position(sorted, c) <= j < sorted.len() implies c.index
            < sorted[j].index by {
            if j < init.len() {
                assert(sorted[j] == init[j]);
            }
        }
        if index_position(sorted, c) > 0 {
            assert(sorted[index_position(sorted, c) - 1] == init[index_position(init, c) - 1]);
        }
    }
}

/// Ordering by index keeps every category, adds none, and puts no category
/// behind one of a higher index.
pub proof fn lemma_by_index(cs: Seq<CategoryView>)
    ensures
        by_index(cs).len() == cs.len(),
        forall|i: int, j: int|
            0 <= i < j < by_index(cs).len() ==> by_index(cs)[i].index <= by_index(cs)[j].index,
        forall|c: CategoryView| #[trigger] by_index(cs).contains(c) <==> cs.contains(c),
    decreases cs.len(),
{
    if cs.len() > 0 {
        let init = cs.drop_last();
        let c = cs.last();
        let sorted = by_index(init);
        lemma_by_index(init);
        lemma_index_position(sorted, c);
        let k = index_position(sorted, c);
        let r = sorted.insert(k, c);
        assert forall|i: int, j: int| 0 <= i < j < r.len() implies r[i].index <= r[j].index by {
            if j < k {
                assert(r[i] == sorted[i] && r[j] == sorted[j]);
            } else if j == k {
                assert(r[i] == sorted[i]);
                assert(sorted[i].index <= sorted[k - 1].index);
            } else if i < k {
                assert(r[i] == sorted[i] && r[j] == sorted[j - 1]);
            } else if i == k {
                assert(r[j] == sorted[j - 1]);
            } else {
                assert(r[i] == sorted[i - 1] && r[j] == sorted[j - 1]);
            }
        }
        lemma_insert_members(sorted, k, c);
        lemma_last_members(cs);
    }
}

/// Whether one of the first `n` categories has the given slug.
pub open spec fn has_slug(cs: Seq<CategoryView>, slug: Seq<char>, n: int) -> bool
    decreases n,
{
    if n <= 0 || n > cs.len() {
        false
    } else {
        cs[n - 1].slug == slug || has_slug(cs, slug, n - 1)
    }
}

/// The posts among the first `n` whose category is one of `cs`.
pub open spec fn in_categories(posts: Seq<PostMetadataView>, cs: Seq<CategoryView>, n: int) -> Seq<
    PostMetadataView,
>
    decreases n,
{
    if n <= 0 || n > posts.len() {
        Seq::empty()
    } else if has_slug(cs, posts[n - 1].category, cs.len() as int) {
        in_categories(posts, cs, n - 1).push(posts[n - 1])
    } else {
        in_categories(posts, cs, n - 1)
    }
}

/// The categories that the site shows, in the order of the index.
pub fn visible_categories(metadata: &MetadataCache) -> (r: Vec<&Category>)
    ensures
        category_ref_views(r@) == shown_categories(
            category_views(metadata.category_info@),
            metadata.category_info.len() as int,
        ),
{
    let ghost all = category_views(metadata.category_info@);
    let mut r: Vec<&Category> = Vec::new();
    let mut i: usize = 0;
    assert(category_ref_views(r@) =~= Seq::<CategoryView>::empty());
    while i < metadata.category_info.len()
        invariant
            i <= metadata.category_info.len(),
            all == category_views(metadata.category_info@),
            category_ref_views(r@) == shown_categories(all, i as int),
        decreases metadata.category_info.len() - i,
    {
        let ghost before = category_ref_views(r@);
        let c = &metadata.category_info[i];
        assert(all[i as int] == c@);
        if !c.hidden {
            r.push(c);
            assert(category_ref_views(r@) =~= before.push(c@));
        }
        i += 1;
    }
    r
}

/// Orders categories by index.
pub fn sort_by_index<'a>(cs: &Vec<&'a Category>) -> (r: Vec<&'a Category>)
    ensures
        category_ref_views(r@) == by_index(category_ref_views(cs@)),
{
    let ghost all = category_ref_views(cs@);
    let mut r: Vec<&'a Category> = Vec::new();
    let mut i: usize = 0;
    assert(all.take(0) =~= Seq::<CategoryView>::empty());
    assert(category_ref_views(r@) =~= Seq::<CategoryView>::empty());
    while i < cs.len()
        invariant
            i <= cs.len(),
            all == category_ref_views(cs@),
            category_ref_views(r@) == by_index(all.take(i as int)),
        decreases cs.len() - i,
    {
        let c = cs[i];
        let ghost sorted = category_ref_views(r@);
        assert(all.take(i + 1).drop_last() =~= all.take(i as int));
        assert(all.take(i + 1).last() == c@);
        let mut k: usize = r.len();
        assert(sorted.take(k as int) =~= sorted);
        while k > 0 && c.index < r[k - 1].index
            invariant
                k <= r.len(),
                sorted == category_ref_views(r@),
                index_position(sorted, c@) == index_position(sorted.take(k as int), c@),
            decreases k,
        {
            assert(sorted.take(k as int).drop_last() =~= sorted.take(k - 1));
            assert(sorted.take(k as int).last() == r@[k - 1]@);
            k -= 1;
        }
        proof {
            if k > 0 {
                assert(sorted.take(k as int).last() == r@[k - 1]@);
            }
        }
        r.insert(k, c);
        assert(category_ref_views(r@) =~= sorted.insert(k as int, c@));
        i += 1;
    }
    assert(all.take(cs.len() as int) =~= all);
    r
}

fn among(cs: &Vec<&Category>, slug: &str) -> (b: bool)
    ensures
        b == has_slug(category_ref_views(cs@), slug@, cs.len() as int),
{
    let ghost all = category_ref_views(cs@);
    let mut i: usize = 0;
    while i < cs.len()
        invariant
            i <= cs.len(),
            all == category_ref_views(cs@),
            !has_slug(all, slug@, i as int),
        decreases cs.len() - i,
    {
        assert(all[i as int] == cs@[i as int]@);
        if str_eq(cs[i].slug.as_str(), slug) {
            proof {
                assert(has_slug(all, slug@, i + 1));
                lemma_has_slug_grows(all, slug@, i + 1, all.len() as int);
            }
            return true;
        }
        i += 1;
    }
    false
}

proof fn lemma_has_slug_grows(cs: Seq<CategoryView>, slug: Seq<char>, n: int, m: int)
    requires
        0 <= n <= m <= cs.len(),
        has_slug(cs, slug, n),
    ensures
        has_slug(cs, slug, m),
    decreases m - n,
{
    if n < m {
        lemma_has_slug_grows(cs, slug, n, m - 1);
    }
}

/// The posts of the homepage: of the `limit` newest visible posts those
/// whose category the site shows.
pub fn homepage_posts<'a>(metadata: &'a MetadataCache, limit: usize) -> (r: Vec<&'a PostMetadata>)
    ensures
        ({
            let newest = first(
                by_recency(select(metadata.post_views(), Selection::Visible)),
                limit as nat,
            );
            ref_views(r@) == in_categories(
                newest,
                shown_categories(
                    category_views(metadata.category_info@),
                    metadata.category_info.len() as int,
                ),
                newest.len() as int,
            )
        }),
{
    let shown = visible_categories(metadata);
    let newest = metadata.get_recent_posts(limit);
    let ghost all = ref_views(newest@);
    let ghost cats = category_ref_views(shown@);
    let mut r: Vec<&'a PostMetadata> = Vec::new();
    let mut i: usize = 0;
    assert(ref_views(r@) =~= Seq::<PostMetadataView>::empty());
    while i < newest.len()
        invariant
            i <= newest.len(),
            all == ref_views(newest@),
            cats == category_ref_views(shown@),
            ref_views(r@) == in_categories(all, cats, i as int),
        decreases newest.len() - i,
    {
        let ghost before = ref_views(r@);
        let p = newest[i];
        assert(all[i as int] == p@);
        if among(&shown, p.category.as_str()) {
            r.push(p);
            assert(ref_views(r@) =~= before.push(p@));
        }
        i += 1;
    }
    r
}

/// The posts that the homepage shows for one category: its newest visible
/// posts.
pub fn category_tab_posts<'a>(metadata: &'a MetadataCache, slug: &str, limit: usize) -> (r: Vec<
    &'a PostMetadata,
>)
    ensures
        ref_views(r@) == first(
            by_recency(select(metadata.post_views(), Selection::Category(slug@))),
            limit as nat,
        ),
{
    let listed = metadata.get_posts_by_category(slug);
    let mut sorted = sort_by_recency(&listed);
    if limit < sorted.len() {
        let ghost all = ref_views(sorted@);
        sorted.truncate(limit);
        assert(ref_views(sorted@) =~= all.take(limit as int));
    }
    sorted
}

/// One tab of the homepage: a category with its newest posts.
#[derive(Debug)]
pub struct CategoryTab<'a> {
    pub category: &'a Category,
    pub posts: Vec<&'a PostMetadata>,
}

/// The tabs of the homepage: one for every category that the site shows,
/// in the order of their indices, each with its `limit` newest visible
/// posts.
pub fn homepage_tabs<'a>(metadata: &'a MetadataCache, limit: usize) -> (r: Vec<CategoryTab<'a>>)
    ensures
        ({
            let shown = by_index(
                shown_categories(
                    category_views(metadata.category_info@),
                    metadata.category_info.len() as int,
                ),
            );
            &&& r.len() == shown.len()
            &&& forall|k: int|
                0 <= k < r.len() ==> (#[trigger] r@[k]).category@ == shown[k] && ref_views(
                    r@[k].posts@,
                ) == first(
                    by_recency(select(metadata.post_views(), Selection::Category(shown[k].slug))),
                    limit as nat,
                )
        }),
{
    let sorted = sort_by_index(&visible_categories(metadata));
    let ghost shown = category_ref_views(sorted@);
    let mut r: Vec<CategoryTab<'a>> = Vec::new();
    let mut i: usize = 0;
    while i < sorted.len()
        invariant
            i <= sorted.len(),
            shown == category_ref_views(sorted@),
            r.len() == i,
            forall|k: int|
                0 <= k < i ==> (#[trigger] r@[k]).category@ == shown[k] && ref_views(r@[k].posts@)
                    == first(
                    by_recency(select(metadata.post_views(), Selection::Category(shown[k].slug))),
                    limit as nat,
                ),
        decreases sorted.len() - i,
    {
        let category = sorted[i];
        assert(shown[i as int] == category@);
        let posts = category_tab_posts(metadata, category.slug.as_str(), limit);
        r.push(CategoryTab { category, posts });
        i += 1;
    }
    r
}

/// The posts of a category's listing, the newest first: the visible posts
/// of the category and of those below it.
pub fn category_listing<'a>(metadata: &'a MetadataCache, slug: &str) -> (r: Vec<&'a PostMetadata>)
    ensures
        ref_views(r@) == by_recency(
            select(metadata.post_views(), Selection::CategoryTree(slug@)),
        ),
{
    sort_by_recency(&metadata.get_posts_by_category_tree(slug))
}

/// The posts of a tag's listing, the newest first.
pub fn tag_listing<'a>(metadata: &'a MetadataCache, tag: &str) -> (r: Vec<&'a PostMetadata>)
    ensures
        ref_views(r@) == by_recency(select(metadata.post_views(), Selection::Tag(tag@))),
{
    sort_by_recency(&metadata.get_posts_by_tag(tag))
}

/// The posts that one page of a listing shows.
pub open spec fn page_of(posts: Seq<PostMetadataView>, per_page: nat, page: nat) -> Seq<
    PostMetadataView,
> {
    posts.subrange(
        page_range(posts.len(), per_page, page).0 as int,
        page_range(posts.len(), per_page, page).1 as int,
    )
}

/// The posts that one page of a listing shows.
pub fn page_posts<'a>(posts: &Vec<&'a PostMetadata>, per_page: usize, page: usize) -> (r: Vec<
    &'a PostMetadata,
>)
    ensures
        ref_views(r@) == page_of(ref_views(posts@), per_page as nat, page as nat),
{
    let (from, to) = page_bounds(posts.len(), per_page, page);
    let mut r: Vec<&'a PostMetadata> = Vec::new();
    let mut i: usize = from;
    while i < to
        invariant
            from <= i <= to <= posts.len(),
            r.len() == i - from,
            forall|j: int| 0 <= j < r.len() ==> r@[j] == posts@[from + j],
        decreases to - i,
    {
        r.push(posts[i]);
        i += 1;
    }
    assert(ref_views(r@) =~= ref_views(posts@).subrange(from as int, to as int));
    r
}

/// One page of a listing: its number, the posts it shows, its pagination
/// where the listing has more than one page, and the file it is written to.
#[derive(Debug)]
pub struct ListingPage<'a> {
    pub number: usize,
    pub posts: Vec<&'a PostMetadata>,
    pub pagination: Option<PaginationContext>,
    pub output_path: String,
}

impl<'a> ListingPage<'a> {
    /// Whether this is page `number` of the listing of `posts` at `base_url`
    /// that is written below `output_dir`.
    pub open spec fn is_page(
        &self,
        number: nat,
        posts: Seq<PostMetadataView>,
        per_page: nat,
        window: nat,
        base_url: Seq<char>,
        output_dir: Seq<char>,
    ) -> bool {
        &&& self.number == number
        &&& ref_views(self.posts@) == page_of(posts, per_page, number)
        &&& self.output_path@ == listing_file(output_dir, number)
        &&& match self.pagination {
            Some(p) => page_count(posts.len(), per_page) > 1 && p.paginates(
                number,
                posts.len(),
                per_page,
                window,
                base_url,
            ),
            None => page_count(posts.len(), per_page) <= 1,
        }
    }
}

/// The pages of a listing: as many as the posts take, and one where there
/// are none. The first page is the index of the listing's directory.
pub fn listing_pages<'a>(
    posts: &Vec<&'a PostMetadata>,
    per_page: usize,
    window: usize,
    base_url: &str,
    output_dir: &str,
) -> (r: Vec<ListingPage<'a>>)
    ensures
        r.len() == page_count(posts.len() as nat, per_page as nat),
        forall|k: int|
            0 <= k < r.len() ==> (#[trigger] r@[k]).is_page(
                (k + 1) as nat,
                ref_views(posts@),
                per_page as nat,
                window as nat,
                base_url@,
                output_dir@,
            ),
{
    let pages = total_pages(posts.len(), per_page);
    let mut r: Vec<ListingPage<'a>> = Vec::new();
    let mut done = false;
    let mut number: usize = 1;
    while !done
        invariant
            1 <= number <= pages,
            pages == page_count(posts.len() as nat, per_page as nat),
            r.len() == if done {
                number as int
            } else {
                number - 1
            },
            done ==> number == pages,
            forall|k: int|
                0 <= k < r.len() ==> (#[trigger] r@[k]).is_page(
                    (k + 1) as nat,
                    ref_views(posts@),
                    per_page as nat,
                    window as nat,
                    base_url@,
                    output_dir@,
                ),
        decreases
                pages - number + if done {
                    0int
                } else {
                    1int
                },
    {
        let pagination = if pages > 1 {
            Some(build_pagination_context(number, posts.len(), per_page, window, base_url))
        } else {
            None
        };
        let page = ListingPage {
            number,
            posts: page_posts(posts, per_page, number),
            pagination,
            output_path: listing_path(output_dir, number),
        };
        assert(ref_views(posts@).len() == posts.len());
        assert(page.is_page(
            number as nat,
            ref_views(posts@),
            per_page as nat,
            window as nat,
            base_url@,
            output_dir@,
        ));
        r.push(page);
        if number == pages {
            done = true;
        } else {
            number += 1;
        }
    }
    r
}

/// The address of a category's listing: `/{slug}/`.
pub open spec fn category_base_url(slug: Seq<char>) -> Seq<char> {
    "/"@ + slug + "/"@
}

/// The address of a tag's listing: `/tag/{tag}/`.
pub open spec fn tag_base_url(tag: Seq<char>) -> Seq<char> {
    "/tag/"@ + tag + "/"@
}

/// The pages of a category's listing.
pub fn category_pages<'a>(config: &SsgConfig, metadata: &'a MetadataCache, slug: &str) -> (r: Vec<
    ListingPage<'a>,
>)
    ensures
        ({
            let posts = by_recency(select(metadata.post_views(), Selection::CategoryTree(slug@)));
            &&& r.len() == page_count(posts.len(), config.build.posts_per_page as nat)
            &&& forall|k: int|
                0 <= k < r.len() ==> (#[trigger] r@[k]).is_page(
                    (k + 1) as nat,
                    posts,
                    config.build.posts_per_page as nat,
                    config.build.pagination_window as nat,
                    category_base_url(slug@),
                    config.build.output_dir@ + "/"@ + output_name(
                        slug@,
                        config.build.encode_filenames,
                    ),
                )
        }),
{
    let posts = category_listing(metadata, slug);
    let mut base = chars_of("/");
    append_str(&mut base, slug);
    append_str(&mut base, "/");
    let mut dir = chars_of(config.build.output_dir.as_str());
    append_str(&mut dir, "/");
    append_str(&mut dir, maybe_encode(config, slug).as_str());
    assert(ref_views(posts@).len() == posts.len());
    listing_pages(
        &posts,
        config.build.posts_per_page,
        config.build.pagination_window,
        string_of(&base).as_str(),
        string_of(&dir).as_str(),
    )
}

/// The pages of a tag's listing.
pub fn tag_pages<'a>(config: &SsgConfig, metadata: &'a MetadataCache, tag: &str) -> (r: Vec<
    ListingPage<'a>,
>)
    ensures
        ({
            let posts = by_recency(select(metadata.post_views(), Selection::Tag(tag@)));
            &&& r.len() == page_count(posts.len(), config.build.posts_per_page as nat)
            &&& forall|k: int|
                0 <= k < r.len() ==> (#[trigger] r@[k]).is_page(
                    (k + 1) as nat,
                    posts,
                    config.build.posts_per_page as nat,
                    config.build.pagination_window as nat,
                    tag_base_url(tag@),
                    config.build.output_dir@ + "/tag/"@ + output_name(
                        tag@,
                        config.build.encode_filenames,
                    ),
                )
        }),
{
    let posts = tag_listing(metadata, tag);
    let mut base = chars_of("/tag/");
    append_str(&mut base, tag);
    append_str(&mut base, "/");
    let mut dir = chars_of(config.build.output_dir.as_str());
    append_str(&mut dir, "/tag/");
    append_str(&mut dir, maybe_encode(config, tag).as_str());
    assert(ref_views(posts@).len() == posts.len());
    listing_pages(
        &posts,
        config.build.posts_per_page,
        config.build.pagination_window,
        string_of(&base).as_str(),
        string_of(&dir).as_str(),
    )
}

/// Where a tag goes into a list that is ordered from the most to the least
/// used: behind every tag that is not used less.
pub open spec fn count_position(sorted: Seq<(Seq<char>, nat)>, c: (Seq<char>, nat)) -> int
    decreases sorted.len(),
{
    if sorted.len() == 0 {
        0
    } else if sorted.last().1 < c.1 {
        count_position(sorted.drop_last(), c)
    } else {
        sorted.len() as int
    }
}

/// The tags from the most to the least used; tags that are used equally
/// often keep their order.
pub open spec fn by_count(counts: Seq<(Seq<char>, nat)>) -> Seq<(Seq<char>, nat)>
    decreases counts.len(),
{
    if counts.len() == 0 {
        Seq::empty()
    } else {
        let sorted = by_count(counts.drop_last());
        sorted.insert(count_position(sorted, counts.last()), counts.last())
    }
}

proof fn lemma_count_position(sorted: Seq<(Seq<char>, nat)>, c: (Seq<char>, nat))
    ensures
        0 <= count_position(sorted, c) <= sorted.len(),
        forall|j: int| count_position(sorted, c) <= j < sorted.len() ==> sorted[j].1 < c.1,
        count_position(sorted, c) > 0 ==> sorted[count_position(sorted, c) - 1].1 >= c.1,
    decreases sorted.len(),
{
    if sorted.len() > 0 && sorted.last().1 < c.1 {
        let init = sorted.drop_last();
        lemma_count_position(init, c);
        assert forall|j: int| count_position(sorted, c) <= j < sorted.len() implies sorted[j].1
            < c.1 by {
            if j < init.len() {
                assert(sorted[j] == init[j]);
            }
        }
        if count_position(sorted, c) > 0 {
            assert(sorted[count_position(sorted, c) - 1] == init[count_position(init, c) - 1]);
        }
    }
}

/// Ordering by use keeps every tag, adds none, and puts no tag behind one
/// that is used less.
pub proof fn lemma_by_count(counts: Seq<(Seq<char>, nat)>)
    ensures
        by_count(counts).len() == counts.len(),
        forall|i: int, j: int|
            0 <= i < j < by_count(counts).len() ==> by_count(counts)[i].1 >= by_count(counts)[j].1,
        forall|c: (Seq<char>, nat)| #[trigger] by_count(counts).contains(c) <==> counts.contains(c),
    decreases counts.len(),
{
    if counts.len() > 0 {
        let init = counts.drop_last();
        let c = counts.last();
        let sorted = by_count(init);
        lemma_by_count(init);
        lemma_count_position(sorted, c);
        let k = count_position(sorted, c);
        let r = sorted.insert(k, c);
        assert forall|i: int, j: int| 0 <= i < j < r.len() implies r[i].1 >= r[j].1 by {
            if j < k {
                assert(r[i] == sorted[i] && r[j] == sorted[j]);
            } else if j == k {
                assert(r[i] == sorted[i]);
                assert(sorted[i].1 >= sorted[k - 1].1);
            } else if i < k {
                assert(r[i] == sorted[i] && r[j] == sorted[j - 1]);
            } else if i == k {
                assert(r[j] == sorted[j - 1]);
            } else {
                assert(r[i] == sorted[i - 1] && r[j] == sorted[j - 1]);
            }
        }
        lemma_insert_members(sorted, k, c);
        lemma_last_members(counts);
    }
}

/// The names with their counts.
pub open spec fn count_ref_views(counts: Seq<&Count>) -> Seq<(Seq<char>, nat)> {
    counts.map_values(|c: &Count| (c.name@, c.count as nat))
}

/// The tags of the overview: from the most to the least used.
pub fn tags_by_count(metadata: &MetadataCache) -> (r: Vec<&Count>)
    ensures
        count_ref_views(r@) == by_count(count_views(metadata.tags@)),
{
    let ghost all = count_views(metadata.tags@);
    let mut r: Vec<&Count> = Vec::new();
    let mut i: usize = 0;
    assert(all.take(0) =~= Seq::<(Seq<char>, nat)>::empty());
    assert(count_ref_views(r@) =~= Seq::<(Seq<char>, nat)>::empty());
    while i < metadata.tags.len()
        invariant
            i <= metadata.tags.len(),
            all == count_views(metadata.tags@),
            count_ref_views(r@) == by_count(all.take(i as int)),
        decreases metadata.tags.len() - i,
    {
        let c = &metadata.tags[i];
        let ghost cv = (c.name@, c.count as nat);
        let ghost sorted = count_ref_views(r@);
        assert(all.take(i + 1).drop_last() =~= all.take(i as int));
        assert(all.take(i + 1).last() == cv);
        let mut k: usize = r.len();
        assert(sorted.take(k as int) =~= sorted);
        while k > 0 && r[k - 1].count < c.count
            invariant
                k <= r.len(),
                cv == (c.name@, c.count as nat),
                sorted == count_ref_views(r@),
                count_position(sorted, cv) == count_position(sorted.take(k as int), cv),
            decreases k,
        {
            assert(sorted.take(k as int).drop_last() =~= sorted.take(k - 1));
            assert(sorted.take(k as int).last() == (r@[k - 1].name@, r@[k - 1].count as nat));
            k -= 1;
        }
        proof {
            if k > 0 {
                assert(sorted.take(k as int).last() == (r@[k - 1].name@, r@[k - 1].count as nat));
            }
        }
        r.insert(k, c);
        assert(count_ref_views(r@) =~= sorted.insert(k as int, cv));
        i += 1;
    }
    assert(all.take(metadata.tags.len() as int) =~= all);
    r
}

/// The bounds of a page lie in the listing.
proof fn lemma_page_range_bounds(total: nat, per_page: nat, page: nat)
    ensures
        page_range(total, per_page, page).0 <= page_range(total, per_page, page).1 <= total,
{
    if page > 0 {
        assert((page - 1) * per_page >= 0) by (nonlinear_arith)
            requires
                page >= 1,
                per_page >= 0,
        ;
    }
}

/// Whatever page of whatever listing shows a post, the post is a visible
/// post of the index that the listing selects: no page of a category or a
/// tag shows a hidden post.
pub proof fn lemma_pages_show_no_hidden(
    posts: Seq<PostMetadataView>,
    which: Selection,
    per_page: nat,
    page: nat,
)
    ensures
        forall|p: PostMetadataView| #[trigger]
            page_of(by_recency(select(posts, which)), per_page, page).contains(p)
                ==> posts.contains(p) && !p.frontmatter.hidden && selects(which, p),
{
    let shown = select(posts, which);
    let listed = by_recency(shown);
    let shows = page_of(listed, per_page, page);
    lemma_select_members(posts, which);
    lemma_by_recency(shown);
    lemma_page_range_bounds(listed.len(), per_page, page);
    assert forall|p: PostMetadataView| #[trigger] shows.contains(p) implies posts.contains(p)
        && !p.frontmatter.hidden && selects(which, p) by {
        let k = choose|k: int| 0 <= k < shows.len() && shows[k] == p;
        assert(listed[page_range(listed.len(), per_page, page).0 + k] == p);
        assert(listed.contains(p));
        assert(shown.contains(p));
    }
}

/// A category that the site shows is one of the categories and not hidden.
proof fn lemma_shown_categories(cs: Seq<CategoryView>, n: int)
    requires
        0 <= n <= cs.len(),
    ensures
        forall|c: CategoryView| #[trigger]
            shown_categories(cs, n).contains(c) ==> cs.contains(c) && !c.hidden,
    decreases n,
{
    if n > 0 {
        lemma_shown_categories(cs, n - 1);
        let before = shown_categories(cs, n - 1);
        let all = shown_categories(cs, n);
        assert forall|c: CategoryView| #[trigger] all.contains(c) implies cs.contains(c)
            && !c.hidden by {
            let k = choose|k: int| 0 <= k < all.len() && all[k] == c;
            if k < before.len() {
                assert(before[k] == c);
                assert(before.contains(c));
            } else {
                assert(cs[n - 1] == c);
            }
        }
    }
}

/// Where one of the first `n` categories has a slug, one of them is named.
proof fn lemma_has_slug(cs: Seq<CategoryView>, slug: Seq<char>, n: int)
    requires
        0 <= n <= cs.len(),
        has_slug(cs, slug, n),
    ensures
        exists|c: CategoryView| #[trigger] cs.contains(c) && c.slug == slug,
    decreases n,
{
    if cs[n - 1].slug == slug {
        assert(cs.contains(cs[n - 1]));
    } else {
        lemma_has_slug(cs, slug, n - 1);
    }
}

/// The posts that are picked by their category are posts of the list, each
/// in one of the categories.
proof fn lemma_in_categories(posts: Seq<PostMetadataView>, cs: Seq<CategoryView>, n: int)
    requires
        0 <= n <= posts.len(),
    ensures
        forall|p: PostMetadataView| #[trigger]
            in_categories(posts, cs, n).contains(p) ==> posts.contains(p) && has_slug(
                cs,
                p.category,
                cs.len() as int,
            ),
    decreases n,
{
    if n > 0 {
        lemma_in_categories(posts, cs, n - 1);
        let before = in_categories(posts, cs, n - 1);
        let all = in_categories(posts, cs, n);
        assert forall|p: PostMetadataView| #[trigger] all.contains(p) implies posts.contains(p)
            && has_slug(cs, p.category, cs.len() as int) by {
            let k = choose|k: int| 0 <= k < all.len() && all[k] == p;
            if k < before.len() {
                assert(before[k] == p);
                assert(before.contains(p));
            } else {
                assert(posts[n - 1] == p);
            }
        }
    }
}

/// The homepage shows visible posts only, and only posts of categories
/// that are not hidden.
pub proof fn lemma_homepage_shows_no_hidden(
    posts: Seq<PostMetadataView>,
    categories: Seq<CategoryView>,
    limit: nat,
)
    ensures
        ({
            let newest = first(by_recency(select(posts, Selection::Visible)), limit);
            let shown = shown_categories(categories, categories.len() as int);
            forall|p: PostMetadataView| #[trigger]
                in_categories(newest, shown, newest.len() as int).contains(p) ==> posts.contains(p)
                    && !p.frontmatter.hidden && exists|c: CategoryView| #[trigger]
                    categories.contains(c) && !c.hidden && c.slug == p.category
        }),
{
    let newest = first(by_recency(select(posts, Selection::Visible)), limit);
    let shown = shown_categories(categories, categories.len() as int);
    let picked = in_categories(newest, shown, newest.len() as int);
    lemma_listing_shows_no_hidden(posts, Selection::Visible, limit);
    lemma_in_categories(newest, shown, newest.len() as int);
    lemma_shown_categories(categories, categories.len() as int);
    assert forall|p: PostMetadataView| #[trigger] picked.contains(p) implies posts.contains(p)
        && !p.frontmatter.hidden && exists|c: CategoryView| #[trigger]
        categories.contains(c) && !c.hidden && c.slug == p.category by {
        assert(newest.contains(p));
        lemma_has_slug(shown, p.category, shown.len() as int);
        let c = choose|c: CategoryView| #[trigger] shown.contains(c) && c.slug == p.category;
        assert(categories.contains(c) && !c.hidden && c.slug == p.category);
    }
}

} // verus!
