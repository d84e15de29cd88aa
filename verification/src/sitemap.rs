//! The sitemap: the addresses of everything that the site shows.

use crate::config::SsgConfig;
use crate::metadata::{
    count_views, MetadataCache, names_of, post_views, PostMetadataView, select, Selection,
};
use crate::pagination::{page_count, total_pages};
use crate::slug::{encode_for_url, url_encoded};
use crate::text::{
    append, append_str, chars_of, contains, decimal, decimal_chars, escaped,
    lemma_part_is_contained, opt_chars, owned, str_views, string_of,
};
use crate::types::{category_views, CategoryView, rfc3339, text_or_empty};
use vstd::prelude::*;

verus! {

/// One address of the sitemap.
#[derive(Debug)]
pub struct SitemapUrl {
    pub loc: String,
    pub lastmod: Option<String>,
    pub changefreq: Option<String>,
    /// The priority in tenths: `8` stands for `0.8`.
    pub priority: Option<u8>,
}

pub struct SitemapUrlView {
    pub loc: Seq<char>,
    pub lastmod: Option<Seq<char>>,
    pub changefreq: Option<Seq<char>>,
    pub priority: Option<u8>,
}

impl View for SitemapUrl {
    type V = SitemapUrlView;

    open spec fn view(&self) -> SitemapUrlView {
        SitemapUrlView {
            loc: self.loc@,
            lastmod: opt_chars(self.lastmod),
            changefreq: opt_chars(self.changefreq),
            priority: self.priority,
        }
    }
}

/// The views of a list of addresses.
pub open spec fn url_views(urls: Seq<SitemapUrl>) -> Seq<SitemapUrlView> {
    urls.map_values(|u: SitemapUrl| u@)
}

/// An address without date of change.
pub open spec fn plain_url(loc: Seq<char>, changefreq: Seq<char>, priority: u8) -> SitemapUrlView {
    SitemapUrlView { loc, lastmod: None, changefreq: Some(changefreq), priority: Some(priority) }
}

/// The entry of the homepage.
pub open spec fn homepage_url(site: Seq<char>) -> SitemapUrlView {
    plain_url(site, "daily"@, 10)
}

/// The entry of a post: its address, and when it last changed.
pub open spec fn post_entry(site: Seq<char>, p: PostMetadataView) -> SitemapUrlView {
    SitemapUrlView {
        loc: site + "/"@ + url_encoded(p.category) + "/"@ + url_encoded(p.slug) + "/"@,
        lastmod: Some(
            text_or_empty(
                rfc3339(
                    p.frontmatter.date.last_change().secs as int,
                    p.frontmatter.date.last_change().nanos as int,
                ),
            ),
        ),
        changefreq: Some("monthly"@),
        priority: Some(8),
    }
}

/// The entries of the visible posts among the first `n`.
pub open spec fn post_entries(site: Seq<char>, posts: Seq<PostMetadataView>, n: int) -> Seq<
    SitemapUrlView,
>
    decreases n,
{
    if n <= 0 || n > posts.len() {
        Seq::empty()
    } else if posts[n - 1].frontmatter.hidden {
        post_entries(site, posts, n - 1)
    } else {
        post_entries(site, posts, n - 1).push(post_entry(site, posts[n - 1]))
    }
}

/// The entries of the pages of a listing at `base` from the second page up
/// to page `last`.
pub open spec fn later_pages(base: Seq<char>, last: nat, priority: u8) -> Seq<SitemapUrlView>
    decreases last,
{
    if last < 2 {
        Seq::empty()
    } else {
        later_pages(base, (last - 1) as nat, priority).push(
            plain_url(base + "page/"@ + decimal(last) + "/"@, "weekly"@, priority),
        )
    }
}

/// The entries of a listing at `base` that shows `count` posts: the
/// listing itself, and its pages from the second on.
pub open spec fn listing_entries(
    base: Seq<char>,
    count: nat,
    per_page: nat,
    priority: u8,
    page_priority: u8,
) -> Seq<SitemapUrlView> {
    seq![plain_url(base, "weekly"@, priority)] + later_pages(
        base,
        page_count(count, per_page),
        page_priority,
    )
}

/// The entries of the visible categories among the first `n`.
pub open spec fn category_entries(
    site: Seq<char>,
    categories: Seq<CategoryView>,
    posts: Seq<PostMetadataView>,
    per_page: nat,
    n: int,
) -> Seq<SitemapUrlView>
    decreases n,
{
    if n <= 0 || n > categories.len() {
        Seq::empty()
    } else if categories[n - 1].hidden {
        category_entries(site, categories, posts, per_page, n - 1)
    } else {
        category_entries(site, categories, posts, per_page, n - 1) + listing_entries(
            site + "/"@ + url_encoded(categories[n - 1].slug) + "/"@,
            select(posts, Selection::CategoryTree(categories[n - 1].slug)).len(),
            per_page,
            7,
            5,
        )
    }
}

/// The entries of the first `n` tags.
pub open spec fn tag_entries(
    site: Seq<char>,
    tags: Seq<Seq<char>>,
    posts: Seq<PostMetadataView>,
    per_page: nat,
    n: int,
) -> Seq<SitemapUrlView>
    decreases n,
{
    if n <= 0 || n > tags.len() {
        Seq::empty()
    } else {
        tag_entries(site, tags, posts, per_page, n - 1) + listing_entries(
            site + "/tags/"@ + url_encoded(tags[n - 1]) + "/"@,
            select(posts, Selection::Tag(tags[n - 1])).len(),
            per_page,
            5,
            4,
        )
    }
}

/// The entries of the first `n` pages.
pub open spec fn page_entries(site: Seq<char>, slugs: Seq<Seq<char>>, n: int) -> Seq<SitemapUrlView>
    decreases n,
{
    if n <= 0 || n > slugs.len() {
        Seq::empty()
    } else {
        page_entries(site, slugs, n - 1).push(
            plain_url(site + "/"@ + url_encoded(slugs[n - 1]) + "/"@, "monthly"@, 6),
        )
    }
}

/// Text as it stands in XML: `&`, `<`, `>`, `"` and `'` escaped.
pub open spec fn xml_escaped(text: Seq<char>) -> Seq<char> {
    escaped(text, "&apos;"@)
}

/// A priority in tenths, written with one decimal.
pub open spec fn priority_text(tenths: u8) -> Seq<char> {
    decimal((tenths / 10) as nat) + "."@ + decimal((tenths % 10) as nat)
}

/// An element with a value, or nothing where there is no value.
pub open spec fn optional_element(value: Option<Seq<char>>, open: Seq<char>, close: Seq<char>) -> Seq<
    char,
> {
    match value {
        Some(v) => open + v + close,
        None => Seq::empty(),
    }
}

/// The element that stands for one address.
pub open spec fn url_element(u: SitemapUrlView) -> Seq<char> {
    "  <url>\n    <loc>"@ + xml_escaped(u.loc) + "</loc>\n"@ + optional_element(
        u.lastmod,
        "    <lastmod>"@,
        "</lastmod>\n"@,
    ) + optional_element(u.changefreq, "    <changefreq>"@, "</changefreq>\n"@) + optional_element(
        match u.priority {
            Some(p) => Some(priority_text(p)),
            None => None,
        },
        "    <priority>"@,
        "</priority>\n"@,
    ) + "  </url>\n"@
}

/// The elements of the addresses, in order.
pub open spec fn url_elements(urls: Seq<SitemapUrlView>) -> Seq<char>
    decreases urls.len(),
{
    if urls.len() == 0 {
        Seq::empty()
    } else {
        url_elements(urls.drop_last()) + url_element(urls.last())
    }
}

/// The sitemap document.
pub open spec fn sitemap_xml(urls: Seq<SitemapUrlView>) -> Seq<char> {
    "<?xml version=\"1.0\" encoding=\"UTF-8\"?>\n<urlset xmlns=\"http://www.sitemaps.org/schemas/sitemap/0.9\">\n"@
        + url_elements(urls) + "</urlset>\n"@
}

/// All entries of a site's sitemap: the homepage, the visible posts, the
/// visible categories with their pages, the tags with their pages, and the
/// pages.
pub open spec fn sitemap_entries(
    site: Seq<char>,
    per_page: nat,
    posts: Seq<PostMetadataView>,
    categories: Seq<CategoryView>,
    tags: Seq<Seq<char>>,
    pages: Seq<Seq<char>>,
) -> Seq<SitemapUrlView> {
    seq![homepage_url(site)] + post_entries(site, posts, posts.len() as int) + category_entries(
        site,
        categories,
        posts,
        per_page,
        categories.len() as int,
    ) + seq![plain_url(site + "/tags/"@, "weekly"@, 6)] + tag_entries(
        site,
        tags,
        posts,
        per_page,
        tags.len() as int,
    ) + page_entries(site, pages, pages.len() as int)
}

/// Every post entry of the sitemap stands for a visible post: the sitemap
/// lists no hidden post.
pub proof fn lemma_sitemap_posts_are_visible(site: Seq<char>, posts: Seq<PostMetadataView>, n: int)
    requires
        0 <= n <= posts.len(),
    ensures
        forall|u: SitemapUrlView| #[trigger]
            post_entries(site, posts, n).contains(u) ==> exists|i: int|
                0 <= i < n && !(#[trigger] posts[i]).frontmatter.hidden && u == post_entry(
                    site,
                    posts[i],
                ),
    decreases n,
{
    if n > 0 {
        lemma_sitemap_posts_are_visible(site, posts, n - 1);
        let before = post_entries(site, posts, n - 1);
        let all = post_entries(site, posts, n);
        assert forall|u: SitemapUrlView| #[trigger] all.contains(u) implies exists|i: int|
            0 <= i < n && !(#[trigger] posts[i]).frontmatter.hidden && u == post_entry(
                site,
                posts[i],
            ) by {
            let k = choose|k: int| 0 <= k < all.len() && all[k] == u;
            if k < before.len() {
                assert(before[k] == u);
                assert(before.contains(u));
                let i = choose|i: int|
                    0 <= i < n - 1 && !(#[trigger] posts[i]).frontmatter.hidden && u
                        == post_entry(site, posts[i]);
                assert(0 <= i < n && !posts[i].frontmatter.hidden && u == post_entry(
                    site,
                    posts[i],
                ));
            } else {
                assert(!posts[n - 1].frontmatter.hidden && u == post_entry(site, posts[n - 1]));
            }
        }
    }
}

/// Every visible post has its entry in the sitemap.
pub proof fn lemma_visible_posts_are_listed(
    site: Seq<char>,
    posts: Seq<PostMetadataView>,
    n: int,
    i: int,
)
    requires
        0 <= i < n <= posts.len(),
        !posts[i].frontmatter.hidden,
    ensures
        post_entries(site, posts, n).contains(post_entry(site, posts[i])),
    decreases n,
{
    let all = post_entries(site, posts, n);
    let entry = post_entry(site, posts[i]);
    if i == n - 1 {
        assert(all[all.len() - 1] == entry);
    } else {
        lemma_visible_posts_are_listed(site, posts, n - 1, i);
        let before = post_entries(site, posts, n - 1);
        let k = choose|k: int| 0 <= k < before.len() && before[k] == entry;
        assert(all[k] == entry);
    }
}

/// Whether `whole` is `part` with `before` in front of it and `after`
/// behind it.
pub open spec fn framed(whole: Seq<char>, before: Seq<char>, part: Seq<char>, after: Seq<char>) -> bool {
    whole == before + part + after
}

/// The element of every address stands among the elements of its list.
pub proof fn lemma_elements_hold_each(urls: Seq<SitemapUrlView>, k: int)
    requires
        0 <= k < urls.len(),
    ensures
        exists|before: Seq<char>, after: Seq<char>| #[trigger]
            framed(url_elements(urls), before, url_element(urls[k]), after),
    decreases urls.len(),
{
    let init = urls.drop_last();
    if k == urls.len() - 1 {
        assert(url_elements(urls) =~= url_elements(init) + url_element(urls[k])
            + Seq::<char>::empty());
        assert(framed(
            url_elements(urls),
            url_elements(init),
            url_element(urls[k]),
            Seq::<char>::empty(),
        ));
    } else {
        lemma_elements_hold_each(init, k);
        let (before, after) = choose|before: Seq<char>, after: Seq<char>| #[trigger]
            framed(url_elements(init), before, url_element(init[k]), after);
        assert(url_elements(urls) =~= before + url_element(urls[k]) + (after + url_element(
            urls.last(),
        )));
        assert(framed(
            url_elements(urls),
            before,
            url_element(urls[k]),
            after + url_element(urls.last()),
        ));
    }
}

/// The sitemap document names every visible post: it holds a `loc`
/// element with the post's address, which is the site's address, the
/// post's category, its slug and a slash behind each.
pub proof fn lemma_sitemap_names_visible_posts(
    site: Seq<char>,
    per_page: nat,
    posts: Seq<PostMetadataView>,
    categories: Seq<CategoryView>,
    tags: Seq<Seq<char>>,
    pages: Seq<Seq<char>>,
    i: int,
)
    requires
        0 <= i < posts.len(),
        !posts[i].frontmatter.hidden,
    ensures
        contains(
            sitemap_xml(sitemap_entries(site, per_page, posts, categories, tags, pages)),
            "<loc>"@ + xml_escaped(
                site + "/"@ + url_encoded(posts[i].category) + "/"@ + url_encoded(posts[i].slug)
                    + "/"@,
            ) + "</loc>"@,
        ),
{
    let entry = post_entry(site, posts[i]);
    let listed = post_entries(site, posts, posts.len() as int);
    let entries = sitemap_entries(site, per_page, posts, categories, tags, pages);
    lemma_visible_posts_are_listed(site, posts, posts.len() as int, i);
    let j = choose|j: int| 0 <= j < listed.len() && listed[j] == entry;
    let head = seq![homepage_url(site)] + listed;
    assert(head[1 + j] == entry);
    assert(entries[1 + j] == entry);
    lemma_elements_hold_each(entries, 1 + j);
    let (before, after) = choose|before: Seq<char>, after: Seq<char>| #[trigger]
        framed(url_elements(entries), before, url_element(entries[1 + j]), after);
    let part = "<loc>"@ + xml_escaped(entry.loc) + "</loc>"@;
    let opening = "<?xml version=\"1.0\" encoding=\"UTF-8\"?>\n<urlset xmlns=\"http://www.sitemaps.org/schemas/sitemap/0.9\">\n"@;
    let rest = optional_element(entry.lastmod, "    <lastmod>"@, "</lastmod>\n"@)
        + optional_element(entry.changefreq, "    <changefreq>"@, "</changefreq>\n"@)
        + optional_element(
        match entry.priority {
            Some(p) => Some(priority_text(p)),
            None => None,
        },
        "    <priority>"@,
        "</priority>\n"@,
    ) + "  </url>\n"@;
    reveal_strlit("  <url>\n    <loc>");
    reveal_strlit("  <url>\n    ");
    reveal_strlit("<loc>");
    reveal_strlit("</loc>\n");
    reveal_strlit("</loc>");
    reveal_strlit("\n");
    assert("  <url>\n    <loc>"@ =~= "  <url>\n    "@ + "<loc>"@);
    assert("</loc>\n"@ =~= "</loc>"@ + "\n"@);
    assert(url_element(entry) =~= "  <url>\n    "@ + part + ("\n"@ + rest));
    let document = sitemap_xml(entries);
    assert(document =~= (opening + before + "  <url>\n    "@) + part + (("\n"@ + rest) + after
        + "</urlset>\n"@));
    lemma_part_is_contained(
        opening + before + "  <url>\n    "@,
        part,
        ("\n"@ + rest) + after + "</urlset>\n"@,
    );
}

/// Where every category is hidden, the sitemap lists no category.
pub proof fn lemma_hidden_categories_stay_out(
    site: Seq<char>,
    categories: Seq<CategoryView>,
    posts: Seq<PostMetadataView>,
    per_page: nat,
    n: int,
)
    requires
        0 <= n <= categories.len(),
        forall|i: int| 0 <= i < n ==> (#[trigger] categories[i]).hidden,
    ensures
        category_entries(site, categories, posts, per_page, n).len() == 0,
    decreases n,
{
    if n > 0 {
        lemma_hidden_categories_stay_out(site, categories, posts, per_page, n - 1);
        assert(categories[n - 1].hidden);
    }
}

/// A hidden category adds nothing to the sitemap.
pub proof fn lemma_hidden_category_adds_nothing(
    site: Seq<char>,
    categories: Seq<CategoryView>,
    posts: Seq<PostMetadataView>,
    per_page: nat,
    n: int,
)
    requires
        0 < n <= categories.len(),
        categories[n - 1].hidden,
    ensures
        category_entries(site, categories, posts, per_page, n) == category_entries(
            site,
            categories,
            posts,
            per_page,
            n - 1,
        ),
{
}

fn plain(loc: Vec<char>, changefreq: &str, priority: u8) -> (r: SitemapUrl)
    ensures
        r@ == plain_url(loc@, changefreq@, priority),
{
    SitemapUrl {
        loc: string_of(&loc),
        lastmod: None,
        changefreq: Some(owned(changefreq)),
        priority: Some(priority),
    }
}

fn add_listing(
    urls: &mut Vec<SitemapUrl>,
    base: &Vec<char>,
    count: usize,
    per_page: usize,
    priority: u8,
    page_priority: u8,
)
    ensures
        url_views(final(urls)@) == url_views(old(urls)@) + listing_entries(
            base@,
            count as nat,
            per_page as nat,
            priority,
            page_priority,
        ),
{
    let ghost start = url_views(urls@);
    let own = plain(base.clone(), "weekly", priority);
    urls.push(own);
    assert(url_views(urls@) =~= start.push(plain_url(base@, "weekly"@, priority)));
    let pages = total_pages(count, per_page);
    let mut page: usize = 1;
    assert(later_pages(base@, 1, page_priority) =~= Seq::<SitemapUrlView>::empty());
    while page < pages
        invariant
            1 <= page <= pages,
            url_views(urls@) == start.push(plain_url(base@, "weekly"@, priority)) + later_pages(
                base@,
                page as nat,
                page_priority,
            ),
        decreases pages - page,
    {
        let ghost before = url_views(urls@);
        page += 1;
        let mut loc = base.clone();
        append_str(&mut loc, "page/");
        let digits = decimal_chars(page as u64);
        append(&mut loc, &digits);
        append_str(&mut loc, "/");
        let u = plain(loc, "weekly", page_priority);
        urls.push(u);
        assert(url_views(urls@) =~= before.push(u@));
    }
    assert(url_views(urls@) =~= start + listing_entries(
        base@,
        count as nat,
        per_page as nat,
        priority,
        page_priority,
    ));
}

pub struct SitemapGenerator {}

impl SitemapGenerator {
    /// Adds the homepage.
    pub fn add_homepage(urls: &mut Vec<SitemapUrl>, config: &SsgConfig)
        ensures
            url_views(final(urls)@) == url_views(old(urls)@).push(homepage_url(config.site.url@)),
    {
        let u = plain(chars_of(config.site.url.as_str()), "daily", 10);
        urls.push(u);
        assert(url_views(urls@) =~= url_views(old(urls)@).push(u@));
    }

    /// Adds the visible posts.
    pub fn add_posts(urls: &mut Vec<SitemapUrl>, config: &SsgConfig, metadata: &MetadataCache)
        ensures
            url_views(final(urls)@) == url_views(old(urls)@) + post_entries(
                config.site.url@,
                metadata.post_views(),
                metadata.posts.len() as int,
            ),
    {
        let ghost start = url_views(urls@);
        let ghost all = metadata.post_views();
        let mut i: usize = 0;
        assert(start + post_entries(config.site.url@, all, 0) =~= start);
        while i < metadata.posts.len()
            invariant
                i <= metadata.posts.len(),
                all == metadata.post_views(),
                url_views(urls@) == start + post_entries(config.site.url@, all, i as int),
            decreases metadata.posts.len() - i,
        {
            let ghost before = url_views(urls@);
            let post = &metadata.posts[i];
            assert(all[i as int] == post@);
            if !post.frontmatter.hidden {
                let mut loc = chars_of(config.site.url.as_str());
                append_str(&mut loc, "/");
                append_str(&mut loc, encode_for_url(post.category.as_str()).as_str());
                append_str(&mut loc, "/");
                append_str(&mut loc, encode_for_url(post.slug.as_str()).as_str());
                append_str(&mut loc, "/");
                let u = SitemapUrl {
                    loc: string_of(&loc),
                    lastmod: Some(post.frontmatter.date.last_changed().to_rfc3339()),
                    changefreq: Some(owned("monthly")),
                    priority: Some(8),
                };
                urls.push(u);
                assert(url_views(urls@) =~= before.push(post_entry(config.site.url@, post@)));
            }
            i += 1;
        }
    }

    /// Adds the visible categories and the pages of their listings.
    pub fn add_categories(urls: &mut Vec<SitemapUrl>, config: &SsgConfig, metadata: &MetadataCache)
        ensures
            url_views(final(urls)@) == url_views(old(urls)@) + category_entries(
                config.site.url@,
                category_views(metadata.category_info@),
                metadata.post_views(),
                config.build.posts_per_page as nat,
                metadata.category_info.len() as int,
            ),
    {
        let ghost start = url_views(urls@);
        let ghost cats = category_views(metadata.category_info@);
        let ghost site = config.site.url@;
        let ghost per_page = config.build.posts_per_page as nat;
        let mut i: usize = 0;
        assert(start + category_entries(site, cats, metadata.post_views(), per_page, 0) =~= start);
        while i < metadata.category_info.len()
            invariant
                i <= metadata.category_info.len(),
                cats == category_views(metadata.category_info@),
                site == config.site.url@,
                per_page == config.build.posts_per_page as nat,
                url_views(urls@) == start + category_entries(
                    site,
                    cats,
                    metadata.post_views(),
                    per_page,
                    i as int,
                ),
            decreases metadata.category_info.len() - i,
        {
            let ghost before = url_views(urls@);
            let ghost done = category_entries(site, cats, metadata.post_views(), per_page, i as int);
            let category = &metadata.category_info[i];
            assert(cats[i as int] == category@);
            if !category.hidden {
                let mut base = chars_of(config.site.url.as_str());
                append_str(&mut base, "/");
                append_str(&mut base, encode_for_url(category.slug.as_str()).as_str());
                append_str(&mut base, "/");
                let count = metadata.get_posts_by_category_tree(category.slug.as_str()).len();
                add_listing(urls, &base, count, config.build.posts_per_page, 7, 5);
                assert(url_views(urls@) =~= start + (done + listing_entries(
                    base@,
                    count as nat,
                    per_page,
                    7,
                    5,
                )));
            }
            i += 1;
        }
    }

    /// Adds the overview of the tags, the tags, and the pages of their
    /// listings.
    pub fn add_tags(urls: &mut Vec<SitemapUrl>, config: &SsgConfig, metadata: &MetadataCache)
        ensures
            url_views(final(urls)@) == url_views(old(urls)@).push(
                plain_url(config.site.url@ + "/tags/"@, "weekly"@, 6),
            ) + tag_entries(
                config.site.url@,
                names_of(count_views(metadata.tags@)),
                metadata.post_views(),
                config.build.posts_per_page as nat,
                metadata.tags.len() as int,
            ),
    {
        let mut overview = chars_of(config.site.url.as_str());
        append_str(&mut overview, "/tags/");
        let u = plain(overview, "weekly", 6);
        urls.push(u);
        assert(url_views(urls@) =~= url_views(old(urls)@).push(u@));
        let ghost start = url_views(urls@);
        let ghost site = config.site.url@;
        let ghost per_page = config.build.posts_per_page as nat;
        let tags = metadata.get_tags();
        let ghost names = str_views(tags@);
        assert(names.len() == metadata.tags.len());
        let mut i: usize = 0;
        assert(start + tag_entries(site, names, metadata.post_views(), per_page, 0) =~= start);
        while i < tags.len()
            invariant
                i <= tags.len(),
                names == str_views(tags@),
                site == config.site.url@,
                per_page == config.build.posts_per_page as nat,
                url_views(urls@) == start + tag_entries(
                    site,
                    names,
                    metadata.post_views(),
                    per_page,
                    i as int,
                ),
            decreases tags.len() - i,
        {
            let ghost done = tag_entries(site, names, metadata.post_views(), per_page, i as int);
            let tag = &tags[i];
            assert(names[i as int] == tag@);
            let mut base = chars_of(config.site.url.as_str());
            append_str(&mut base, "/tags/");
            append_str(&mut base, encode_for_url(tag.as_str()).as_str());
            append_str(&mut base, "/");
            let count = metadata.get_posts_by_tag(tag.as_str()).len();
            add_listing(urls, &base, count, config.build.posts_per_page, 5, 4);
            assert(url_views(urls@) =~= start + (done + listing_entries(
                base@,
                count as nat,
                per_page,
                5,
                4,
            )));
            i += 1;
        }
    }

    /// Adds the pages with the given slugs.
    pub fn add_pages(urls: &mut Vec<SitemapUrl>, config: &SsgConfig, slugs: &Vec<String>)
        ensures
            url_views(final(urls)@) == url_views(old(urls)@) + page_entries(
                config.site.url@,
                str_views(slugs@),
                slugs.len() as int,
            ),
    {
        let ghost start = url_views(urls@);
        let ghost names = str_views(slugs@);
        let mut i: usize = 0;
        assert(start + page_entries(config.site.url@, names, 0) =~= start);
        while i < slugs.len()
            invariant
                i <= slugs.len(),
                names == str_views(slugs@),
                url_views(urls@) == start + page_entries(config.site.url@, names, i as int),
            decreases slugs.len() - i,
        {
            let ghost before = url_views(urls@);
            assert(names[i as int] == slugs@[i as int]@);
            let mut loc = chars_of(config.site.url.as_str());
            append_str(&mut loc, "/");
            append_str(&mut loc, encode_for_url(slugs[i].as_str()).as_str());
            append_str(&mut loc, "/");
            let u = plain(loc, "monthly", 6);
            urls.push(u);
            assert(url_views(urls@) =~= before.push(u@));
            i += 1;
        }
    }

    /// Escapes text for XML.
    pub fn escape_xml(s: &str) -> (r: String)
        ensures
            r@ == xml_escaped(s@),
    {
        crate::text::escape_str(s, "&apos;")
    }

    fn push_optional(out: &mut Vec<char>, value: &Option<String>, open: &str, close: &str)
        ensures
            final(out)@ == old(out)@ + optional_element(opt_chars(*value), open@, close@),
    {
        let ghost start = out@;
        match value {
            Some(v) => {
                append_str(out, open);
                append_str(out, v.as_str());
                append_str(out, close);
                assert(out@ =~= start + (open@ + v@ + close@));
            },
            None => {
                assert(start + Seq::<char>::empty() =~= start);
            },
        }
    }

    fn push_url(out: &mut Vec<char>, url: &SitemapUrl)
        ensures
            final(out)@ == old(out)@ + url_element(url@),
    {
        let ghost start = out@;
        append_str(out, "  <url>\n    <loc>");
        crate::text::escape_into(out, &chars_of(url.loc.as_str()), "&apos;");
        append_str(out, "</loc>\n");
        Self::push_optional(out, &url.lastmod, "    <lastmod>", "</lastmod>\n");
        Self::push_optional(out, &url.changefreq, "    <changefreq>", "</changefreq>\n");
        let priority: Option<String> = match url.priority {
            Some(p) => {
                let mut text = decimal_chars((p / 10) as u64);
                append_str(&mut text, ".");
                let digit = decimal_chars((p % 10) as u64);
                append(&mut text, &digit);
                Some(string_of(&text))
            },
            None => None,
        };
        Self::push_optional(out, &priority, "    <priority>", "</priority>\n");
        append_str(out, "  </url>\n");
        assert(out@ =~= start + url_element(url@));
    }

    /// The sitemap document with the given addresses.
    pub fn build_sitemap_xml(urls: &Vec<SitemapUrl>) -> (r: String)
        ensures
            r@ == sitemap_xml(url_views(urls@)),
    {
        let mut out = chars_of(
            "<?xml version=\"1.0\" encoding=\"UTF-8\"?>\n<urlset xmlns=\"http://www.sitemaps.org/schemas/sitemap/0.9\">\n",
        );
        let ghost head = out@;
        let ghost all = url_views(urls@);
        let mut i: usize = 0;
        assert(all.take(0) =~= Seq::<SitemapUrlView>::empty());
        assert(head + Seq::<char>::empty() =~= head);
        while i < urls.len()
            invariant
                i <= urls.len(),
                all == url_views(urls@),
                out@ == head + url_elements(all.take(i as int)),
            decreases urls.len() - i,
        {
            let ghost done = url_elements(all.take(i as int));
            assert(all.take(i + 1).drop_last() =~= all.take(i as int));
            assert(all.take(i + 1).last() == urls@[i as int]@);
            Self::push_url(&mut out, &urls[i]);
            assert(out@ =~= head + (done + url_element(urls@[i as int]@)));
            i += 1;
        }
        assert(all.take(urls.len() as int) =~= all);
        append_str(&mut out, "</urlset>\n");
        string_of(&out)
    }

    /// The addresses of a site's sitemap. No hidden post and no hidden
    /// category is among them.
    pub fn collect(config: &SsgConfig, metadata: &MetadataCache, page_slugs: &Vec<String>) -> (r:
        Vec<SitemapUrl>)
        ensures
            url_views(r@) == sitemap_entries(
                config.site.url@,
                config.build.posts_per_page as nat,
                metadata.post_views(),
                category_views(metadata.category_info@),
                names_of(count_views(metadata.tags@)),
                str_views(page_slugs@),
            ),
    {
        let mut urls: Vec<SitemapUrl> = Vec::new();
        assert(url_views(urls@) =~= Seq::<SitemapUrlView>::empty());
        Self::add_homepage(&mut urls, config);
        assert(url_views(urls@) =~= seq![homepage_url(config.site.url@)]);
        Self::add_posts(&mut urls, config, metadata);
        Self::add_categories(&mut urls, config, metadata);
        let ghost before_tags = url_views(urls@);
        Self::add_tags(&mut urls, config, metadata);
        assert(before_tags.push(plain_url(config.site.url@ + "/tags/"@, "weekly"@, 6))
            =~= before_tags + seq![plain_url(config.site.url@ + "/tags/"@, "weekly"@, 6)]);
        Self::add_pages(&mut urls, config, page_slugs);
        urls
    }

    /// The sitemap document of a site.
    pub fn generate(config: &SsgConfig, metadata: &MetadataCache, page_slugs: &Vec<String>) -> (r:
        String)
        ensures
            r@ == sitemap_xml(
                sitemap_entries(
                    config.site.url@,
                    config.build.posts_per_page as nat,
                    metadata.post_views(),
                    category_views(metadata.category_info@),
                    names_of(count_views(metadata.tags@)),
                    str_views(page_slugs@),
                ),
            ),
    {
        let urls = Self::collect(config, metadata, page_slugs);
        Self::build_sitemap_xml(&urls)
    }
}

} // verus!
