//! The feeds of a site: RSS for the whole site and for every category, and
//! Atom for the whole site.

use crate::config::SsgConfig;
use crate::metadata::{
    by_recency, count_views, first, in_tree, lemma_listing_shows_no_hidden, names_of, ref_views,
    select, sort_by_recency, MetadataCache, PostMetadata, PostMetadataView, Selection,
};
use crate::sitemap::xml_escaped;
use crate::text::{
    append, append_str, chars_of, escape_into, opt_chars, owned, str_eq, str_views, string_of,
};
use crate::types::{
    category_views, rfc2822, rfc3339, text_or_empty, Category, CategoryView, Post, PostView,
    Timestamp, FIRST_FOUR_DIGIT_SECOND, LAST_FOUR_DIGIT_SECOND,
};
use vstd::prelude::*;

verus! {

/// The number of posts that a feed holds at most.
pub const FEED_POSTS_COUNT: usize = 10;

/// The HTML that `pulldown_cmark::html::push_html` writes for a Markdown
/// document, every extension switched on.
pub uninterp spec fn plain_html(markdown: Seq<char>) -> Seq<char>;

/// Renders Markdown as plain HTML (`pulldown_cmark::Parser::new_ext` with
/// `Options::all`, then `pulldown_cmark::html::push_html`). The HTML
/// depends on the document alone and is named, not stated.
#[verifier::external_body]
fn push_plain_html(markdown: &str) -> (r: String)
    ensures
        r@ == plain_html(markdown@),
{
    let mut html = String::new();
    pulldown_cmark::html::push_html(
        &mut html,
        pulldown_cmark::Parser::new_ext(markdown, pulldown_cmark::Options::all()),
    );
    html
}

/// Why a feed could not be written.
#[derive(Debug)]
pub enum FeedError {
    /// The index lists a post that is not among the posts read from disk.
    PostNotFound(String),
}

/// A file to write: its path below the output directory, and its content.
#[derive(Debug)]
pub struct GeneratedFile {
    pub path: String,
    pub content: String,
}

/// A date as RSS writes it; empty where it cannot be written.
pub open spec fn rss_date(t: Timestamp) -> Seq<char> {
    if FIRST_FOUR_DIGIT_SECOND <= t.secs <= LAST_FOUR_DIGIT_SECOND {
        text_or_empty(rfc2822(t.secs as int, t.nanos as int))
    } else {
        Seq::empty()
    }
}

/// A date as Atom writes it; empty where it cannot be written.
pub open spec fn atom_date(t: Timestamp) -> Seq<char> {
    text_or_empty(rfc3339(t.secs as int, t.nanos as int))
}

/// The elements that name the tags of an RSS item, one to a line.
pub open spec fn rss_tags(tags: Seq<Seq<char>>) -> Seq<char>
    decreases tags.len(),
{
    if tags.len() == 0 {
        Seq::empty()
    } else {
        rss_tags(tags.drop_last()) + "\n        <category><![CDATA["@ + tags.last()
            + "]]></category>"@
    }
}

/// What a feed says a post is about: its description, or else its title.
pub open spec fn summary_of(post: PostView) -> Seq<char> {
    match post.frontmatter.description {
        Some(d) => d,
        None => post.frontmatter.title,
    }
}

/// The item that stands for a post in an RSS feed.
pub open spec fn rss_item(site: Seq<char>, author: Seq<char>, category_name: Seq<char>, post: PostView) -> Seq<
    char,
> {
    let url = site + "/"@ + post.category + "/"@ + post.slug;
    "    <item>\n        <title>"@ + xml_escaped(post.frontmatter.title)
        + "</title>\n        <link>"@ + url + "</link>\n        <dc:creator><![CDATA["@ + author
        + "]]></dc:creator>\n        <pubDate>"@ + rss_date(post.frontmatter.date.posted)
        + "</pubDate>\n        <category><![CDATA["@ + category_name + "]]></category>"@
        + rss_tags(post.frontmatter.tags) + "\n        <guid isPermaLink=\"false\">"@ + url
        + "</guid>\n        <description><![CDATA["@ + xml_escaped(summary_of(post))
        + "]]></description>\n        <content:encoded><![CDATA["@ + plain_html(post.content)
        + "]]></content:encoded>\n    </item>"@
}

/// An RSS document.
pub open spec fn rss_document(
    title: Seq<char>,
    description: Seq<char>,
    feed_url: Seq<char>,
    link: Seq<char>,
    built: Seq<char>,
    items: Seq<char>,
) -> Seq<char> {
    "<?xml version=\"1.0\" encoding=\"UTF-8\"?>\n<rss version=\"2.0\" xmlns:content=\"http://purl.org/rss/1.0/modules/content/\" xmlns:wfw=\"http://wellformedweb.org/CommentAPI/\" xmlns:dc=\"http://purl.org/dc/elements/1.1/\" xmlns:atom=\"http://www.w3.org/2005/Atom\" xmlns:sy=\"http://purl.org/rss/1.0/modules/syndication/\" xmlns:slash=\"http://purl.org/rss/1.0/modules/slash/\"\n>\n<channel>\n    <title>"@
        + xml_escaped(title) + "</title>\n    <description>"@ + xml_escaped(description)
        + "</description>\n    <language>ko-KR</language>\n    <atom:link href=\""@ + feed_url
        + "\" rel=\"self\" type=\"application/rss+xml\" />\n    <link>"@ + link
        + "</link>\n    <lastBuildDate>"@ + built
        + "</lastBuildDate>\n    <sy:updatePeriod>hourly</sy:updatePeriod>\n    <sy:updateFrequency>1</sy:updateFrequency>\n"@
        + items + "\n</channel>\n</rss>\n"@
}

/// The elements that name the tags of an Atom entry, one to a line.
pub open spec fn atom_tags(tags: Seq<Seq<char>>) -> Seq<char>
    decreases tags.len(),
{
    if tags.len() == 0 {
        Seq::empty()
    } else if tags.len() == 1 {
        "    <category term=\""@ + xml_escaped(tags[0]) + "\" />"@
    } else {
        atom_tags(tags.drop_last()) + "\n"@ + "    <category term=\""@ + xml_escaped(tags.last())
            + "\" />"@
    }
}

/// The entry that stands for a post in an Atom feed.
pub open spec fn atom_entry(site: Seq<char>, author: Seq<char>, post: PostView) -> Seq<char> {
    let url = site + "/"@ + post.category + "/"@ + post.slug + "/"@;
    "  <entry>\n    <title>"@ + xml_escaped(post.frontmatter.title) + "</title>\n    <link href=\""@
        + url + "\" rel=\"alternate\" type=\"text/html\" />\n    <id>"@ + url
        + "</id>\n    <published>"@ + atom_date(post.frontmatter.date.posted)
        + "</published>\n    <updated>"@ + atom_date(post.frontmatter.date.last_change())
        + "</updated>\n    <author>\n      <name>"@ + xml_escaped(author)
        + "</name>\n    </author>\n    <summary type=\"text\">"@ + xml_escaped(summary_of(post))
        + "</summary>\n    <content type=\"html\"><![CDATA["@ + plain_html(post.content)
        + "]]></content>\n"@ + atom_tags(post.frontmatter.tags) + "\n  </entry>"@
}

/// An Atom document.
pub open spec fn atom_document(
    title: Seq<char>,
    subtitle: Seq<char>,
    site: Seq<char>,
    updated: Seq<char>,
    author: Seq<char>,
    entries: Seq<char>,
) -> Seq<char> {
    "<?xml version=\"1.0\" encoding=\"UTF-8\"?>\n<feed xmlns=\"http://www.w3.org/2005/Atom\" xml:lang=\"ko\">\n  <title>"@
        + xml_escaped(title) + "</title>\n  <subtitle>"@ + xml_escaped(subtitle)
        + "</subtitle>\n  <link href=\""@ + site
        + "/atom.xml\" rel=\"self\" type=\"application/atom+xml\" />\n  <link href=\""@ + site
        + "\" rel=\"alternate\" type=\"text/html\" />\n  <id>"@ + site + "</id>\n  <updated>"@
        + updated + "</updated>\n  <author>\n    <name>"@ + xml_escaped(author)
        + "</name>\n  </author>\n"@ + entries + "\n</feed>\n"@
}

/// The name under which a category is shown: the one that its metadata
/// gives, or else its slug.
pub open spec fn category_name(categories: Seq<CategoryView>, slug: Seq<char>, from: int) -> Seq<
    char,
>
    decreases categories.len() - from,
{
    if from < 0 || from >= categories.len() {
        slug
    } else if categories[from].slug == slug {
        categories[from].name
    } else {
        category_name(categories, slug, from + 1)
    }
}

/// The description of a category: the one that its metadata gives, where
/// it gives one that is not empty.
pub open spec fn category_description(categories: Seq<CategoryView>, slug: Seq<char>, from: int) -> Option<
    Seq<char>,
>
    decreases categories.len() - from,
{
    if from < 0 || from >= categories.len() {
        None
    } else if categories[from].slug == slug {
        if categories[from].description.len() > 0 {
            Some(categories[from].description)
        } else {
            None
        }
    } else {
        category_description(categories, slug, from + 1)
    }
}

/// The index of the first post with the given slug.
pub open spec fn source_index(posts: Seq<Post>, slug: Seq<char>, from: int) -> Option<int>
    decreases posts.len() - from,
{
    if from < 0 || from >= posts.len() {
        None
    } else if posts[from].slug@ == slug {
        Some(from)
    } else {
        source_index(posts, slug, from + 1)
    }
}

/// The name of the category of a feed's items: the one that the feed
/// fixes, or else the name of the post's own category.
pub open spec fn item_category(
    fixed: Option<Seq<char>>,
    categories: Seq<CategoryView>,
    post: PostView,
) -> Seq<char> {
    match fixed {
        Some(name) => name,
        None => category_name(categories, post.category, 0),
    }
}

/// The items of the first `n` listed posts, one to a line, each written
/// from the post with its slug as read from disk. Where a post was not
/// read, the result is the slug of the first such post.
pub open spec fn rss_items(
    site: Seq<char>,
    author: Seq<char>,
    categories: Seq<CategoryView>,
    fixed: Option<Seq<char>>,
    listed: Seq<PostMetadataView>,
    sources: Seq<Post>,
    n: int,
) -> Result<Seq<char>, Seq<char>>
    decreases n,
{
    if n <= 0 || n > listed.len() {
        Ok(Seq::empty())
    } else {
        match rss_items(site, author, categories, fixed, listed, sources, n - 1) {
            Err(slug) => Err(slug),
            Ok(before) => match source_index(sources, listed[n - 1].slug, 0) {
                None => Err(listed[n - 1].slug),
                Some(k) => Ok(
                    before + line_break(n) + rss_item(
                        site,
                        author,
                        item_category(fixed, categories, sources[k]@),
                        sources[k]@,
                    ),
                ),
            },
        }
    }
}

/// What separates the `n`-th item from the one before it.
pub open spec fn line_break(n: int) -> Seq<char> {
    if n > 1 {
        "\n"@
    } else {
        Seq::empty()
    }
}

/// The entries of the first `n` listed posts, one to a line, each written
/// from the post with its slug as read from disk. Where a post was not
/// read, the result is the slug of the first such post.
pub open spec fn atom_entries(
    site: Seq<char>,
    author: Seq<char>,
    listed: Seq<PostMetadataView>,
    sources: Seq<Post>,
    n: int,
) -> Result<Seq<char>, Seq<char>>
    decreases n,
{
    if n <= 0 || n > listed.len() {
        Ok(Seq::empty())
    } else {
        match atom_entries(site, author, listed, sources, n - 1) {
            Err(slug) => Err(slug),
            Ok(before) => match source_index(sources, listed[n - 1].slug, 0) {
                None => Err(listed[n - 1].slug),
                Some(k) => Ok(before + line_break(n) + atom_entry(site, author, sources[k]@)),
            },
        }
    }
}

/// The posts of the site's feeds: the newest visible posts.
pub open spec fn feed_posts(posts: Seq<PostMetadataView>) -> Seq<PostMetadataView> {
    first(by_recency(select(posts, Selection::Visible)), FEED_POSTS_COUNT as nat)
}

/// The posts of a category's feed: the newest visible posts of the
/// category and of those below it.
pub open spec fn category_feed_posts(posts: Seq<PostMetadataView>, slug: Seq<char>) -> Seq<
    PostMetadataView,
> {
    first(by_recency(select(posts, Selection::CategoryTree(slug))), FEED_POSTS_COUNT as nat)
}

/// The feeds carry visible posts only, at most `FEED_POSTS_COUNT` each, and
/// a category's feed only posts of the category and of those below it.
pub proof fn lemma_feeds_show_no_hidden(posts: Seq<PostMetadataView>, slug: Seq<char>)
    ensures
        feed_posts(posts).len() <= FEED_POSTS_COUNT,
        category_feed_posts(posts, slug).len() <= FEED_POSTS_COUNT,
        forall|p: PostMetadataView| #[trigger]
            feed_posts(posts).contains(p) ==> posts.contains(p) && !p.frontmatter.hidden,
        forall|p: PostMetadataView| #[trigger]
            category_feed_posts(posts, slug).contains(p) ==> posts.contains(p)
                && !p.frontmatter.hidden && in_tree(p.category, slug),
{
    lemma_listing_shows_no_hidden(posts, Selection::Visible, FEED_POSTS_COUNT as nat);
    lemma_listing_shows_no_hidden(posts, Selection::CategoryTree(slug), FEED_POSTS_COUNT as nat);
}

/// The RSS feed of the whole site; `None` where it has no visible post,
/// the slug of a post that was not read where there is one.
pub open spec fn global_feed(config: SsgConfig, metadata: MetadataCache, sources: Seq<Post>, now: Timestamp) -> Result<
    Option<Seq<char>>,
    Seq<char>,
> {
    let listed = feed_posts(metadata.post_views());
    if listed.len() == 0 {
        Ok(None)
    } else {
        match rss_items(
            config.site.url@,
            config.site.author@,
            category_views(metadata.category_info@),
            None,
            listed,
            sources,
            listed.len() as int,
        ) {
            Err(slug) => Err(slug),
            Ok(items) => Ok(
                Some(
                    rss_document(
                        config.site.title@,
                        config.site.description@,
                        config.site.url@ + "/feed.xml"@,
                        config.site.url@,
                        rss_date(now),
                        items,
                    ),
                ),
            ),
        }
    }
}

/// The title of a category's feed.
pub open spec fn category_feed_title(site_title: Seq<char>, name: Seq<char>) -> Seq<char> {
    site_title + " - "@ + name
}

/// The description of a category's feed: that of the category, or else a
/// sentence made of its name.
pub open spec fn category_feed_description(
    categories: Seq<CategoryView>,
    slug: Seq<char>,
    site_title: Seq<char>,
) -> Seq<char> {
    match category_description(categories, slug, 0) {
        Some(d) => d,
        None => category_name(categories, slug, 0) + " posts from "@ + site_title,
    }
}

/// The RSS feed of one category; `None` where it has no visible post, the
/// slug of a post that was not read where there is one.
pub open spec fn category_feed(
    config: SsgConfig,
    metadata: MetadataCache,
    sources: Seq<Post>,
    slug: Seq<char>,
    now: Timestamp,
) -> Result<Option<Seq<char>>, Seq<char>> {
    let listed = category_feed_posts(metadata.post_views(), slug);
    let categories = category_views(metadata.category_info@);
    let name = category_name(categories, slug, 0);
    if listed.len() == 0 {
        Ok(None)
    } else {
        match rss_items(
            config.site.url@,
            config.site.author@,
            categories,
            Some(name),
            listed,
            sources,
            listed.len() as int,
        ) {
            Err(missing) => Err(missing),
            Ok(items) => Ok(
                Some(
                    rss_document(
                        category_feed_title(config.site.title@, name),
                        category_feed_description(categories, slug, config.site.title@),
                        config.site.url@ + "/"@ + slug + "/"@ + "feed.xml"@,
                        config.site.url@ + "/"@ + slug + "/"@,
                        rss_date(now),
                        items,
                    ),
                ),
            ),
        }
    }
}

/// The Atom feed of the whole site; `None` where it has no visible post,
/// the slug of a post that was not read where there is one.
pub open spec fn global_atom_feed(
    config: SsgConfig,
    metadata: MetadataCache,
    sources: Seq<Post>,
    now: Timestamp,
) -> Result<Option<Seq<char>>, Seq<char>> {
    let listed = feed_posts(metadata.post_views());
    if listed.len() == 0 {
        Ok(None)
    } else {
        match atom_entries(config.site.url@, config.site.author@, listed, sources, listed.len() as int) {
            Err(slug) => Err(slug),
            Ok(entries) => Ok(
                Some(
                    atom_document(
                        config.site.title@,
                        config.site.description@,
                        config.site.url@,
                        atom_date(now),
                        config.site.author@,
                        entries,
                    ),
                ),
            ),
        }
    }
}

/// Whether a generated file is what a feed is: absent where the feed is,
/// at `path` with the feed as content otherwise.
pub open spec fn is_feed_file(
    r: Result<Option<GeneratedFile>, FeedError>,
    feed: Result<Option<Seq<char>>, Seq<char>>,
    path: Seq<char>,
) -> bool {
    match r {
        Ok(None) => feed == Ok::<Option<Seq<char>>, Seq<char>>(None),
        Ok(Some(f)) => feed == Ok::<Option<Seq<char>>, Seq<char>>(Some(f.content@)) && f.path@
            == path,
        Err(FeedError::PostNotFound(slug)) => feed == Err::<Option<Seq<char>>, Seq<char>>(slug@),
    }
}

pub struct FeedGenerator {}

impl FeedGenerator {
    /// Renders Markdown as plain HTML.
    pub fn render_markdown_simple(markdown: &str) -> (r: String)
        ensures
            r@ == plain_html(markdown@),
    {
        push_plain_html(markdown)
    }

    /// Escapes text for XML.
    pub fn escape_xml(s: &str) -> (r: String)
        ensures
            r@ == xml_escaped(s@),
    {
        crate::text::escape_str(s, "&apos;")
    }

    fn push_xml(out: &mut Vec<char>, text: &str)
        ensures
            final(out)@ == old(out)@ + xml_escaped(text@),
    {
        escape_into(out, &chars_of(text), "&apos;");
    }

    fn find_source<'a>(posts: &'a Vec<Post>, slug: &str) -> (r: Option<&'a Post>)
        ensures
            match r {
                Some(p) => source_index(posts@, slug@, 0) is Some && *p
                    == posts@[source_index(posts@, slug@, 0)->0],
                None => source_index(posts@, slug@, 0) is None,
            },
    {
        let mut i: usize = 0;
        while i < posts.len()
            invariant
                i <= posts.len(),
                source_index(posts@, slug@, 0) == source_index(posts@, slug@, i as int),
            decreases posts.len() - i,
        {
            if str_eq(posts[i].slug.as_str(), slug) {
                return Some(&posts[i]);
            }
            i += 1;
        }
        None
    }

    fn name_of(categories: &Vec<Category>, slug: &str) -> (r: String)
        ensures
            r@ == category_name(category_views(categories@), slug@, 0),
    {
        let ghost all = category_views(categories@);
        let mut i: usize = 0;
        while i < categories.len()
            invariant
                i <= categories.len(),
                all == category_views(categories@),
                category_name(all, slug@, 0) == category_name(all, slug@, i as int),
            decreases categories.len() - i,
        {
            assert(all[i as int] == categories@[i as int]@);
            if str_eq(categories[i].slug.as_str(), slug) {
                return categories[i].name.clone();
            }
            i += 1;
        }
        owned(slug)
    }

    fn description_of(categories: &Vec<Category>, slug: &str) -> (r: Option<String>)
        ensures
            opt_chars(r) == category_description(category_views(categories@), slug@, 0),
    {
        let ghost all = category_views(categories@);
        let mut i: usize = 0;
        while i < categories.len()
            invariant
                i <= categories.len(),
                all == category_views(categories@),
                category_description(all, slug@, 0) == category_description(
                    all,
                    slug@,
                    i as int,
                ),
            decreases categories.len() - i,
        {
            assert(all[i as int] == categories@[i as int]@);
            if str_eq(categories[i].slug.as_str(), slug) {
                if chars_of(categories[i].description.as_str()).len() > 0 {
                    return Some(categories[i].description.clone());
                }
                return None;
            }
            i += 1;
        }
        None
    }

    fn push_rss_tags(out: &mut Vec<char>, tags: &Vec<String>)
        ensures
            final(out)@ == old(out)@ + rss_tags(str_views(tags@)),
    {
        let ghost start = out@;
        let ghost all = str_views(tags@);
        let mut i: usize = 0;
        assert(all.take(0) =~= Seq::<Seq<char>>::empty());
        assert(start + Seq::<char>::empty() =~= start);
        while i < tags.len()
            invariant
                i <= tags.len(),
                all == str_views(tags@),
                out@ == start + rss_tags(all.take(i as int)),
            decreases tags.len() - i,
        {
            let ghost done = rss_tags(all.take(i as int));
            assert(all.take(i + 1).drop_last() =~= all.take(i as int));
            assert(all.take(i + 1).last() == tags@[i as int]@);
            append_str(out, "\n        <category><![CDATA[");
            append_str(out, tags[i].as_str());
            append_str(out, "]]></category>");
            assert(out@ =~= start + (done + "\n        <category><![CDATA["@ + tags@[i as int]@
                + "]]></category>"@));
            i += 1;
        }
        assert(all.take(tags.len() as int) =~= all);
    }

    fn push_atom_tags(out: &mut Vec<char>, tags: &Vec<String>)
        ensures
            final(out)@ == old(out)@ + atom_tags(str_views(tags@)),
    {
        let ghost start = out@;
        let ghost all = str_views(tags@);
        let mut i: usize = 0;
        assert(all.take(0) =~= Seq::<Seq<char>>::empty());
        assert(start + Seq::<char>::empty() =~= start);
        while i < tags.len()
            invariant
                i <= tags.len(),
                all == str_views(tags@),
                out@ == start + atom_tags(all.take(i as int)),
            decreases tags.len() - i,
        {
            let ghost done = atom_tags(all.take(i as int));
            assert(all.take(i + 1).drop_last() =~= all.take(i as int));
            assert(all.take(i + 1).last() == tags@[i as int]@);
            if i > 0 {
                append_str(out, "\n");
            } else {
                assert(all.take(1)[0] == tags@[0]@);
            }
            append_str(out, "    <category term=\"");
            Self::push_xml(out, tags[i].as_str());
            append_str(out, "\" />");
            assert(out@ =~= start + atom_tags(all.take(i + 1)));
            i += 1;
        }
        assert(all.take(tags.len() as int) =~= all);
    }

    /// The item that stands for a post in an RSS feed.
    pub fn rss_item_of(config: &SsgConfig, category_name: &str, post: &Post) -> (r: Vec<char>)
        ensures
            r@ == rss_item(config.site.url@, config.site.author@, category_name@, post@),
    {
        let mut url = chars_of(config.site.url.as_str());
        append_str(&mut url, "/");
        append_str(&mut url, post.category.as_str());
        append_str(&mut url, "/");
        append_str(&mut url, post.slug.as_str());
        let summary: &str = match &post.frontmatter.description {
            Some(d) => d.as_str(),
            None => post.frontmatter.title.as_str(),
        };
        let mut out = chars_of("    <item>\n        <title>");
        Self::push_xml(&mut out, post.frontmatter.title.as_str());
        append_str(&mut out, "</title>\n        <link>");
        append(&mut out, &url);
        append_str(&mut out, "</link>\n        <dc:creator><![CDATA[");
        append_str(&mut out, config.site.author.as_str());
        append_str(&mut out, "]]></dc:creator>\n        <pubDate>");
        append_str(&mut out, post.frontmatter.date.to_rfc2822().as_str());
        append_str(&mut out, "</pubDate>\n        <category><![CDATA[");
        append_str(&mut out, category_name);
        append_str(&mut out, "]]></category>");
        Self::push_rss_tags(&mut out, &post.frontmatter.tags);
        append_str(&mut out, "\n        <guid isPermaLink=\"false\">");
        append(&mut out, &url);
        append_str(&mut out, "</guid>\n        <description><![CDATA[");
        Self::push_xml(&mut out, summary);
        append_str(&mut out, "]]></description>\n        <content:encoded><![CDATA[");
        append_str(&mut out, Self::render_markdown_simple(post.content.as_str()).as_str());
        append_str(&mut out, "]]></content:encoded>\n    </item>");
        assert(out@ =~= rss_item(config.site.url@, config.site.author@, category_name@, post@));
        out
    }

    /// The entry that stands for a post in an Atom feed.
    pub fn atom_entry_of(config: &SsgConfig, post: &Post) -> (r: Vec<char>)
        ensures
            r@ == atom_entry(config.site.url@, config.site.author@, post@),
    {
        let mut url = chars_of(config.site.url.as_str());
        append_str(&mut url, "/");
        append_str(&mut url, post.category.as_str());
        append_str(&mut url, "/");
        append_str(&mut url, post.slug.as_str());
        append_str(&mut url, "/");
        let summary: &str = match &post.frontmatter.description {
            Some(d) => d.as_str(),
            None => post.frontmatter.title.as_str(),
        };
        let mut out = chars_of("  <entry>\n    <title>");
        Self::push_xml(&mut out, post.frontmatter.title.as_str());
        append_str(&mut out, "</title>\n    <link href=\"");
        append(&mut out, &url);
        append_str(&mut out, "\" rel=\"alternate\" type=\"text/html\" />\n    <id>");
        append(&mut out, &url);
        append_str(&mut out, "</id>\n    <published>");
        append_str(&mut out, post.frontmatter.date.posted.to_rfc3339().as_str());
        append_str(&mut out, "</published>\n    <updated>");
        append_str(&mut out, post.frontmatter.date.last_changed().to_rfc3339().as_str());
        append_str(&mut out, "</updated>\n    <author>\n      <name>");
        Self::push_xml(&mut out, config.site.author.as_str());
        append_str(&mut out, "</name>\n    </author>\n    <summary type=\"text\">");
        Self::push_xml(&mut out, summary);
        append_str(&mut out, "</summary>\n    <content type=\"html\"><![CDATA[");
        append_str(&mut out, Self::render_markdown_simple(post.content.as_str()).as_str());
        append_str(&mut out, "]]></content>\n");
        Self::push_atom_tags(&mut out, &post.frontmatter.tags);
        append_str(&mut out, "\n  </entry>");
        assert(out@ =~= atom_entry(config.site.url@, config.site.author@, post@));
        out
    }

    /// An RSS document with the given items.
    pub fn rss_document_of(
        title: &str,
        description: &str,
        feed_url: &str,
        link: &str,
        built: &str,
        items: &Vec<char>,
    ) -> (r: String)
        ensures
            r@ == rss_document(title@, description@, feed_url@, link@, built@, items@),
    {
        let mut out = chars_of(
            "<?xml version=\"1.0\" encoding=\"UTF-8\"?>\n<rss version=\"2.0\" xmlns:content=\"http://purl.org/rss/1.0/modules/content/\" xmlns:wfw=\"http://wellformedweb.org/CommentAPI/\" xmlns:dc=\"http://purl.org/dc/elements/1.1/\" xmlns:atom=\"http://www.w3.org/2005/Atom\" xmlns:sy=\"http://purl.org/rss/1.0/modules/syndication/\" xmlns:slash=\"http://purl.org/rss/1.0/modules/slash/\"\n>\n<channel>\n    <title>",
        );
        Self::push_xml(&mut out, title);
        append_str(&mut out, "</title>\n    <description>");
        Self::push_xml(&mut out, description);
        append_str(
            &mut out,
            "</description>\n    <language>ko-KR</language>\n    <atom:link href=\"",
        );
        append_str(&mut out, feed_url);
        append_str(&mut out, "\" rel=\"self\" type=\"application/rss+xml\" />\n    <link>");
        append_str(&mut out, link);
        append_str(&mut out, "</link>\n    <lastBuildDate>");
        append_str(&mut out, built);
        append_str(
            &mut out,
            "</lastBuildDate>\n    <sy:updatePeriod>hourly</sy:updatePeriod>\n    <sy:updateFrequency>1</sy:updateFrequency>\n",
        );
        append(&mut out, items);
        append_str(&mut out, "\n</channel>\n</rss>\n");
        assert(out@ =~= rss_document(title@, description@, feed_url@, link@, built@, items@));
        string_of(&out)
    }

    /// An Atom document with the given entries.
    pub fn atom_document_of(config: &SsgConfig, updated: &str, entries: &Vec<char>) -> (r: String)
        ensures
            r@ == atom_document(
                config.site.title@,
                config.site.description@,
                config.site.url@,
                updated@,
                config.site.author@,
                entries@,
            ),
    {
        let site = config.site.url.as_str();
        let mut out = chars_of(
            "<?xml version=\"1.0\" encoding=\"UTF-8\"?>\n<feed xmlns=\"http://www.w3.org/2005/Atom\" xml:lang=\"ko\">\n  <title>",
        );
        Self::push_xml(&mut out, config.site.title.as_str());
        append_str(&mut out, "</title>\n  <subtitle>");
        Self::push_xml(&mut out, config.site.description.as_str());
        append_str(&mut out, "</subtitle>\n  <link href=\"");
        append_str(&mut out, site);
        append_str(
            &mut out,
            "/atom.xml\" rel=\"self\" type=\"application/atom+xml\" />\n  <link href=\"",
        );
        append_str(&mut out, site);
        append_str(&mut out, "\" rel=\"alternate\" type=\"text/html\" />\n  <id>");
        append_str(&mut out, site);
        append_str(&mut out, "</id>\n  <updated>");
        append_str(&mut out, updated);
        append_str(&mut out, "</updated>\n  <author>\n    <name>");
        Self::push_xml(&mut out, config.site.author.as_str());
        append_str(&mut out, "</name>\n  </author>\n");
        append(&mut out, entries);
        append_str(&mut out, "\n</feed>\n");
        assert(out@ =~= atom_document(
            config.site.title@,
            config.site.description@,
            config.site.url@,
            updated@,
            config.site.author@,
            entries@,
        ));
        string_of(&out)
    }

    /// The items of the given posts, one to a line, each written from the
    /// post as read from disk. Fails on the first post that was not read.
    fn rss_items_of(
        config: &SsgConfig,
        metadata: &MetadataCache,
        listed: &Vec<&PostMetadata>,
        sources: &Vec<Post>,
        fixed_name: Option<&str>,
    ) -> (r: Result<Vec<char>, FeedError>)
        ensures
            match r {
                Ok(items) => rss_items(
                    config.site.url@,
                    config.site.author@,
                    category_views(metadata.category_info@),
                    match fixed_name {
                        Some(n) => Some(n@),
                        None => None,
                    },
                    ref_views(listed@),
                    sources@,
                    listed.len() as int,
                ) == Ok::<Seq<char>, Seq<char>>(items@),
                Err(FeedError::PostNotFound(slug)) => rss_items(
                    config.site.url@,
                    config.site.author@,
                    category_views(metadata.category_info@),
                    match fixed_name {
                        Some(n) => Some(n@),
                        None => None,
                    },
                    ref_views(listed@),
                    sources@,
                    listed.len() as int,
                ) == Err::<Seq<char>, Seq<char>>(slug@),
            },
    {
        let ghost all = ref_views(listed@);
        let ghost cats = category_views(metadata.category_info@);
        let ghost fixed = match fixed_name {
            Some(n) => Some(n@),
            None => None,
        };
        let mut items: Vec<char> = Vec::new();
        let mut i: usize = 0;
        while i < listed.len()
            invariant
                i <= listed.len(),
                all == ref_views(listed@),
                cats == category_views(metadata.category_info@),
                fixed == match fixed_name {
                    Some(n) => Some(n@),
                    None => None,
                },
                rss_items(
                    config.site.url@,
                    config.site.author@,
                    cats,
                    fixed,
                    all,
                    sources@,
                    i as int,
                ) == Ok::<Seq<char>, Seq<char>>(items@),
            decreases listed.len() - i,
        {
            let ghost before = items@;
            assert(all[i as int] == listed@[i as int]@);
            let post = match Self::find_source(sources, listed[i].slug.as_str()) {
                Some(p) => p,
                None => {
                    proof {
                        lemma_rss_error_stays(
                            config.site.url@,
                            config.site.author@,
                            cats,
                            fixed,
                            all,
                            sources@,
                            i + 1,
                            listed.len() as int,
                        );
                    }
                    return Err(FeedError::PostNotFound(listed[i].slug.clone()));
                },
            };
            let name = match fixed_name {
                Some(n) => owned(n),
                None => Self::name_of(&metadata.category_info, post.category.as_str()),
            };
            if i > 0 {
                append_str(&mut items, "\n");
            }
            let item = Self::rss_item_of(config, name.as_str(), post);
            append(&mut items, &item);
            assert(items@ =~= before + line_break(i + 1) + item@);
            i += 1;
        }
        Ok(items)
    }

    /// The entries of the given posts, one to a line, each written from
    /// the post as read from disk. Fails on the first post that was not
    /// read.
    fn atom_entries_of(config: &SsgConfig, listed: &Vec<&PostMetadata>, sources: &Vec<Post>) -> (r:
        Result<Vec<char>, FeedError>)
        ensures
            match r {
                Ok(entries) => atom_entries(
                    config.site.url@,
                    config.site.author@,
                    ref_views(listed@),
                    sources@,
                    listed.len() as int,
                ) == Ok::<Seq<char>, Seq<char>>(entries@),
                Err(FeedError::PostNotFound(slug)) => atom_entries(
                    config.site.url@,
                    config.site.author@,
                    ref_views(listed@),
                    sources@,
                    listed.len() as int,
                ) == Err::<Seq<char>, Seq<char>>(slug@),
            },
    {
        let ghost all = ref_views(listed@);
        let mut entries: Vec<char> = Vec::new();
        let mut i: usize = 0;
        while i < listed.len()
            invariant
                i <= listed.len(),
                all == ref_views(listed@),
                atom_entries(config.site.url@, config.site.author@, all, sources@, i as int)
                    == Ok::<Seq<char>, Seq<char>>(entries@),
            decreases listed.len() - i,
        {
            let ghost before = entries@;
            assert(all[i as int] == listed@[i as int]@);
            let post = match Self::find_source(sources, listed[i].slug.as_str()) {
                Some(p) => p,
                None => {
                    proof {
                        lemma_atom_error_stays(
                            config.site.url@,
                            config.site.author@,
                            all,
                            sources@,
                            i + 1,
                            listed.len() as int,
                        );
                    }
                    return Err(FeedError::PostNotFound(listed[i].slug.clone()));
                },
            };
            if i > 0 {
                append_str(&mut entries, "\n");
            }
            let entry = Self::atom_entry_of(config, post);
            append(&mut entries, &entry);
            assert(entries@ =~= before + line_break(i + 1) + entry@);
            i += 1;
        }
        Ok(entries)
    }

    /// The RSS feed of the whole site: the newest visible posts. `None`
    /// where the site has no visible post.
    pub fn generate_global_feed(
        config: &SsgConfig,
        metadata: &MetadataCache,
        sources: &Vec<Post>,
        now: Timestamp,
    ) -> (r: Result<Option<GeneratedFile>, FeedError>)
        ensures
            is_feed_file(r, global_feed(*config, *metadata, sources@, now), "feed.xml"@),
    {
        let recent = metadata.get_recent_posts(FEED_POSTS_COUNT);
        if recent.len() == 0 {
            return Ok(None);
        }
        let items = match Self::rss_items_of(config, metadata, &recent, sources, None) {
            Ok(items) => items,
            Err(e) => {
                return Err(e);
            },
        };
        let mut feed_url = chars_of(config.site.url.as_str());
        append_str(&mut feed_url, "/feed.xml");
        let content = Self::rss_document_of(
            config.site.title.as_str(),
            config.site.description.as_str(),
            string_of(&feed_url).as_str(),
            config.site.url.as_str(),
            now.to_rfc2822().as_str(),
            &items,
        );
        Ok(Some(GeneratedFile { path: owned("feed.xml"), content }))
    }

    /// The RSS feed of one category: the newest visible posts of the
    /// category and of those below it. `None` where there is no such post.
    pub fn generate_category_feed(
        config: &SsgConfig,
        metadata: &MetadataCache,
        sources: &Vec<Post>,
        category_slug: &str,
        now: Timestamp,
    ) -> (r: Result<Option<GeneratedFile>, FeedError>)
        ensures
            is_feed_file(
                r,
                category_feed(*config, *metadata, sources@, category_slug@, now),
                category_slug@ + "/feed.xml"@,
            ),
    {
        let listed = metadata.get_posts_by_category_tree(category_slug);
        let mut newest = sort_by_recency(&listed);
        if newest.len() > FEED_POSTS_COUNT {
            let ghost all = ref_views(newest@);
            newest.truncate(FEED_POSTS_COUNT);
            assert(ref_views(newest@) =~= all.take(FEED_POSTS_COUNT as int));
        }
        assert(ref_views(newest@) == category_feed_posts(metadata.post_views(), category_slug@));
        if newest.len() == 0 {
            return Ok(None);
        }
        let name = Self::name_of(&metadata.category_info, category_slug);
        let items = match Self::rss_items_of(config, metadata, &newest, sources, Some(name.as_str())) {
            Ok(items) => items,
            Err(e) => {
                return Err(e);
            },
        };
        let mut base = chars_of(config.site.url.as_str());
        append_str(&mut base, "/");
        append_str(&mut base, category_slug);
        append_str(&mut base, "/");
        let mut feed_url = base.clone();
        append_str(&mut feed_url, "feed.xml");
        let mut title = chars_of(config.site.title.as_str());
        append_str(&mut title, " - ");
        append_str(&mut title, name.as_str());
        let description = match Self::description_of(&metadata.category_info, category_slug) {
            Some(d) => d,
            None => {
                let mut d = chars_of(name.as_str());
                append_str(&mut d, " posts from ");
                append_str(&mut d, config.site.title.as_str());
                string_of(&d)
            },
        };
        let content = Self::rss_document_of(
            string_of(&title).as_str(),
            description.as_str(),
            string_of(&feed_url).as_str(),
            string_of(&base).as_str(),
            now.to_rfc2822().as_str(),
            &items,
        );
        let mut path = chars_of(category_slug);
        append_str(&mut path, "/feed.xml");
        Ok(Some(GeneratedFile { path: string_of(&path), content }))
    }

    /// The Atom feed of the whole site: the newest visible posts. `None`
    /// where the site has no visible post.
    pub fn generate_global_atom_feed(
        config: &SsgConfig,
        metadata: &MetadataCache,
        sources: &Vec<Post>,
        now: Timestamp,
    ) -> (r: Result<Option<GeneratedFile>, FeedError>)
        ensures
            is_feed_file(r, global_atom_feed(*config, *metadata, sources@, now), "atom.xml"@),
    {
        let recent = metadata.get_recent_posts(FEED_POSTS_COUNT);
        if recent.len() == 0 {
            return Ok(None);
        }
        let entries = match Self::atom_entries_of(config, &recent, sources) {
            Ok(entries) => entries,
            Err(e) => {
                return Err(e);
            },
        };
        let content = Self::atom_document_of(config, now.to_rfc3339().as_str(), &entries);
        Ok(Some(GeneratedFile { path: owned("atom.xml"), content }))
    }

    /// All feeds of a site, as files to write: the RSS feed of the site,
    /// one RSS feed for every category that holds a visible post, and the
    /// Atom feed of the site, in this order. `sources` are the posts as
    /// read from disk, `now` is the instant of the build. Fails with the
    /// first feed that fails.
    pub fn generate_all_feeds(
        config: &SsgConfig,
        metadata: &MetadataCache,
        sources: &Vec<Post>,
        now: Timestamp,
    ) -> (r: Result<Vec<GeneratedFile>, FeedError>)
        ensures
            match r {
                Ok(files) => all_feeds(*config, *metadata, sources@, now) == Ok::<
                    Seq<(Seq<char>, Seq<char>)>,
                    Seq<char>,
                >(file_views(files@)),
                Err(FeedError::PostNotFound(slug)) => all_feeds(*config, *metadata, sources@, now)
                    == Err::<Seq<(Seq<char>, Seq<char>)>, Seq<char>>(slug@),
            },
    {
        let mut files: Vec<GeneratedFile> = Vec::new();
        assert(file_views(files@) =~= Seq::<(Seq<char>, Seq<char>)>::empty());
        match Self::generate_global_feed(config, metadata, sources, now) {
            Ok(Some(f)) => {
                let ghost added = (f.path@, f.content@);
                files.push(f);
                assert(file_views(files@) =~= seq![added]);
            },
            Ok(None) => {},
            Err(e) => {
                return Err(e);
            },
        }
        let categories = metadata.get_categories();
        let ghost names = str_views(categories@);
        let ghost head = file_views(files@);
        let mut i: usize = 0;
        assert(head + Seq::<(Seq<char>, Seq<char>)>::empty() =~= head);
        while i < categories.len()
            invariant
                i <= categories.len(),
                names == str_views(categories@),
                names == names_of(count_views(metadata.categories@)),
                global_feed(*config, *metadata, sources@, now) is Ok,
                category_feeds(*config, *metadata, sources@, names, now, i as int) is Ok,
                file_views(files@) == head + category_feeds(
                    *config,
                    *metadata,
                    sources@,
                    names,
                    now,
                    i as int,
                )->Ok_0,
            decreases categories.len() - i,
        {
            let ghost before = file_views(files@);
            let ghost done = category_feeds(*config, *metadata, sources@, names, now, i as int)->Ok_0;
            assert(names[i as int] == categories@[i as int]@);
            match Self::generate_category_feed(
                config,
                metadata,
                sources,
                categories[i].as_str(),
                now,
            ) {
                Ok(Some(f)) => {
                    let ghost added = (f.path@, f.content@);
                    files.push(f);
                    assert(file_views(files@) =~= before.push(added));
                    assert(file_views(files@) =~= head + done.push(added));
                },
                Ok(None) => {},
                Err(e) => {
                    proof {
                        lemma_category_feeds_error_stays(
                            *config,
                            *metadata,
                            sources@,
                            names,
                            now,
                            i + 1,
                            names.len() as int,
                        );
                    }
                    return Err(e);
                },
            }
            i += 1;
        }
        let ghost before_atom = file_views(files@);
        match Self::generate_global_atom_feed(config, metadata, sources, now) {
            Ok(Some(f)) => {
                let ghost added = (f.path@, f.content@);
                files.push(f);
                assert(file_views(files@) =~= before_atom.push(added));
                assert(file_views(files@) =~= before_atom + seq![added]);
            },
            Ok(None) => {
                assert(before_atom + Seq::<(Seq<char>, Seq<char>)>::empty() =~= before_atom);
            },
            Err(e) => {
                return Err(e);
            },
        }
        Ok(files)
    }
}

/// The files as path and content.
pub open spec fn file_views(files: Seq<GeneratedFile>) -> Seq<(Seq<char>, Seq<char>)> {
    files.map_values(|f: GeneratedFile| (f.path@, f.content@))
}

/// A feed as the list of files it makes: one file, or none.
pub open spec fn feed_files(feed: Option<Seq<char>>, path: Seq<char>) -> Seq<(Seq<char>, Seq<char>)> {
    match feed {
        Some(content) => seq![(path, content)],
        None => Seq::empty(),
    }
}

/// The feeds of the first `n` categories, as files; the slug of a post
/// that was not read where the first feed that needs it fails.
pub open spec fn category_feeds(
    config: SsgConfig,
    metadata: MetadataCache,
    sources: Seq<Post>,
    categories: Seq<Seq<char>>,
    now: Timestamp,
    n: int,
) -> Result<Seq<(Seq<char>, Seq<char>)>, Seq<char>>
    decreases n,
{
    if n <= 0 || n > categories.len() {
        Ok(Seq::empty())
    } else {
        match category_feeds(config, metadata, sources, categories, now, n - 1) {
            Err(slug) => Err(slug),
            Ok(before) => match category_feed(config, metadata, sources, categories[n - 1], now) {
                Err(slug) => Err(slug),
                Ok(None) => Ok(before),
                Ok(Some(content)) => Ok(
                    before.push((categories[n - 1] + "/feed.xml"@, content)),
                ),
            },
        }
    }
}

/// All feeds of a site, as files with path and content.
pub open spec fn all_feeds(config: SsgConfig, metadata: MetadataCache, sources: Seq<Post>, now: Timestamp) -> Result<
    Seq<(Seq<char>, Seq<char>)>,
    Seq<char>,
> {
    let categories = names_of(count_views(metadata.categories@));
    match global_feed(config, metadata, sources, now) {
        Err(slug) => Err(slug),
        Ok(rss) => match category_feeds(
            config,
            metadata,
            sources,
            categories,
            now,
            categories.len() as int,
        ) {
            Err(slug) => Err(slug),
            Ok(per_category) => match global_atom_feed(config, metadata, sources, now) {
                Err(slug) => Err(slug),
                Ok(atom) => Ok(
                    feed_files(rss, "feed.xml"@) + per_category + feed_files(atom, "atom.xml"@),
                ),
            },
        },
    }
}

proof fn lemma_rss_error_stays(
    site: Seq<char>,
    author: Seq<char>,
    categories: Seq<CategoryView>,
    fixed: Option<Seq<char>>,
    listed: Seq<PostMetadataView>,
    sources: Seq<Post>,
    n: int,
    m: int,
)
    requires
        0 <= n <= m <= listed.len(),
        rss_items(site, author, categories, fixed, listed, sources, n) is Err,
    ensures
        rss_items(site, author, categories, fixed, listed, sources, m) == rss_items(
            site,
            author,
            categories,
            fixed,
            listed,
            sources,
            n,
        ),
    decreases m - n,
{
    if n < m {
        lemma_rss_error_stays(site, author, categories, fixed, listed, sources, n, m - 1);
    }
}

proof fn lemma_atom_error_stays(
    site: Seq<char>,
    author: Seq<char>,
    listed: Seq<PostMetadataView>,
    sources: Seq<Post>,
    n: int,
    m: int,
)
    requires
        0 <= n <= m <= listed.len(),
        atom_entries(site, author, listed, sources, n) is Err,
    ensures
        atom_entries(site, author, listed, sources, m) == atom_entries(
            site,
            author,
            listed,
            sources,
            n,
        ),
    decreases m - n,
{
    if n < m {
        lemma_atom_error_stays(site, author, listed, sources, n, m - 1);
    }
}

proof fn lemma_category_feeds_error_stays(
    config: SsgConfig,
    metadata: MetadataCache,
    sources: Seq<Post>,
    categories: Seq<Seq<char>>,
    now: Timestamp,
    n: int,
    m: int,
)
    requires
        0 <= n <= m <= categories.len(),
        category_feeds(config, metadata, sources, categories, now, n) is Err,
    ensures
        category_feeds(config, metadata, sources, categories, now, m) == category_feeds(
            config,
            metadata,
            sources,
            categories,
            now,
            n,
        ),
    decreases m - n,
{
    if n < m {
        lemma_category_feeds_error_stays(config, metadata, sources, categories, now, n, m - 1);
    }
}

} // verus!
