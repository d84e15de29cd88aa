//! The search index: what the site's search knows of every visible post.

use crate::config::SsgConfig;
use crate::metadata::{
    by_recency, lemma_by_recency, lemma_select_members, ref_views, select, sort_by_recency,
    Listing, MetadataCache, PostMetadata, PostMetadataView, Selection,
};
use crate::recent::recent_uri;
use crate::slug::encode_for_url;
use crate::text::{append_str, chars_of, clone_strings, str_views, string_of};
use crate::types::{rfc3339, text_or_empty};
use vstd::prelude::*;

verus! {

/// One entry of the search index.
#[derive(Debug)]
pub struct SearchEntry {
    pub title: String,
    pub url: String,
    pub category: String,
    pub tags: Vec<String>,
    pub description: String,
    pub date: String,
}

pub struct SearchEntryView {
    pub title: Seq<char>,
    pub url: Seq<char>,
    pub category: Seq<char>,
    pub tags: Seq<Seq<char>>,
    pub description: Seq<char>,
    pub date: Seq<char>,
}

impl View for SearchEntry {
    type V = SearchEntryView;

    open spec fn view(&self) -> SearchEntryView {
        SearchEntryView {
            title: self.title@,
            url: self.url@,
            category: self.category@,
            tags: str_views(self.tags@),
            description: self.description@,
            date: self.date@,
        }
    }
}

/// The entry that stands for a post.
pub open spec fn search_entry(p: PostMetadataView, encode: bool) -> SearchEntryView {
    SearchEntryView {
        title: p.frontmatter.title,
        url: recent_uri(p, encode),
        category: p.category,
        tags: p.frontmatter.tags,
        description: match p.frontmatter.description {
            Some(d) => d,
            None => Seq::empty(),
        },
        date: text_or_empty(
            rfc3339(
                p.frontmatter.date.posted.secs as int,
                p.frontmatter.date.posted.nanos as int,
            ),
        ),
    }
}

/// The views of a list of entries.
pub open spec fn entry_views(entries: Seq<SearchEntry>) -> Seq<SearchEntryView> {
    entries.map_values(|e: SearchEntry| e@)
}

/// The entries of the visible posts, the newest first.
pub open spec fn search_entries(posts: Seq<PostMetadataView>, encode: bool) -> Seq<SearchEntryView> {
    by_recency(select(posts, Selection::Visible)).map_values(
        |p: PostMetadataView| search_entry(p, encode),
    )
}

/// Every entry of the index stands for a visible post: the index knows no
/// hidden post.
pub proof fn lemma_search_entries_are_visible(posts: Seq<PostMetadataView>, encode: bool)
    ensures
        forall|e: SearchEntryView| #[trigger]
            search_entries(posts, encode).contains(e) ==> exists|p: PostMetadataView| #[trigger]
                posts.contains(p) && !p.frontmatter.hidden && e == search_entry(p, encode),
{
    let shown = select(posts, Selection::Visible);
    let listed = by_recency(shown);
    let entries = search_entries(posts, encode);
    lemma_select_members(posts, Selection::Visible);
    lemma_by_recency(shown);
    assert forall|e: SearchEntryView| #[trigger] entries.contains(e) implies exists|
        p: PostMetadataView,
    | #[trigger]
        posts.contains(p) && !p.frontmatter.hidden && e == search_entry(p, encode) by {
        let k = choose|k: int| 0 <= k < entries.len() && entries[k] == e;
        let p = listed[k];
        assert(listed.contains(p));
        assert(shown.contains(p));
        assert(posts.contains(p) && !p.frontmatter.hidden && e == search_entry(p, encode));
    }
}

pub struct SearchIndexGenerator {
    pub config: SsgConfig,
}

impl SearchIndexGenerator {
    /// A generator for a site with the given configuration.
    pub fn new(config: SsgConfig) -> (r: Self)
        ensures
            r.config == config,
    {
        SearchIndexGenerator { config }
    }

    fn entry(&self, post: &PostMetadata) -> (r: SearchEntry)
        ensures
            r@ == search_entry(post@, self.config.build.encode_filenames),
    {
        let mut url = chars_of("/");
        if self.config.build.encode_filenames {
            append_str(&mut url, encode_for_url(post.category.as_str()).as_str());
            append_str(&mut url, "/");
            append_str(&mut url, encode_for_url(post.slug.as_str()).as_str());
        } else {
            append_str(&mut url, post.category.as_str());
            append_str(&mut url, "/");
            append_str(&mut url, post.slug.as_str());
        }
        append_str(&mut url, "/");
        SearchEntry {
            title: post.frontmatter.title.clone(),
            url: string_of(&url),
            category: post.category.clone(),
            tags: clone_strings(&post.frontmatter.tags),
            description: match &post.frontmatter.description {
                Some(d) => d.clone(),
                None => String::new(),
            },
            date: post.frontmatter.date.posted.to_rfc3339(),
        }
    }

    /// The search index of a site. No hidden post is in it.
    pub fn generate(&self, metadata: &MetadataCache) -> (r: Vec<SearchEntry>)
        ensures
            entry_views(r@) == search_entries(
                metadata.post_views(),
                self.config.build.encode_filenames,
            ),
    {
        let newest = sort_by_recency(&metadata.list(&Listing::Visible));
        let mut r: Vec<SearchEntry> = Vec::new();
        let mut i: usize = 0;
        while i < newest.len()
            invariant
                i <= newest.len(),
                r.len() == i,
                forall|j: int|
                    0 <= j < i ==> r@[j]@ == search_entry(
                        newest@[j]@,
                        self.config.build.encode_filenames,
                    ),
            decreases newest.len() - i,
        {
            r.push(self.entry(newest[i]));
            i += 1;
        }
        assert(entry_views(r@) =~= ref_views(newest@).map_values(
            |p: PostMetadataView| search_entry(p, self.config.build.encode_filenames),
        ));
        r
    }
}

} // verus!
