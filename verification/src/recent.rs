//! The list of the newest posts, for the site's front end.

use crate::config::SsgConfig;
use crate::metadata::{
    by_recency, first, lemma_listing_shows_no_hidden, ref_views, select, MetadataCache,
    PostMetadata, PostMetadataView, Selection,
};
use crate::slug::{encode_for_url, url_encoded};
use crate::text::{append_str, chars_of, string_of};
use crate::types::{rfc3339, text_or_empty};
use vstd::prelude::*;

verus! {

/// The number of posts that the list holds at most.
pub const RECENT_POSTS_COUNT: usize = 6;

/// One entry of the list.
#[derive(Debug)]
pub struct RecentPost {
    pub title: String,
    pub uri: String,
    pub date: String,
    pub desc: String,
}

pub struct RecentPostView {
    pub title: Seq<char>,
    pub uri: Seq<char>,
    pub date: Seq<char>,
    pub desc: Seq<char>,
}

impl View for RecentPost {
    type V = RecentPostView;

    open spec fn view(&self) -> RecentPostView {
        RecentPostView { title: self.title@, uri: self.uri@, date: self.date@, desc: self.desc@ }
    }
}

/// The address of a post as the list gives it.
pub open spec fn recent_uri(p: PostMetadataView, encode: bool) -> Seq<char> {
    if encode {
        "/"@ + url_encoded(p.category) + "/"@ + url_encoded(p.slug) + "/"@
    } else {
        "/"@ + p.category + "/"@ + p.slug + "/"@
    }
}

/// The entry that stands for a post.
pub open spec fn recent_entry(p: PostMetadataView, encode: bool) -> RecentPostView {
    RecentPostView {
        title: p.frontmatter.title,
        uri: recent_uri(p, encode),
        date: text_or_empty(
            rfc3339(
                p.frontmatter.date.posted.secs as int,
                p.frontmatter.date.posted.nanos as int,
            ),
        ),
        desc: match p.frontmatter.description {
            Some(d) => d,
            None => Seq::empty(),
        },
    }
}

/// The views of a list of entries.
pub open spec fn recent_views(posts: Seq<RecentPost>) -> Seq<RecentPostView> {
    posts.map_values(|p: RecentPost| p@)
}

/// The entries of the newest visible posts, the newest first.
pub open spec fn recent_entries(posts: Seq<PostMetadataView>, encode: bool) -> Seq<RecentPostView> {
    first(by_recency(select(posts, Selection::Visible)), RECENT_POSTS_COUNT as nat).map_values(
        |p: PostMetadataView| recent_entry(p, encode),
    )
}

/// Every entry of the list stands for a visible post of the index: the
/// list names no hidden post.
pub proof fn lemma_recent_entries_are_visible(posts: Seq<PostMetadataView>, encode: bool)
    ensures
        recent_entries(posts, encode).len() <= RECENT_POSTS_COUNT,
        forall|e: RecentPostView| #[trigger]
            recent_entries(posts, encode).contains(e) ==> exists|p: PostMetadataView| #[trigger]
                posts.contains(p) && !p.frontmatter.hidden && e == recent_entry(p, encode),
{
    let listed = first(by_recency(select(posts, Selection::Visible)), RECENT_POSTS_COUNT as nat);
    let entries = recent_entries(posts, encode);
    lemma_listing_shows_no_hidden(posts, Selection::Visible, RECENT_POSTS_COUNT as nat);
    assert forall|e: RecentPostView| #[trigger] entries.contains(e) implies exists|
        p: PostMetadataView,
    | #[trigger]
        posts.contains(p) && !p.frontmatter.hidden && e == recent_entry(p, encode) by {
        let k = choose|k: int| 0 <= k < entries.len() && entries[k] == e;
        let p = listed[k];
        assert(listed.contains(p));
        assert(posts.contains(p) && !p.frontmatter.hidden && e == recent_entry(p, encode));
    }
}

pub struct RecentGenerator {
    pub config: SsgConfig,
}

impl RecentGenerator {
    /// A generator for a site with the given configuration.
    pub fn new(config: SsgConfig) -> (r: Self)
        ensures
            r.config == config,
    {
        RecentGenerator { config }
    }

    fn entry(&self, post: &PostMetadata) -> (r: RecentPost)
        ensures
            r@ == recent_entry(post@, self.config.build.encode_filenames),
    {
        let mut uri = chars_of("/");
        if self.config.build.encode_filenames {
            append_str(&mut uri, encode_for_url(post.category.as_str()).as_str());
            append_str(&mut uri, "/");
            append_str(&mut uri, encode_for_url(post.slug.as_str()).as_str());
        } else {
            append_str(&mut uri, post.category.as_str());
            append_str(&mut uri, "/");
            append_str(&mut uri, post.slug.as_str());
        }
        append_str(&mut uri, "/");
        RecentPost {
            title: post.frontmatter.title.clone(),
            uri: string_of(&uri),
            date: post.frontmatter.date.posted.to_rfc3339(),
            desc: match &post.frontmatter.description {
                Some(d) => d.clone(),
                None => String::new(),
            },
        }
    }

    /// The list of the newest posts.
    pub fn generate(&self, metadata: &MetadataCache) -> (r: Vec<RecentPost>)
        ensures
            recent_views(r@) == recent_entries(
                metadata.post_views(),
                self.config.build.encode_filenames,
            ),
    {
        let newest = metadata.get_recent_posts(RECENT_POSTS_COUNT);
        let mut r: Vec<RecentPost> = Vec::new();
        let mut i: usize = 0;
        while i < newest.len()
            invariant
                i <= newest.len(),
                r.len() == i,
                forall|j: int|
                    0 <= j < i ==> r@[j]@ == recent_entry(
                        newest@[j]@,
                        self.config.build.encode_filenames,
                    ),
            decreases newest.len() - i,
        {
            r.push(self.entry(newest[i]));
            i += 1;
        }
        assert(recent_views(r@) =~= ref_views(newest@).map_values(
            |p: PostMetadataView| recent_entry(p, self.config.build.encode_filenames),
        ));
        r
    }
}

} // verus!
