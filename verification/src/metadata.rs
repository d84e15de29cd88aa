//! The metadata index: what is known of every post of the site, for the
//! listings, feeds and links that cross-reference them.

use crate::text::{chars_of, has_prefix, list_contains, str_eq, string_of};
use crate::types::{Category, Frontmatter, FrontmatterView};
use vstd::prelude::*;

verus! {

/// The version that this crate writes into a persisted index.
pub const METADATA_VERSION: &'static str = "1";

/// What the index holds of one post.
#[derive(Debug)]
pub struct PostMetadata {
    pub slug: String,
    pub category: String,
    pub frontmatter: Frontmatter,
}

pub struct PostMetadataView {
    pub slug: Seq<char>,
    pub category: Seq<char>,
    pub frontmatter: FrontmatterView,
}

impl View for PostMetadata {
    type V = PostMetadataView;

    open spec fn view(&self) -> PostMetadataView {
        PostMetadataView {
            slug: self.slug@,
            category: self.category@,
            frontmatter: self.frontmatter@,
        }
    }
}

impl Clone for PostMetadata {
    fn clone(&self) -> (r: Self)
        ensures
            r@ == self@,
    {
        PostMetadata {
            slug: self.slug.clone(),
            category: self.category.clone(),
            frontmatter: self.frontmatter.clone(),
        }
    }
}

/// The views of a list of posts.
pub open spec fn post_views(posts: Seq<PostMetadata>) -> Seq<PostMetadataView> {
    posts.map_values(|p: PostMetadata| p@)
}

/// The views of the posts that a list of references points to.
pub open spec fn ref_views(posts: Seq<&PostMetadata>) -> Seq<PostMetadataView> {
    posts.map_values(|p: &PostMetadata| p@)
}

// ---------------------------------------------------------------------------
// Selecting
// ---------------------------------------------------------------------------

/// Which posts a listing shows. No listing shows a hidden post.
pub enum Selection {
    /// Every visible post.
    Visible,
    /// The visible posts of one category.
    Category(Seq<char>),
    /// The visible posts of a category and of the categories below it.
    CategoryTree(Seq<char>),
    /// The visible posts that carry a tag.
    Tag(Seq<char>),
    /// The visible posts of a category, but for the post with the given slug.
    Related(Seq<char>, Seq<char>),
}

/// Whether `category` is `root` or lies below it.
pub open spec fn in_tree(category: Seq<char>, root: Seq<char>) -> bool {
    category == root || has_prefix(category, root + "/"@)
}

/// Whether a selection picks a post.
pub open spec fn selects(which: Selection, p: PostMetadataView) -> bool {
    !p.frontmatter.hidden && match which {
        Selection::Visible => true,
        Selection::Category(c) => p.category == c,
        Selection::CategoryTree(c) => in_tree(p.category, c),
        Selection::Tag(t) => p.frontmatter.tags.contains(t),
        Selection::Related(c, slug) => p.category == c && p.slug != slug,
    }
}

/// The posts that a selection picks, in the order of the list.
pub open spec fn select(posts: Seq<PostMetadataView>, which: Selection) -> Seq<PostMetadataView>
    decreases posts.len(),
{
    if posts.len() == 0 {
        Seq::empty()
    } else if selects(which, posts.last()) {
        select(posts.drop_last(), which).push(posts.last())
    } else {
        select(posts.drop_last(), which)
    }
}

/// A selection holds exactly the posts of the list that it picks; so it
/// holds no hidden post.
pub proof fn lemma_select_members(posts: Seq<PostMetadataView>, which: Selection)
    ensures
        forall|p: PostMetadataView| #[trigger]
            select(posts, which).contains(p) <==> posts.contains(p) && selects(which, p),
        forall|p: PostMetadataView| #[trigger]
            select(posts, which).contains(p) ==> !p.frontmatter.hidden,
        select(posts, which).len() <= posts.len(),
    decreases posts.len(),
{
    if posts.len() > 0 {
        let init = posts.drop_last();
        let last = posts.last();
        lemma_select_members(init, which);
        assert forall|p: PostMetadataView| #[trigger]
            select(posts, which).contains(p) <==> posts.contains(p) && selects(which, p) by {
            if select(posts, which).contains(p) {
                let i = choose|i: int|
                    0 <= i < select(posts, which).len() && select(posts, which)[i] == p;
                if selects(which, last) && i == select(init, which).len() {
                    assert(posts[posts.len() - 1] == p);
                } else {
                    assert(select(init, which)[i] == p);
                    assert(select(init, which).contains(p));
                    let j = choose|j: int| 0 <= j < init.len() && init[j] == p;
                    assert(posts[j] == p);
                }
            }
            if posts.contains(p) && selects(which, p) {
                let j = choose|j: int| 0 <= j < posts.len() && posts[j] == p;
                if j == posts.len() - 1 {
                    assert(select(posts, which)[select(init, which).len() as int] == p);
                } else {
                    assert(init[j] == p);
                    assert(init.contains(p));
                    assert(select(init, which).contains(p));
                    let i = choose|i: int|
                        0 <= i < select(init, which).len() && select(init, which)[i] == p;
                    if selects(which, last) {
                        assert(select(posts, which)[i] == select(init, which)[i]);
                    }
                    assert(select(posts, which)[i] == p);
                }
            }
        }
    }
}

// ---------------------------------------------------------------------------
// Ordering
// ---------------------------------------------------------------------------

/// Where `p` goes into a list that is ordered from the newest to the oldest
/// post: behind every post that is not older than `p`.
pub open spec fn recency_position(sorted: Seq<PostMetadataView>, p: PostMetadataView) -> int
    decreases sorted.len(),
{
    if sorted.len() == 0 {
        0
    } else if sorted.last().frontmatter.date.posted.is_before(p.frontmatter.date.posted) {
        recency_position(sorted.drop_last(), p)
    } else {
        sorted.len() as int
    }
}

/// The posts ordered from the newest to the oldest by their date of
/// publication; posts of one date keep their order.
pub open spec fn by_recency(posts: Seq<PostMetadataView>) -> Seq<PostMetadataView>
    decreases posts.len(),
{
    if posts.len() == 0 {
        Seq::empty()
    } else {
        let sorted = by_recency(posts.drop_last());
        sorted.insert(recency_position(sorted, posts.last()), posts.last())
    }
}

/// No post of the list is followed by a newer one.
pub open spec fn newest_first(posts: Seq<PostMetadataView>) -> bool {
    forall|i: int, j: int|
        0 <= i < j < posts.len() ==> !posts[i].frontmatter.date.posted.is_before(
            posts[j].frontmatter.date.posted,
        )
}

/// Where a post goes into a list by recency: every post from that place on
/// is older than it, and the post in front of the place is not.
pub proof fn lemma_recency_position(sorted: Seq<PostMetadataView>, p: PostMetadataView)
    ensures
        0 <= recency_position(sorted, p) <= sorted.len(),
        forall|j: int|
            recency_position(sorted, p) <= j < sorted.len()
                ==> sorted[j].frontmatter.date.posted.is_before(p.frontmatter.date.posted),
        recency_position(sorted, p) > 0 ==> !sorted[recency_position(sorted, p)
            - 1].frontmatter.date.posted.is_before(p.frontmatter.date.posted),
    decreases sorted.len(),
{
    if sorted.len() > 0 && sorted.last().frontmatter.date.posted.is_before(
        p.frontmatter.date.posted,
    ) {
        let init = sorted.drop_last();
        lemma_recency_position(init, p);
        assert forall|j: int| recency_position(sorted, p) <= j < sorted.len() implies sorted[j].frontmatter.date.posted.is_before(
            p.frontmatter.date.posted,
        ) by {
            if j < init.len() {
                assert(sorted[j] == init[j]);
            }
        }
        if recency_position(sorted, p) > 0 {
            assert(sorted[recency_position(sorted, p) - 1] == init[recency_position(init, p) - 1]);
        }
    }
}

/// Ordering by recency keeps every post, adds none, and leaves no post in
/// front of a newer one.
pub proof fn lemma_by_recency(posts: Seq<PostMetadataView>)
    ensures
        by_recency(posts).len() == posts.len(),
        newest_first(by_recency(posts)),
        forall|p: PostMetadataView| #[trigger] by_recency(posts).contains(p) <==> posts.contains(p),
    decreases posts.len(),
{
    if posts.len() > 0 {
        let init = posts.drop_last();
        let p = posts.last();
        let sorted = by_recency(init);
        lemma_by_recency(init);
        lemma_recency_position(sorted, p);
        let k = recency_position(sorted, p);
        let r = sorted.insert(k, p);
        assert forall|i: int, j: int| 0 <= i < j < r.len() implies !r[i].frontmatter.date.posted.is_before(
            r[j].frontmatter.date.posted,
        ) by {
            if j < k {
                assert(r[i] == sorted[i] && r[j] == sorted[j]);
            } else if j == k {
                assert(r[i] == sorted[i]);
                assert(!sorted[i].frontmatter.date.posted.is_before(
                    sorted[k - 1].frontmatter.date.posted,
                ));
            } else if i < k {
                assert(r[i] == sorted[i] && r[j] == sorted[j - 1]);
            } else if i == k {
                assert(r[j] == sorted[j - 1]);
            } else {
                assert(r[i] == sorted[i - 1] && r[j] == sorted[j - 1]);
            }
        }
        assert forall|q: PostMetadataView| #[trigger] r.contains(q) <==> posts.contains(q) by {
            if r.contains(q) {
                let i = choose|i: int| 0 <= i < r.len() && r[i] == q;
                if i == k {
                    assert(posts[posts.len() - 1] == q);
                } else {
                    let i0 = if i < k {
                        i
                    } else {
                        i - 1
                    };
                    assert(sorted[i0] == q);
                    assert(sorted.contains(q));
                    let j = choose|j: int| 0 <= j < init.len() && init[j] == q;
                    assert(posts[j] == q);
                }
            }
            if posts.contains(q) {
                let j = choose|j: int| 0 <= j < posts.len() && posts[j] == q;
                if j == posts.len() - 1 {
                    assert(r[k] == q);
                } else {
                    assert(init[j] == q);
                    assert(init.contains(q));
                    assert(sorted.contains(q));
                    let i = choose|i: int| 0 <= i < sorted.len() && sorted[i] == q;
                    if i < k {
                        assert(r[i] == q);
                    } else {
                        assert(r[i + 1] == q);
                    }
                }
            }
        }
    }
}

/// Orders posts from the newest to the oldest.
pub fn sort_by_recency<'a>(posts: &Vec<&'a PostMetadata>) -> (r: Vec<&'a PostMetadata>)
    ensures
        ref_views(r@) == by_recency(ref_views(posts@)),
{
    let mut r: Vec<&'a PostMetadata> = Vec::new();
    let mut i: usize = 0;
    let ghost all = ref_views(posts@);
    assert(all.take(0) =~= Seq::<PostMetadataView>::empty());
    assert(ref_views(r@) =~= Seq::<PostMetadataView>::empty());
    while i < posts.len()
        invariant
            i <= posts.len(),
            all == ref_views(posts@),
            r.len() == i,
            ref_views(r@) == by_recency(all.take(i as int)),
        decreases posts.len() - i,
    {
        let p = posts[i];
        let ghost sorted = ref_views(r@);
        let ghost before = r@;
        assert(all.take(i + 1).drop_last() =~= all.take(i as int));
        assert(all.take(i + 1).last() == p@);
        let mut k: usize = r.len();
        assert(sorted.take(k as int) =~= sorted);
        while k > 0 && r[k - 1].frontmatter.date.posted.before(&p.frontmatter.date.posted)
            invariant
                k <= r.len(),
                sorted == ref_views(r@),
                recency_position(sorted, p@) == recency_position(sorted.take(k as int), p@),
            decreases k,
        {
            assert(sorted.take(k as int).drop_last() =~= sorted.take(k - 1));
            assert(sorted.take(k as int).last() == r@[k - 1]@);
            k -= 1;
        }
        proof {
            if k > 0 {
                assert(sorted.take(k as int).last() == r@[k - 1]@);
            }
        }
        r.insert(k, p);
        assert(ref_views(r@) =~= sorted.insert(k as int, p@));
        i += 1;
    }
    assert(all.take(posts.len() as int) =~= all);
    r
}

/// Whatever a listing shows, newest first and cut to a length, is a
/// visible post of the index: no listing shows a hidden post.
pub proof fn lemma_listing_shows_no_hidden(posts: Seq<PostMetadataView>, which: Selection, n: nat)
    ensures
        forall|p: PostMetadataView| #[trigger]
            first(by_recency(select(posts, which)), n).contains(p) ==> posts.contains(p)
                && !p.frontmatter.hidden && selects(which, p),
{
    let shown = select(posts, which);
    let sorted = by_recency(shown);
    lemma_select_members(posts, which);
    lemma_by_recency(shown);
    assert forall|p: PostMetadataView| #[trigger] first(sorted, n).contains(p) implies posts.contains(
        p,
    ) && !p.frontmatter.hidden && selects(which, p) by {
        let i = choose|i: int| 0 <= i < first(sorted, n).len() && first(sorted, n)[i] == p;
        assert(sorted[i] == p);
        assert(sorted.contains(p));
        assert(shown.contains(p));
    }
}

// ---------------------------------------------------------------------------
// Counting
// ---------------------------------------------------------------------------

/// A name with the number of posts that carry it.
#[derive(Debug)]
pub struct Count {
    pub name: String,
    pub count: usize,
}

/// The names with their counts.
pub open spec fn count_views(counts: Seq<Count>) -> Seq<(Seq<char>, nat)> {
    counts.map_values(|c: Count| (c.name@, c.count as nat))
}

/// The index at which `name` is counted.
pub open spec fn counted_at(counts: Seq<(Seq<char>, nat)>, name: Seq<char>, from: int) -> Option<
    int,
>
    decreases counts.len() - from,
{
    if from < 0 || from >= counts.len() {
        None
    } else if counts[from].0 == name {
        Some(from)
    } else {
        counted_at(counts, name, from + 1)
    }
}

/// The counts after one more occurrence of `name`: its count goes up by
/// one, up to the largest number that the machine holds, or it is counted
/// for the first time, behind the names counted before.
pub open spec fn bumped(counts: Seq<(Seq<char>, nat)>, name: Seq<char>) -> Seq<(Seq<char>, nat)> {
    match counted_at(counts, name, 0) {
        Some(i) => if counts[i].1 < usize::MAX {
            counts.update(i, (name, counts[i].1 + 1))
        } else {
            counts
        },
        None => counts.push((name, 1)),
    }
}

/// The counts of the names in a list, in the order in which they first occur.
pub open spec fn tally(names: Seq<Seq<char>>) -> Seq<(Seq<char>, nat)>
    decreases names.len(),
{
    if names.len() == 0 {
        Seq::empty()
    } else {
        bumped(tally(names.drop_last()), names.last())
    }
}

/// The categories of the visible posts, one entry for each post.
pub open spec fn visible_categories(posts: Seq<PostMetadataView>) -> Seq<Seq<char>>
    decreases posts.len(),
{
    if posts.len() == 0 {
        Seq::empty()
    } else if posts.last().frontmatter.hidden {
        visible_categories(posts.drop_last())
    } else {
        visible_categories(posts.drop_last()).push(posts.last().category)
    }
}

/// The tags of the visible posts, one entry for each tag of each post.
pub open spec fn visible_tags(posts: Seq<PostMetadataView>) -> Seq<Seq<char>>
    decreases posts.len(),
{
    if posts.len() == 0 {
        Seq::empty()
    } else if posts.last().frontmatter.hidden {
        visible_tags(posts.drop_last())
    } else {
        visible_tags(posts.drop_last()) + posts.last().frontmatter.tags
    }
}

/// Every name that a tally counts occurs in the list that was tallied.
pub proof fn lemma_tally_names(names: Seq<Seq<char>>, name: Seq<char>)
    requires
        names_of(tally(names)).contains(name),
    ensures
        names.contains(name),
    decreases names.len(),
{
    if names.len() > 0 {
        let before = tally(names.drop_last());
        let last = names.last();
        let after = tally(names);
        let i = choose|i: int| 0 <= i < names_of(after).len() && names_of(after)[i] == name;
        assert(after[i].0 == name);
        if name == last {
            assert(names[names.len() - 1] == name);
        } else {
            match counted_at(before, last, 0) {
                Some(k) => {
                    lemma_counted_at(before, last, 0);
                    assert(before[i].0 == name);
                },
                None => {
                    assert(before[i].0 == name);
                },
            }
            assert(names_of(before)[i] == name);
            assert(names_of(before).contains(name));
            lemma_tally_names(names.drop_last(), name);
            let j = choose|j: int| 0 <= j < names.drop_last().len() && names.drop_last()[j] == name;
            assert(names[j] == name);
        }
    }
}

/// Where a name is counted, it is found at or behind `from`.
pub proof fn lemma_counted_at(counts: Seq<(Seq<char>, nat)>, name: Seq<char>, from: int)
    requires
        0 <= from,
    ensures
        counted_at(counts, name, from) matches Some(i) ==> from <= i < counts.len() && counts[i].0
            == name,
    decreases counts.len() - from,
{
    if from < counts.len() && counts[from].0 != name {
        lemma_counted_at(counts, name, from + 1);
    }
}

/// Every category in the list of visible categories is the category of a
/// visible post.
pub proof fn lemma_visible_categories(posts: Seq<PostMetadataView>, name: Seq<char>)
    requires
        visible_categories(posts).contains(name),
    ensures
        exists|i: int|
            0 <= i < posts.len() && !(#[trigger] posts[i]).frontmatter.hidden && posts[i].category
                == name,
    decreases posts.len(),
{
    if posts.len() > 0 {
        let init = posts.drop_last();
        let last = posts.last();
        let k = choose|k: int|
            0 <= k < visible_categories(posts).len() && visible_categories(posts)[k] == name;
        if !last.frontmatter.hidden && k == visible_categories(init).len() {
            assert(!posts[posts.len() - 1].frontmatter.hidden && posts[posts.len() - 1].category
                == name);
        } else {
            assert(visible_categories(init)[k] == name);
            assert(visible_categories(init).contains(name));
            lemma_visible_categories(init, name);
            let i = choose|i: int|
                0 <= i < init.len() && !(#[trigger] init[i]).frontmatter.hidden && init[i].category
                    == name;
            assert(!posts[i].frontmatter.hidden && posts[i].category == name);
        }
    }
}

/// A category is counted only where a visible post lies in it: the
/// categories of hidden posts alone are not listed.
pub proof fn lemma_counted_categories_hold_visible_posts(
    posts: Seq<PostMetadataView>,
    name: Seq<char>,
)
    requires
        names_of(tally(visible_categories(posts))).contains(name),
    ensures
        exists|i: int|
            0 <= i < posts.len() && !(#[trigger] posts[i]).frontmatter.hidden && posts[i].category
                == name,
{
    lemma_tally_names(visible_categories(posts), name);
    lemma_visible_categories(posts, name);
}

fn bump(counts: &mut Vec<Count>, name: &str)
    ensures
        count_views(final(counts)@) == bumped(count_views(old(counts)@), name@),
{
    let ghost before = count_views(counts@);
    let mut i: usize = 0;
    while i < counts.len()
        invariant
            i <= counts.len(),
            before == count_views(counts@),
            counts@ == old(counts)@,
            counted_at(before, name@, 0) == counted_at(before, name@, i as int),
        decreases counts.len() - i,
    {
        assert(before[i as int] == (counts@[i as int].name@, counts@[i as int].count as nat));
        if str_eq(counts[i].name.as_str(), name) {
            if counts[i].count < usize::MAX {
                let n: usize = counts[i].count + 1;
                counts.set(i, Count { name: string_of(&chars_of(name)), count: n });
                assert(count_views(counts@) =~= before.update(i as int, (name@, n as nat)));
            }
            return ;
        }
        i += 1;
    }
    counts.push(Count { name: string_of(&chars_of(name)), count: 1 });
    assert(count_views(counts@) =~= before.push((name@, 1nat)));
}

// ---------------------------------------------------------------------------
// Upserting
// ---------------------------------------------------------------------------

/// The index of the post with the given slug and category.
pub open spec fn key_index(
    posts: Seq<PostMetadataView>,
    slug: Seq<char>,
    category: Seq<char>,
    from: int,
) -> Option<int>
    decreases posts.len() - from,
{
    if from < 0 || from >= posts.len() {
        None
    } else if posts[from].slug == slug && posts[from].category == category {
        Some(from)
    } else {
        key_index(posts, slug, category, from + 1)
    }
}

/// The posts after `p` is put among them: in the place of the post with its
/// slug and category, or behind all others where there is none.
pub open spec fn upserted(posts: Seq<PostMetadataView>, p: PostMetadataView) -> Seq<
    PostMetadataView,
> {
    match key_index(posts, p.slug, p.category, 0) {
        Some(i) => posts.update(i, p),
        None => posts.push(p),
    }
}

/// No two posts have the same slug and category.
pub open spec fn unique_keys(posts: Seq<PostMetadataView>) -> bool {
    forall|i: int, j: int|
        0 <= i < j < posts.len() ==> !(posts[i].slug == posts[j].slug && posts[i].category
            == posts[j].category)
}

/// The place of a post in the index is the first, at or behind `from`, that
/// holds its slug and category.
pub proof fn lemma_key_index(
    posts: Seq<PostMetadataView>,
    slug: Seq<char>,
    category: Seq<char>,
    from: int,
)
    requires
        0 <= from,
    ensures
        match key_index(posts, slug, category, from) {
            Some(i) => from <= i < posts.len() && posts[i].slug == slug && posts[i].category
                == category && forall|j: int|
                from <= j < i ==> !(posts[j].slug == slug && posts[j].category == category),
            None => forall|j: int|
                from <= j < posts.len() ==> !(posts[j].slug == slug && posts[j].category
                    == category),
        },
    decreases posts.len() - from,
{
    if from < posts.len() && !(posts[from].slug == slug && posts[from].category == category) {
        lemma_key_index(posts, slug, category, from + 1);
    }
}

/// Putting a post among posts with unique keys leaves the keys unique, and
/// the post is then among them.
pub proof fn lemma_upsert_keeps_keys_unique(posts: Seq<PostMetadataView>, p: PostMetadataView)
    requires
        unique_keys(posts),
    ensures
        unique_keys(upserted(posts, p)),
        upserted(posts, p).contains(p),
{
    lemma_key_index(posts, p.slug, p.category, 0);
    match key_index(posts, p.slug, p.category, 0) {
        Some(i) => {
            assert(upserted(posts, p)[i] == p);
        },
        None => {
            assert(upserted(posts, p)[posts.len() as int] == p);
        },
    }
}

/// Putting the same post twice is putting it once.
pub proof fn lemma_upsert_idempotent(posts: Seq<PostMetadataView>, p: PostMetadataView)
    ensures
        upserted(upserted(posts, p), p) == upserted(posts, p),
{
    lemma_key_index(posts, p.slug, p.category, 0);
    let once = upserted(posts, p);
    lemma_key_index(once, p.slug, p.category, 0);
    match key_index(posts, p.slug, p.category, 0) {
        Some(i) => {
            lemma_first_key(once, p.slug, p.category, 0, i);
            assert(once.update(i, p) =~= once);
        },
        None => {
            lemma_first_key(once, p.slug, p.category, 0, posts.len() as int);
            assert(once.update(posts.len() as int, p) =~= once);
        },
    }
}

proof fn lemma_first_key(
    posts: Seq<PostMetadataView>,
    slug: Seq<char>,
    category: Seq<char>,
    from: int,
    i: int,
)
    requires
        0 <= from <= i < posts.len(),
        posts[i].slug == slug && posts[i].category == category,
        forall|j: int| from <= j < i ==> !(posts[j].slug == slug && posts[j].category == category),
    ensures
        key_index(posts, slug, category, from) == Some(i),
    decreases i - from,
{
    if from < i {
        lemma_first_key(posts, slug, category, from + 1, i);
    }
}

// ---------------------------------------------------------------------------
// The index
// ---------------------------------------------------------------------------

/// The metadata index.
#[derive(Debug)]
pub struct MetadataCache {
    pub version: String,
    pub posts: Vec<PostMetadata>,
    /// How many visible posts each category holds.
    pub categories: Vec<Count>,
    /// How many visible posts carry each tag.
    pub tags: Vec<Count>,
    pub category_info: Vec<Category>,
}

/// The selection that a listing asks for, as the index takes it.
pub enum Listing<'a> {
    Visible,
    Category(&'a str),
    CategoryTree(&'a str),
    Tag(&'a str),
    Related(&'a str, &'a str),
}

impl<'a> View for Listing<'a> {
    type V = Selection;

    open spec fn view(&self) -> Selection {
        match self {
            Listing::Visible => Selection::Visible,
            Listing::Category(c) => Selection::Category(c@),
            Listing::CategoryTree(c) => Selection::CategoryTree(c@),
            Listing::Tag(t) => Selection::Tag(t@),
            Listing::Related(c, s) => Selection::Related(c@, s@),
        }
    }
}

/// Whether a listing shows a post.
pub fn listing_shows(which: &Listing, p: &PostMetadata) -> (b: bool)
    ensures
        b == selects(which@, p@),
{
    if p.frontmatter.hidden {
        return false;
    }
    match which {
        Listing::Visible => true,
        Listing::Category(c) => str_eq(p.category.as_str(), c),
        Listing::CategoryTree(c) => {
            if str_eq(p.category.as_str(), c) {
                true
            } else {
                let mut below = chars_of(c);
                crate::text::append_str(&mut below, "/");
                let cat = chars_of(p.category.as_str());
                crate::text::starts_with(&cat, &below)
            }
        },
        Listing::Tag(t) => list_contains(&p.frontmatter.tags, t),
        Listing::Related(c, s) => str_eq(p.category.as_str(), c) && !str_eq(p.slug.as_str(), s),
    }
}

impl MetadataCache {
    /// The posts of the index.
    pub open spec fn post_views(&self) -> Seq<PostMetadataView> {
        post_views(self.posts@)
    }

    /// The counts are those of the posts.
    pub open spec fn counts_current(&self) -> bool {
        &&& count_views(self.categories@) == tally(visible_categories(self.post_views()))
        &&& count_views(self.tags@) == tally(visible_tags(self.post_views()))
    }

    /// An index without posts.
    pub fn new() -> (r: Self)
        ensures
            r.post_views() == Seq::<PostMetadataView>::empty(),
            r.version@ == METADATA_VERSION@,
            r.category_info@.len() == 0,
            r.counts_current(),
    {
        let r = MetadataCache {
            version: string_of(&chars_of(METADATA_VERSION)),
            posts: Vec::new(),
            categories: Vec::new(),
            tags: Vec::new(),
            category_info: Vec::new(),
        };
        assert(r.post_views() =~= Seq::<PostMetadataView>::empty());
        assert(count_views(r.categories@) =~= Seq::<(Seq<char>, nat)>::empty());
        assert(count_views(r.tags@) =~= Seq::<(Seq<char>, nat)>::empty());
        r
    }

    /// Counts the categories and tags of the visible posts anew.
    pub fn recalculate_stats(&mut self)
        ensures
            final(self).counts_current(),
            final(self).posts == old(self).posts,
            final(self).version == old(self).version,
            final(self).category_info == old(self).category_info,
    {
        let mut categories: Vec<Count> = Vec::new();
        let mut tags: Vec<Count> = Vec::new();
        let ghost all = self.post_views();
        let mut i: usize = 0;
        assert(all.take(0) =~= Seq::<PostMetadataView>::empty());
        assert(count_views(categories@) =~= Seq::<(Seq<char>, nat)>::empty());
        assert(count_views(tags@) =~= Seq::<(Seq<char>, nat)>::empty());
        while i < self.posts.len()
            invariant
                i <= self.posts.len(),
                *self == *old(self),
                all == self.post_views(),
                count_views(categories@) == tally(visible_categories(all.take(i as int))),
                count_views(tags@) == tally(visible_tags(all.take(i as int))),
            decreases self.posts.len() - i,
        {
            assert(all.take(i + 1).drop_last() =~= all.take(i as int));
            assert(all.take(i + 1).last() == self.posts@[i as int]@);
            let post = &self.posts[i];
            if !post.frontmatter.hidden {
                let ghost cats = visible_categories(all.take(i as int));
                assert(cats.push(post.category@).drop_last() =~= cats);
                bump(&mut categories, post.category.as_str());
                let ghost names = visible_tags(all.take(i as int));
                let ghost own = post@.frontmatter.tags;
                let mut t: usize = 0;
                assert(names + own.take(0) =~= names);
                while t < post.frontmatter.tags.len()
                    invariant
                        t <= post.frontmatter.tags.len(),
                        own == crate::text::str_views(post.frontmatter.tags@),
                        count_views(tags@) == tally(names + own.take(t as int)),
                    decreases post.frontmatter.tags.len() - t,
                {
                    assert((names + own.take(t + 1)).drop_last() =~= names + own.take(t as int));
                    assert((names + own.take(t + 1)).last() == post.frontmatter.tags@[t as int]@);
                    bump(&mut tags, post.frontmatter.tags[t].as_str());
                    t += 1;
                }
                assert(own.take(own.len() as int) =~= own);
            }
            i += 1;
        }
        assert(all.take(self.posts.len() as int) =~= all);
        self.categories = categories;
        self.tags = tags;
    }

    /// The index of the post with the given slug and category.
    fn position(&self, slug: &str, category: &str) -> (r: Option<usize>)
        ensures
            match r {
                Some(i) => key_index(self.post_views(), slug@, category@, 0) == Some(i as int)
                    && i < self.posts.len(),
                None => key_index(self.post_views(), slug@, category@, 0) is None,
            },
    {
        let ghost all = self.post_views();
        let mut i: usize = 0;
        while i < self.posts.len()
            invariant
                i <= self.posts.len(),
                all == self.post_views(),
                key_index(all, slug@, category@, 0) == key_index(all, slug@, category@, i as int),
            decreases self.posts.len() - i,
        {
            assert(all[i as int] == self.posts@[i as int]@);
            if str_eq(self.posts[i].slug.as_str(), slug) && str_eq(
                self.posts[i].category.as_str(),
                category,
            ) {
                return Some(i);
            }
            i += 1;
        }
        None
    }

    /// Puts a post into the index, in the place of the post with the same
    /// slug and category where there is one, and counts anew.
    pub fn upsert_post(&mut self, slug: String, category: String, frontmatter: Frontmatter)
        ensures
            final(self).post_views() == upserted(
                old(self).post_views(),
                PostMetadataView { slug: slug@, category: category@, frontmatter: frontmatter@ },
            ),
            final(self).counts_current(),
            final(self).version == old(self).version,
            final(self).category_info == old(self).category_info,
    {
        let ghost before = self.post_views();
        let ghost p = PostMetadataView {
            slug: slug@,
            category: category@,
            frontmatter: frontmatter@,
        };
        let at = self.position(slug.as_str(), category.as_str());
        let post = PostMetadata { slug, category, frontmatter };
        match at {
            Some(i) => {
                self.posts.set(i, post);
                assert(self.post_views() =~= before.update(i as int, p));
            },
            None => {
                self.posts.push(post);
                assert(self.post_views() =~= before.push(p));
            },
        }
        self.recalculate_stats();
    }

    /// Sets what is known of the categories.
    pub fn set_category_info(&mut self, categories: Vec<Category>)
        ensures
            final(self).category_info == categories,
            final(self).posts == old(self).posts,
            final(self).categories == old(self).categories,
            final(self).tags == old(self).tags,
            final(self).version == old(self).version,
    {
        self.category_info = categories;
    }

    /// What is known of the categories.
    pub fn get_category_info(&self) -> (r: &Vec<Category>)
        ensures
            r == &self.category_info,
    {
        &self.category_info
    }

    /// The posts that a listing shows, in the order of the index.
    pub fn list(&self, which: &Listing) -> (r: Vec<&PostMetadata>)
        ensures
            ref_views(r@) == select(self.post_views(), which@),
    {
        let mut r: Vec<&PostMetadata> = Vec::new();
        let ghost all = self.post_views();
        let mut i: usize = 0;
        assert(all.take(0) =~= Seq::<PostMetadataView>::empty());
        assert(ref_views(r@) =~= Seq::<PostMetadataView>::empty());
        while i < self.posts.len()
            invariant
                i <= self.posts.len(),
                all == self.post_views(),
                ref_views(r@) == select(all.take(i as int), which@),
            decreases self.posts.len() - i,
        {
            let ghost before = ref_views(r@);
            assert(all.take(i + 1).drop_last() =~= all.take(i as int));
            assert(all.take(i + 1).last() == self.posts@[i as int]@);
            if listing_shows(which, &self.posts[i]) {
                r.push(&self.posts[i]);
                assert(ref_views(r@) =~= before.push(self.posts@[i as int]@));
            }
            i += 1;
        }
        assert(all.take(self.posts.len() as int) =~= all);
        r
    }

    /// The `n` newest visible posts, the newest first.
    pub fn get_recent_posts(&self, n: usize) -> (r: Vec<&PostMetadata>)
        ensures
            ref_views(r@) == first(
                by_recency(select(self.post_views(), Selection::Visible)),
                n as nat,
            ),
    {
        let visible = self.list(&Listing::Visible);
        let mut sorted = sort_by_recency(&visible);
        if n < sorted.len() {
            let ghost all = ref_views(sorted@);
            sorted.truncate(n);
            assert(ref_views(sorted@) =~= all.take(n as int));
        }
        sorted
    }

    /// The visible posts of one category.
    pub fn get_posts_by_category(&self, slug: &str) -> (r: Vec<&PostMetadata>)
        ensures
            ref_views(r@) == select(self.post_views(), Selection::Category(slug@)),
    {
        self.list(&Listing::Category(slug))
    }

    /// The visible posts of a category and of the categories below it.
    pub fn get_posts_by_category_tree(&self, slug: &str) -> (r: Vec<&PostMetadata>)
        ensures
            ref_views(r@) == select(self.post_views(), Selection::CategoryTree(slug@)),
    {
        self.list(&Listing::CategoryTree(slug))
    }

    /// The visible posts that carry a tag.
    pub fn get_posts_by_tag(&self, tag: &str) -> (r: Vec<&PostMetadata>)
        ensures
            ref_views(r@) == select(self.post_views(), Selection::Tag(tag@)),
    {
        self.list(&Listing::Tag(tag))
    }

    /// The first post with the given slug, hidden or not.
    pub fn find_post(&self, slug: &str) -> (r: Option<&PostMetadata>)
        ensures
            match r {
                Some(p) => self.post_views().contains(p@) && p@.slug == slug@,
                None => forall|i: int|
                    0 <= i < self.posts.len() ==> self.post_views()[i].slug != slug@,
            },
    {
        let mut i: usize = 0;
        while i < self.posts.len()
            invariant
                i <= self.posts.len(),
                forall|j: int| 0 <= j < i ==> self.post_views()[j].slug != slug@,
            decreases self.posts.len() - i,
        {
            if str_eq(self.posts[i].slug.as_str(), slug) {
                assert(self.post_views()[i as int] == self.posts@[i as int]@);
                return Some(&self.posts[i]);
            }
            i += 1;
        }
        None
    }

    /// The categories that hold a visible post.
    pub fn get_categories(&self) -> (r: Vec<String>)
        ensures
            crate::text::str_views(r@) == names_of(count_views(self.categories@)),
    {
        names(&self.categories)
    }

    /// The tags that a visible post carries.
    pub fn get_tags(&self) -> (r: Vec<String>)
        ensures
            crate::text::str_views(r@) == names_of(count_views(self.tags@)),
    {
        names(&self.tags)
    }
}

/// The first `n` posts of a list, or all where it has fewer.
pub open spec fn first(posts: Seq<PostMetadataView>, n: nat) -> Seq<PostMetadataView> {
    if n < posts.len() {
        posts.take(n as int)
    } else {
        posts
    }
}

/// The names that are counted, in order.
pub open spec fn names_of(counts: Seq<(Seq<char>, nat)>) -> Seq<Seq<char>> {
    counts.map_values(|c: (Seq<char>, nat)| c.0)
}

fn names(counts: &Vec<Count>) -> (r: Vec<String>)
    ensures
        crate::text::str_views(r@) == names_of(count_views(counts@)),
{
    let mut r: Vec<String> = Vec::new();
    let mut i: usize = 0;
    while i < counts.len()
        invariant
            i <= counts.len(),
            r.len() == i,
            forall|j: int| 0 <= j < i ==> r@[j]@ == counts@[j].name@,
        decreases counts.len() - i,
    {
        r.push(counts[i].name.clone());
        i += 1;
    }
    assert(crate::text::str_views(r@) =~= names_of(count_views(counts@)));
    r
}

} // verus!
