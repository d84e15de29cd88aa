//! The documents of a site: posts, pages, categories, and the dates they
//! carry.

use crate::text::{clone_opt, clone_strings, opt_chars, str_views};
use vstd::prelude::*;

verus! {

/// An instant: whole seconds since 1970-01-01T00:00:00Z, and the nanoseconds
/// into that second.
#[derive(Clone, Copy, Debug, PartialEq, Eq, Structural)]
pub struct Timestamp {
    pub secs: i64,
    pub nanos: u32,
}

/// The first second of the year 0 and the last of the year 9999: the
/// instants between them have a four-digit year.
pub const FIRST_FOUR_DIGIT_SECOND: i64 = -62167219200;

pub const LAST_FOUR_DIGIT_SECOND: i64 = 253402300799;

/// The instant that a relaxed RFC 3339 date and time denotes; `None` where
/// the text is no such date.
pub uninterp spec fn parsed_datetime(text: Seq<char>) -> Option<Timestamp>;

/// An instant written as RFC 3339; `None` where the calendar cannot hold it.
pub uninterp spec fn rfc3339(secs: int, nanos: int) -> Option<Seq<char>>;

/// An instant written as RFC 2822; `None` where the calendar cannot hold it.
pub uninterp spec fn rfc2822(secs: int, nanos: int) -> Option<Seq<char>>;

/// Reads a date and time as `chrono`'s `FromStr` for `DateTime<Utc>` does: a
/// relaxed RFC 3339, converted to UTC. The instant is named, not stated.
#[verifier::external_body]
fn parse_utc(text: &str) -> (r: Option<Timestamp>)
    ensures
        r == parsed_datetime(text@),
{
    text.parse::<chrono::DateTime<chrono::Utc>>().ok().map(
        |d| Timestamp { secs: d.timestamp(), nanos: d.timestamp_subsec_nanos() },
    )
}

/// The current instant by the system's clock (`chrono::Utc::now`). Nothing is
/// promised of it.
#[verifier::external_body]
fn utc_now() -> (r: Timestamp) {
    let d = chrono::Utc::now();
    Timestamp { secs: d.timestamp(), nanos: d.timestamp_subsec_nanos() }
}

/// Writes an instant with `DateTime::to_rfc3339`, `None` where
/// `DateTime::from_timestamp` refuses the instant. The text is named, not
/// stated.
#[verifier::external_body]
fn write_rfc3339(secs: i64, nanos: u32) -> (r: Option<String>)
    ensures
        opt_chars(r) == rfc3339(secs as int, nanos as int),
{
    chrono::DateTime::from_timestamp(secs, nanos).map(|d| d.to_rfc3339())
}

/// Writes an instant with `DateTime::to_rfc2822`, `None` where
/// `DateTime::from_timestamp` refuses the instant. `to_rfc2822` panics on a
/// year that is negative or has more than four digits, so such instants are
/// left out. The text is named, not stated.
#[verifier::external_body]
fn write_rfc2822(secs: i64, nanos: u32) -> (r: Option<String>)
    requires
        FIRST_FOUR_DIGIT_SECOND <= secs <= LAST_FOUR_DIGIT_SECOND,
    ensures
        opt_chars(r) == rfc2822(secs as int, nanos as int),
{
    chrono::DateTime::from_timestamp(secs, nanos).map(|d| d.to_rfc2822())
}

impl Timestamp {
    /// Whether `self` lies before `other`.
    pub open spec fn is_before(self, other: Timestamp) -> bool {
        self.secs < other.secs || (self.secs == other.secs && self.nanos < other.nanos)
    }

    /// Whether `self` lies before `other`.
    pub fn before(&self, other: &Timestamp) -> (b: bool)
        ensures
            b == self.is_before(*other),
    {
        self.secs < other.secs || (self.secs == other.secs && self.nanos < other.nanos)
    }

    /// Reads a date and time in relaxed RFC 3339.
    pub fn parse(text: &str) -> (r: Option<Timestamp>)
        ensures
            r == parsed_datetime(text@),
    {
        parse_utc(text)
    }

    /// The current instant.
    pub fn now() -> Timestamp {
        utc_now()
    }

    /// The instant as RFC 3339, or the empty string where the calendar
    /// cannot hold it.
    pub fn to_rfc3339(&self) -> (r: String)
        ensures
            r@ == text_or_empty(rfc3339(self.secs as int, self.nanos as int)),
    {
        match write_rfc3339(self.secs, self.nanos) {
            Some(s) => s,
            None => String::new(),
        }
    }

    /// The instant as RFC 2822, or the empty string where its year does not
    /// have four digits or the calendar cannot hold it.
    pub fn to_rfc2822(&self) -> (r: String)
        ensures
            r@ == if FIRST_FOUR_DIGIT_SECOND <= self.secs <= LAST_FOUR_DIGIT_SECOND {
                text_or_empty(rfc2822(self.secs as int, self.nanos as int))
            } else {
                Seq::<char>::empty()
            },
    {
        if self.secs < FIRST_FOUR_DIGIT_SECOND || self.secs > LAST_FOUR_DIGIT_SECOND {
            return String::new();
        }
        match write_rfc2822(self.secs, self.nanos) {
            Some(s) => s,
            None => String::new(),
        }
    }
}

/// A text, or the empty text where there is none.
pub open spec fn text_or_empty(text: Option<Seq<char>>) -> Seq<char> {
    match text {
        Some(t) => t,
        None => Seq::empty(),
    }
}

/// When a post was published and, if ever, changed.
#[derive(Clone, Copy, Debug, PartialEq, Eq, Structural)]
pub struct PostDate {
    pub posted: Timestamp,
    pub modified: Option<Timestamp>,
}

impl PostDate {
    /// The date of a post that was never changed.
    pub fn new(posted: Timestamp) -> (r: Self)
        ensures
            r == (PostDate { posted, modified: None }),
    {
        PostDate { posted, modified: None }
    }

    /// The date of publication as RFC 2822.
    pub fn to_rfc2822(&self) -> (r: String)
        ensures
            r@ == if FIRST_FOUR_DIGIT_SECOND <= self.posted.secs <= LAST_FOUR_DIGIT_SECOND {
                text_or_empty(rfc2822(self.posted.secs as int, self.posted.nanos as int))
            } else {
                Seq::<char>::empty()
            },
    {
        self.posted.to_rfc2822()
    }

    /// The instant of the last change: `modified`, or `posted` where the
    /// post was never changed.
    pub open spec fn last_change(self) -> Timestamp {
        match self.modified {
            Some(m) => m,
            None => self.posted,
        }
    }

    /// The instant of the last change.
    pub fn last_changed(&self) -> (r: Timestamp)
        ensures
            r == self.last_change(),
    {
        match self.modified {
            Some(m) => m,
            None => self.posted,
        }
    }
}

/// The front matter of a post.
#[derive(Debug)]
pub struct Frontmatter {
    pub title: String,
    pub date: PostDate,
    pub tags: Vec<String>,
    pub cover_image: Option<String>,
    pub og_image: Option<String>,
    pub description: Option<String>,
    pub display_ad: bool,
    pub hidden: bool,
    pub comments: bool,
}

/// What a `Frontmatter` holds.
pub struct FrontmatterView {
    pub title: Seq<char>,
    pub date: PostDate,
    pub tags: Seq<Seq<char>>,
    pub cover_image: Option<Seq<char>>,
    pub og_image: Option<Seq<char>>,
    pub description: Option<Seq<char>>,
    pub display_ad: bool,
    pub hidden: bool,
    pub comments: bool,
}

impl View for Frontmatter {
    type V = FrontmatterView;

    open spec fn view(&self) -> FrontmatterView {
        FrontmatterView {
            title: self.title@,
            date: self.date,
            tags: str_views(self.tags@),
            cover_image: opt_chars(self.cover_image),
            og_image: opt_chars(self.og_image),
            description: opt_chars(self.description),
            display_ad: self.display_ad,
            hidden: self.hidden,
            comments: self.comments,
        }
    }
}

impl Clone for Frontmatter {
    fn clone(&self) -> (r: Self)
        ensures
            r@ == self@,
    {
        Frontmatter {
            title: self.title.clone(),
            date: self.date,
            tags: clone_strings(&self.tags),
            cover_image: clone_opt(&self.cover_image),
            og_image: clone_opt(&self.og_image),
            description: clone_opt(&self.description),
            display_ad: self.display_ad,
            hidden: self.hidden,
            comments: self.comments,
        }
    }
}

/// A post: where it lives, its front matter, its Markdown, and its HTML once
/// rendered.
#[derive(Debug)]
pub struct Post {
    pub slug: String,
    pub category: String,
    pub frontmatter: Frontmatter,
    pub content: String,
    pub rendered_html: Option<String>,
}

pub struct PostView {
    pub slug: Seq<char>,
    pub category: Seq<char>,
    pub frontmatter: FrontmatterView,
    pub content: Seq<char>,
    pub rendered_html: Option<Seq<char>>,
}

impl View for Post {
    type V = PostView;

    open spec fn view(&self) -> PostView {
        PostView {
            slug: self.slug@,
            category: self.category@,
            frontmatter: self.frontmatter@,
            content: self.content@,
            rendered_html: opt_chars(self.rendered_html),
        }
    }
}

impl Clone for Post {
    fn clone(&self) -> (r: Self)
        ensures
            r@ == self@,
    {
        Post {
            slug: self.slug.clone(),
            category: self.category.clone(),
            frontmatter: self.frontmatter.clone(),
            content: self.content.clone(),
            rendered_html: clone_opt(&self.rendered_html),
        }
    }
}

/// A category of posts: a directory below the content directory.
#[derive(Debug)]
pub struct Category {
    /// The directory's path below the content directory, slash-joined.
    pub slug: String,
    pub name: String,
    pub description: String,
    /// Lower comes first.
    pub index: i32,
    pub hidden: bool,
    pub icon: Option<String>,
    pub color: Option<String>,
    pub cover_image: Option<String>,
}

pub struct CategoryView {
    pub slug: Seq<char>,
    pub name: Seq<char>,
    pub description: Seq<char>,
    pub index: int,
    pub hidden: bool,
    pub icon: Option<Seq<char>>,
    pub color: Option<Seq<char>>,
    pub cover_image: Option<Seq<char>>,
}

impl View for Category {
    type V = CategoryView;

    open spec fn view(&self) -> CategoryView {
        CategoryView {
            slug: self.slug@,
            name: self.name@,
            description: self.description@,
            index: self.index as int,
            hidden: self.hidden,
            icon: opt_chars(self.icon),
            color: opt_chars(self.color),
            cover_image: opt_chars(self.cover_image),
        }
    }
}

impl Clone for Category {
    fn clone(&self) -> (r: Self)
        ensures
            r@ == self@,
    {
        Category {
            slug: self.slug.clone(),
            name: self.name.clone(),
            description: self.description.clone(),
            index: self.index,
            hidden: self.hidden,
            icon: clone_opt(&self.icon),
            color: clone_opt(&self.color),
            cover_image: clone_opt(&self.cover_image),
        }
    }
}

/// The sort position of a category that declares none.
pub fn default_category_index() -> (r: i32)
    ensures
        r == 999,
{
    999
}

/// The value of a flag that is set unless the document says otherwise.
pub fn default_true() -> (r: bool)
    ensures
        r,
{
    true
}

/// The views of a list of categories.
pub open spec fn category_views(cs: Seq<Category>) -> Seq<CategoryView> {
    cs.map_values(|c: Category| c@)
}

/// The front matter of a page.
#[derive(Debug)]
pub struct PageFrontmatter {
    pub title: String,
    pub description: Option<String>,
    pub hidden: bool,
    pub comments: bool,
}

pub struct PageFrontmatterView {
    pub title: Seq<char>,
    pub description: Option<Seq<char>>,
    pub hidden: bool,
    pub comments: bool,
}

impl View for PageFrontmatter {
    type V = PageFrontmatterView;

    open spec fn view(&self) -> PageFrontmatterView {
        PageFrontmatterView {
            title: self.title@,
            description: opt_chars(self.description),
            hidden: self.hidden,
            comments: self.comments,
        }
    }
}

/// A page: content outside the categories.
#[derive(Debug)]
pub struct Page {
    pub slug: String,
    pub frontmatter: PageFrontmatter,
    pub content: String,
    pub rendered_html: Option<String>,
}

pub struct PageView {
    pub slug: Seq<char>,
    pub frontmatter: PageFrontmatterView,
    pub content: Seq<char>,
    pub rendered_html: Option<Seq<char>>,
}

impl View for Page {
    type V = PageView;

    open spec fn view(&self) -> PageView {
        PageView {
            slug: self.slug@,
            frontmatter: self.frontmatter@,
            content: self.content@,
            rendered_html: opt_chars(self.rendered_html),
        }
    }
}

} // verus!
