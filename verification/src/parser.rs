//! From a source file to a document: the front matter is split from the
//! body, and slug and category are read off the file's path.

use crate::text::{
    chars_of, find, find_from, find_str, has_prefix, is_str, join, joined, lemma_find_from,
    occurs_at, opt_chars, owned, replace_str, replaced, rfind, rfind_str, slice, split, split_on,
    starts_with_str, str_views, string_of, trim, trim_chars, trim_start, trim_start_chars, views,
};
use crate::types::{
    Frontmatter, FrontmatterView, Page, PageFrontmatter, PageFrontmatterView, Post, PostDate,
    Timestamp,
};
use vstd::prelude::*;

verus! {

/// Why a source file is no document.
#[derive(Debug, PartialEq, Eq, Structural)]
pub enum ParseError {
    /// The content does not hold two `---` delimiters.
    InvalidFrontmatter,
    /// The path names no file.
    InvalidPath,
    /// No directory of the path is called `posts`.
    MissingPostsDirectory,
    /// The file lies directly in the `posts` directory.
    MissingCategory,
    /// The front matter gives no title.
    MissingTitle,
    /// The front matter gives no date of publication.
    MissingDate,
}

impl ParseError {
    /// The error in words.
    pub fn message(&self) -> (r: String)
        ensures
            r@ == error_message(*self),
    {
        match self {
            ParseError::InvalidFrontmatter => owned(
                "Invalid frontmatter format. Expected:\n---\nfrontmatter\n---\ncontent",
            ),
            ParseError::InvalidPath => owned("Invalid file path"),
            ParseError::MissingPostsDirectory => owned(
                "Could not find 'posts' in path. Expected format: content/posts/<category>/...",
            ),
            ParseError::MissingCategory => owned(
                "Could not extract category from path. Expected format: content/posts/<category>/...",
            ),
            ParseError::MissingTitle => owned("Failed to parse frontmatter: missing field `title`"),
            ParseError::MissingDate => owned("Failed to parse frontmatter: missing field `date`"),
        }
    }
}

/// An error in words.
pub open spec fn error_message(e: ParseError) -> Seq<char> {
    match e {
        ParseError::InvalidFrontmatter => "Invalid frontmatter format. Expected:\n---\nfrontmatter\n---\ncontent"@,
        ParseError::InvalidPath => "Invalid file path"@,
        ParseError::MissingPostsDirectory => "Could not find 'posts' in path. Expected format: content/posts/<category>/..."@,
        ParseError::MissingCategory => "Could not extract category from path. Expected format: content/posts/<category>/..."@,
        ParseError::MissingTitle => "Failed to parse frontmatter: missing field `title`"@,
        ParseError::MissingDate => "Failed to parse frontmatter: missing field `date`"@,
    }
}

// ---------------------------------------------------------------------------
// Front matter
// ---------------------------------------------------------------------------

/// The front matter and the body of a document, each without the white space
/// around it: what lies between the first two `---`, and what follows the
/// second. `None` where the content holds fewer than two.
pub open spec fn frontmatter_split(content: Seq<char>) -> Option<(Seq<char>, Seq<char>)> {
    match find(content, "---"@) {
        None => None,
        Some(first) => match find_from(content, "---"@, first + "---"@.len()) {
            None => None,
            Some(second) => Some(
                (
                    trim(content.subrange(first + "---"@.len(), second)),
                    trim(content.skip(second + "---"@.len())),
                ),
            ),
        },
    }
}

/// A document is split exactly when `---` stands in it twice without
/// overlap; what else it holds does not matter.
pub proof fn lemma_split_needs_two_delimiters(content: Seq<char>)
    ensures
        frontmatter_split(content) is Some <==> exists|a: int, b: int|
            #![trigger occurs_at(content, "---"@, a), occurs_at(content, "---"@, b)]
            occurs_at(content, "---"@, a) && occurs_at(content, "---"@, b) && a + "---"@.len()
                <= b,
{
    let d = "---"@;
    lemma_find_from(content, d, 0);
    match find(content, d) {
        None => {},
        Some(first) => {
            lemma_find_from(content, d, first + d.len());
            match find_from(content, d, first + d.len()) {
                None => {
                    assert forall|a: int, b: int|
                        #![trigger occurs_at(content, d, a), occurs_at(content, d, b)]
                        occurs_at(content, d, a) && occurs_at(content, d, b) implies !(a + d.len()
                        <= b) by {
                        if a + d.len() <= b {
                            assert(first <= a);
                            assert(first + d.len() <= b);
                        }
                    }
                },
                Some(second) => {
                    assert(occurs_at(content, d, first) && occurs_at(content, d, second) && first
                        + d.len() <= second);
                },
            }
        },
    }
}

// ---------------------------------------------------------------------------
// Paths
// ---------------------------------------------------------------------------

/// The components of a path: its pieces between slashes, without the empty
/// ones and without `.`.
pub open spec fn components(parts: Seq<Seq<char>>) -> Seq<Seq<char>>
    decreases parts.len(),
{
    if parts.len() == 0 {
        parts
    } else if parts.last().len() == 0 || parts.last() == "."@ {
        components(parts.drop_last())
    } else {
        components(parts.drop_last()).push(parts.last())
    }
}

/// The components of a path.
pub open spec fn path_components(path: Seq<char>) -> Seq<Seq<char>> {
    components(split_on(path, '/'))
}

/// A file's name without its extension: the name up to its last `.`, or the
/// whole name where it has none or only starts with one.
pub open spec fn stem(name: Seq<char>) -> Seq<char> {
    match rfind(name, "."@) {
        None => name,
        Some(i) => if i <= 0 {
            name
        } else {
            name.take(i)
        },
    }
}

/// The slug of the document at `path`: the stem of its last component.
/// `None` where the path has no components or ends in `..`.
pub open spec fn path_slug(path: Seq<char>) -> Option<Seq<char>> {
    let cs = path_components(path);
    if cs.len() == 0 || cs.last() == ".."@ {
        None
    } else {
        Some(stem(cs.last()))
    }
}

/// The index of the first component that equals `name`.
pub open spec fn component_index(cs: Seq<Seq<char>>, name: Seq<char>, from: int) -> Option<int>
    decreases cs.len() - from,
{
    if from < 0 || from >= cs.len() {
        None
    } else if cs[from] == name {
        Some(from)
    } else {
        component_index(cs, name, from + 1)
    }
}

/// The directory names in `cs[from..to]`: all of them but `..`.
pub open spec fn directory_names(cs: Seq<Seq<char>>, from: int, to: int) -> Seq<Seq<char>>
    decreases to - from,
{
    if to <= from || from < 0 || to > cs.len() {
        Seq::empty()
    } else if cs[to - 1] == ".."@ {
        directory_names(cs, from, to - 1)
    } else {
        directory_names(cs, from, to - 1).push(cs[to - 1])
    }
}

/// The category of the document at `path`: the directories between the
/// first `posts` and the file, slash-joined.
pub open spec fn path_category(path: Seq<char>) -> Result<Seq<char>, ParseError> {
    let cs = path_components(path);
    match component_index(cs, "posts"@, 0) {
        None => Err(ParseError::MissingPostsDirectory),
        Some(anchor) => {
            let dirs = directory_names(cs, anchor + 1, cs.len() - 1);
            if dirs.len() == 0 {
                Err(ParseError::MissingCategory)
            } else {
                Ok(joined(dirs, "/"@))
            }
        },
    }
}

fn components_of(path: &Vec<char>) -> (r: Vec<Vec<char>>)
    ensures
        views(r@) == path_components(path@),
{
    let parts = split(path, '/');
    let mut r: Vec<Vec<char>> = Vec::new();
    let mut i: usize = 0;
    assert(views(parts@).take(0) =~= Seq::<Seq<char>>::empty());
    assert(views(r@) =~= Seq::<Seq<char>>::empty());
    while i < parts.len()
        invariant
            i <= parts.len(),
            views(r@) == components(views(parts@).take(i as int)),
        decreases parts.len() - i,
    {
        let ghost before = r@;
        assert(views(parts@).take(i + 1).drop_last() =~= views(parts@).take(i as int));
        assert(views(parts@).take(i + 1).last() == parts@[i as int]@);
        if parts[i].len() > 0 && !is_str(&parts[i], ".") {
            r.push(parts[i].clone());
            assert(r@.last()@ == parts@[i as int]@);
            assert(views(r@) =~= views(before).push(parts@[i as int]@));
        }
        i += 1;
    }
    assert(views(parts@).take(parts.len() as int) =~= views(parts@));
    r
}

fn stem_of(name: &Vec<char>) -> (r: Vec<char>)
    ensures
        r@ == stem(name@),
{
    match rfind_str(name, ".") {
        None => slice_all(name),
        Some(i) => if i == 0 {
            slice_all(name)
        } else {
            let r = slice(name, 0, i);
            assert(r@ =~= name@.take(i as int));
            r
        },
    }
}

fn slice_all(v: &Vec<char>) -> (r: Vec<char>)
    ensures
        r@ == v@,
{
    let r = slice(v, 0, v.len());
    assert(r@ =~= v@);
    r
}

/// What a source file holds, before its front matter is decoded.
pub struct RawDocument {
    pub slug: String,
    /// Empty for a page.
    pub category: String,
    /// The front matter as written; `None` for a page that has none.
    pub frontmatter: Option<String>,
    pub content: String,
}

/// The step from files to documents.
pub struct Parser {}

impl Parser {
    /// Splits a document into its front matter and its body.
    pub fn split_frontmatter(content: &str) -> (r: Result<(String, String), ParseError>)
        ensures
            match r {
                Ok(parts) => frontmatter_split(content@) == Some((parts.0@, parts.1@)),
                Err(e) => frontmatter_split(content@) is None && e
                    == ParseError::InvalidFrontmatter,
            },
    {
        let c = chars_of(content);
        let delimiter = chars_of("---");
        let first = match find_str(&c, "---", 0) {
            None => {
                return Err(ParseError::InvalidFrontmatter);
            },
            Some(i) => i,
        };
        let second = match find_str(&c, "---", first + delimiter.len()) {
            None => {
                return Err(ParseError::InvalidFrontmatter);
            },
            Some(i) => i,
        };
        let head = trim_chars(&slice(&c, first + delimiter.len(), second));
        let body_from: usize = second + delimiter.len();
        assert(c@.skip(body_from as int) =~= c@.subrange(body_from as int, c.len() as int));
        let body = trim_chars(&slice(&c, body_from, c.len()));
        Ok((string_of(&head), string_of(&body)))
    }

    /// The slug of the document at `path`.
    pub fn path_to_slug(path: &str) -> (r: Result<String, ParseError>)
        ensures
            match r {
                Ok(slug) => path_slug(path@) == Some(slug@),
                Err(e) => path_slug(path@) is None && e == ParseError::InvalidPath,
            },
    {
        let p = chars_of(path);
        let cs = components_of(&p);
        if cs.len() == 0 {
            return Err(ParseError::InvalidPath);
        }
        let last = &cs[cs.len() - 1];
        assert(views(cs@).last() == last@);
        if is_str(last, "..") {
            return Err(ParseError::InvalidPath);
        }
        Ok(string_of(&stem_of(last)))
    }

    /// The category of the document at `path`.
    pub fn extract_category(path: &str) -> (r: Result<String, ParseError>)
        ensures
            match r {
                Ok(category) => path_category(path@) == Ok::<Seq<char>, ParseError>(category@),
                Err(e) => path_category(path@) == Err::<Seq<char>, ParseError>(e),
            },
    {
        let p = chars_of(path);
        let cs = components_of(&p);
        let ghost all = views(cs@);
        let mut anchor: usize = 0;
        while anchor < cs.len() && !is_str(&cs[anchor], "posts")
            invariant
                anchor <= cs.len(),
                all == views(cs@),
                component_index(all, "posts"@, 0) == component_index(all, "posts"@, anchor as int),
            decreases cs.len() - anchor,
        {
            assert(all[anchor as int] == cs@[anchor as int]@);
            anchor += 1;
        }
        if anchor >= cs.len() {
            return Err(ParseError::MissingPostsDirectory);
        }
        assert(all[anchor as int] == cs@[anchor as int]@);
        let from: usize = anchor + 1;
        let to: usize = cs.len() - 1;
        let mut dirs: Vec<Vec<char>> = Vec::new();
        let mut i: usize = from;
        assert(views(dirs@) =~= Seq::<Seq<char>>::empty());
        while i < to
            invariant
                from <= i,
                i <= to || i == from,
                to < cs.len(),
                all == views(cs@),
                views(dirs@) == directory_names(all, from as int, i as int),
            decreases to - i,
        {
            let ghost before = dirs@;
            assert(all[i as int] == cs@[i as int]@);
            if !is_str(&cs[i], "..") {
                dirs.push(cs[i].clone());
                assert(dirs@.last()@ == cs@[i as int]@);
                assert(views(dirs@) =~= views(before).push(cs@[i as int]@));
            }
            i += 1;
        }
        if dirs.len() == 0 {
            return Err(ParseError::MissingCategory);
        }
        let slash = chars_of("/");
        Ok(string_of(&join(&dirs, &slash)))
    }

    /// Reads the post at `path` with the given content: its slug, its
    /// category, its front matter as written, and its body.
    pub fn parse_file(path: &str, content: &str) -> (r: Result<RawDocument, ParseError>)
        ensures
            match r {
                Ok(doc) => frontmatter_split(content@) == Some(
                    (doc.frontmatter->0@, doc.content@),
                ) && doc.frontmatter is Some && path_slug(path@) == Some(doc.slug@)
                    && path_category(path@) == Ok::<Seq<char>, ParseError>(doc.category@),
                Err(e) => post_error(path@, content@) == Some(e),
            },
    {
        let (frontmatter, body) = match Self::split_frontmatter(content) {
            Ok(parts) => parts,
            Err(e) => {
                return Err(e);
            },
        };
        let slug = match Self::path_to_slug(path) {
            Ok(slug) => slug,
            Err(e) => {
                return Err(e);
            },
        };
        let category = match Self::extract_category(path) {
            Ok(category) => category,
            Err(e) => {
                return Err(e);
            },
        };
        Ok(RawDocument { slug, category, frontmatter: Some(frontmatter), content: body })
    }

    /// Reads the page at `path` with the given content. A page whose content
    /// does not start with `---` has no front matter and is all body.
    pub fn parse_page_file(path: &str, content: &str) -> (r: Result<RawDocument, ParseError>)
        ensures
            match r {
                Ok(doc) => path_slug(path@) == Some(doc.slug@) && doc.category@.len() == 0 && (
                if has_prefix(trim_start(content@), "---"@) {
                    doc.frontmatter is Some && frontmatter_split(content@) == Some(
                        (doc.frontmatter->0@, doc.content@),
                    )
                } else {
                    doc.frontmatter is None && doc.content@ == content@
                }),
                Err(e) => if path_slug(path@) is None {
                    e == ParseError::InvalidPath
                } else {
                    e == ParseError::InvalidFrontmatter && has_prefix(
                        trim_start(content@),
                        "---"@,
                    ) && frontmatter_split(content@) is None
                },
            },
    {
        let slug = match Self::path_to_slug(path) {
            Ok(slug) => slug,
            Err(e) => {
                return Err(e);
            },
        };
        let c = chars_of(content);
        if starts_with_str(&trim_start_chars(&c), "---") {
            match Self::split_frontmatter(content) {
                Ok((frontmatter, body)) => Ok(
                    RawDocument {
                        slug,
                        category: String::new(),
                        frontmatter: Some(frontmatter),
                        content: body,
                    },
                ),
                Err(e) => Err(e),
            }
        } else {
            Ok(
                RawDocument {
                    slug,
                    category: String::new(),
                    frontmatter: None,
                    content: string_of(&c),
                },
            )
        }
    }

    /// The front matter of a page that declares none: its title is the slug
    /// with blanks for hyphens, it is visible, and it takes comments.
    pub fn default_page_frontmatter(slug: &str) -> (r: PageFrontmatter)
        ensures
            r.title@ == replaced(slug@, "-"@, " "@),
            r.description is None,
            !r.hidden,
            r.comments,
    {
        let s = chars_of(slug);
        PageFrontmatter {
            title: string_of(&replace_str(&s, "-", " ")),
            description: None,
            hidden: false,
            comments: true,
        }
    }
}

// ---------------------------------------------------------------------------
// Front matter fields
// ---------------------------------------------------------------------------

/// The date of a post as its front matter may write it: an instant alone,
/// or a record of the instants of publication and of the last change.
#[derive(Debug, Clone, Copy, PartialEq, Eq, Structural)]
pub enum DateField {
    Simple(Timestamp),
    Nested { posted: Option<Timestamp>, modified: Option<Timestamp> },
}

/// The fields of a post's front matter as decoded, each present or not.
#[derive(Debug)]
pub struct FrontmatterFields {
    pub title: Option<String>,
    pub date: Option<DateField>,
    pub tags: Option<Vec<String>>,
    pub cover_image: Option<String>,
    pub og_image: Option<String>,
    pub description: Option<String>,
    pub display_ad: Option<bool>,
    pub hidden: Option<bool>,
    pub comments: Option<bool>,
}

/// The fields of a page's front matter as decoded, each present or not.
#[derive(Debug)]
pub struct PageFrontmatterFields {
    pub title: Option<String>,
    pub description: Option<String>,
    pub hidden: Option<bool>,
    pub comments: Option<bool>,
}

/// The one form of a post's date: an instant alone is the instant of
/// publication of a post that was never changed. `None` where no instant
/// of publication is given.
pub open spec fn normalized_date(date: Option<DateField>) -> Option<PostDate> {
    match date {
        Some(DateField::Simple(posted)) => Some(PostDate { posted, modified: None }),
        Some(DateField::Nested { posted: Some(posted), modified }) => Some(
            PostDate { posted, modified },
        ),
        _ => None,
    }
}

/// A flag, or its default where the front matter does not give it.
pub open spec fn flag_or(flag: Option<bool>, default: bool) -> bool {
    match flag {
        Some(b) => b,
        None => default,
    }
}

/// The front matter that the fields make: title and date of publication
/// must be given; without tags a post has none, and unless the fields say
/// otherwise it shows no advertisement, is visible, and takes comments.
pub open spec fn frontmatter_of(fields: FrontmatterFields) -> Result<FrontmatterView, ParseError> {
    match (fields.title, normalized_date(fields.date)) {
        (None, _) => Err(ParseError::MissingTitle),
        (Some(_), None) => Err(ParseError::MissingDate),
        (Some(title), Some(date)) => Ok(
            FrontmatterView {
                title: title@,
                date,
                tags: match fields.tags {
                    Some(tags) => str_views(tags@),
                    None => Seq::empty(),
                },
                cover_image: opt_chars(fields.cover_image),
                og_image: opt_chars(fields.og_image),
                description: opt_chars(fields.description),
                display_ad: flag_or(fields.display_ad, false),
                hidden: flag_or(fields.hidden, false),
                comments: flag_or(fields.comments, true),
            },
        ),
    }
}

/// The front matter of a page that the fields make: the title must be
/// given; unless the fields say otherwise the page is visible and takes
/// comments.
pub open spec fn page_frontmatter_of(fields: PageFrontmatterFields) -> Result<
    PageFrontmatterView,
    ParseError,
> {
    match fields.title {
        None => Err(ParseError::MissingTitle),
        Some(title) => Ok(
            PageFrontmatterView {
                title: title@,
                description: opt_chars(fields.description),
                hidden: flag_or(fields.hidden, false),
                comments: flag_or(fields.comments, true),
            },
        ),
    }
}

fn flag(value: Option<bool>, default: bool) -> (r: bool)
    ensures
        r == flag_or(value, default),
{
    match value {
        Some(b) => b,
        None => default,
    }
}

impl Parser {
    /// Brings a post's date into its one form.
    pub fn normalize_date(date: Option<DateField>) -> (r: Option<PostDate>)
        ensures
            r == normalized_date(date),
    {
        match date {
            Some(DateField::Simple(posted)) => Some(PostDate::new(posted)),
            Some(DateField::Nested { posted: Some(posted), modified }) => Some(
                PostDate { posted, modified },
            ),
            _ => None,
        }
    }

    /// The front matter of a post, from its decoded fields.
    pub fn build_frontmatter(fields: FrontmatterFields) -> (r: Result<Frontmatter, ParseError>)
        ensures
            match r {
                Ok(f) => frontmatter_of(fields) == Ok::<FrontmatterView, ParseError>(f@),
                Err(e) => frontmatter_of(fields) == Err::<FrontmatterView, ParseError>(e),
            },
    {
        let title = match fields.title {
            Some(title) => title,
            None => {
                return Err(ParseError::MissingTitle);
            },
        };
        let date = match Self::normalize_date(fields.date) {
            Some(date) => date,
            None => {
                return Err(ParseError::MissingDate);
            },
        };
        let tags = match fields.tags {
            Some(tags) => tags,
            None => {
                let none: Vec<String> = Vec::new();
                assert(str_views(none@) =~= Seq::<Seq<char>>::empty());
                none
            },
        };
        Ok(
            Frontmatter {
                title,
                date,
                tags,
                cover_image: fields.cover_image,
                og_image: fields.og_image,
                description: fields.description,
                display_ad: flag(fields.display_ad, false),
                hidden: flag(fields.hidden, false),
                comments: flag(fields.comments, true),
            },
        )
    }

    /// The front matter of a page, from its decoded fields.
    pub fn build_page_frontmatter(fields: PageFrontmatterFields) -> (r: Result<
        PageFrontmatter,
        ParseError,
    >)
        ensures
            match r {
                Ok(f) => page_frontmatter_of(fields) == Ok::<PageFrontmatterView, ParseError>(f@),
                Err(e) => page_frontmatter_of(fields) == Err::<PageFrontmatterView, ParseError>(e),
            },
    {
        match fields.title {
            None => Err(ParseError::MissingTitle),
            Some(title) => Ok(
                PageFrontmatter {
                    title,
                    description: fields.description,
                    hidden: flag(fields.hidden, false),
                    comments: flag(fields.comments, true),
                },
            ),
        }
    }
}

/// The first reason for which the file at `path` with the given content is
/// no post; `None` where it is one.
pub open spec fn post_error(path: Seq<char>, content: Seq<char>) -> Option<ParseError> {
    if frontmatter_split(content) is None {
        Some(ParseError::InvalidFrontmatter)
    } else if path_slug(path) is None {
        Some(ParseError::InvalidPath)
    } else {
        match path_category(path) {
            Ok(_) => None,
            Err(e) => Some(e),
        }
    }
}

impl RawDocument {
    /// The post that this document is, given its decoded front matter.
    pub fn into_post(self, frontmatter: Frontmatter) -> (r: Post)
        ensures
            r.slug@ == self.slug@,
            r.category@ == self.category@,
            r.frontmatter@ == frontmatter@,
            r.content@ == self.content@,
            r.rendered_html is None,
    {
        Post {
            slug: self.slug,
            category: self.category,
            frontmatter,
            content: self.content,
            rendered_html: None,
        }
    }

    /// The page that this document is, given its decoded front matter; a
    /// page without front matter gets the default.
    pub fn into_page(self, frontmatter: Option<PageFrontmatter>) -> (r: Page)
        ensures
            r.slug@ == self.slug@,
            r.content@ == self.content@,
            r.rendered_html is None,
            match frontmatter {
                Some(f) => r.frontmatter@ == f@,
                None => r.frontmatter@.title == replaced(self.slug@, "-"@, " "@)
                    && r.frontmatter@.description is None && !r.frontmatter@.hidden
                    && r.frontmatter@.comments,
            },
    {
        let front = match frontmatter {
            Some(f) => f,
            None => Parser::default_page_frontmatter(self.slug.as_str()),
        };
        Page { slug: self.slug, frontmatter: front, content: self.content, rendered_html: None }
    }
}

} // verus!
