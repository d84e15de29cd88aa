//! Categories: the directories of the content tree that hold posts.

use crate::metadata::in_tree;
use crate::text::{
    append, append_str, chars_of, comes_before, has_prefix, lemma_comes_before_asymmetric,
    lemma_comes_before_ranks, lemma_insert_members, lemma_last_members, slice, split, split_on,
    starts_with, starts_with_str, str_before, str_eq, string_of, to_uppercase, uppercase_of,
    views,
};
use crate::types::{category_views, Category, CategoryView};
use vstd::prelude::*;

verus! {

/// The file that holds a category's metadata.
pub const CATEGORY_FILE: &'static str = ".category.yaml";

/// One directory below the content directory, as found on disk.
#[derive(Debug)]
pub struct DirectoryInfo {
    /// The directory's path below the content directory, slash-joined.
    pub path: String,
    /// Whether the directory itself holds a Markdown file.
    pub has_markdown: bool,
    /// What the directory's metadata file declares, where it has one.
    pub metadata: Option<Category>,
}

pub struct DirectoryView {
    pub path: Seq<char>,
    pub has_markdown: bool,
    pub metadata: Option<CategoryView>,
}

impl View for DirectoryInfo {
    type V = DirectoryView;

    open spec fn view(&self) -> DirectoryView {
        DirectoryView {
            path: self.path@,
            has_markdown: self.has_markdown,
            metadata: match self.metadata {
                Some(c) => Some(c@),
                None => None,
            },
        }
    }
}

/// The views of a list of directories.
pub open spec fn directory_views(dirs: Seq<DirectoryInfo>) -> Seq<DirectoryView> {
    dirs.map_values(|d: DirectoryInfo| d@)
}

/// `s` with its first character in upper case.
pub open spec fn capitalized(s: Seq<char>) -> Seq<char> {
    if s.len() == 0 {
        s
    } else {
        uppercase_of(s[0]) + s.skip(1)
    }
}

/// The given text with its first character in upper case.
pub fn capitalize(s: &str) -> (r: String)
    ensures
        r@ == capitalized(s@),
{
    let v = chars_of(s);
    if v.len() == 0 {
        return string_of(&v);
    }
    let upper = to_uppercase(v[0]);
    capitalized_with(&v, upper.as_str())
}

/// `s` with `upper` in the place of its first character.
pub fn capitalized_with(s: &Vec<char>, upper: &str) -> (r: String)
    requires
        s.len() > 0,
    ensures
        r@ == upper@ + s@.skip(1),
{
    let mut r = chars_of(upper);
    let rest = slice(s, 1, s.len());
    assert(rest@ =~= s@.skip(1));
    append(&mut r, &rest);
    string_of(&r)
}

/// A name that marks a file or directory as not for publication.
pub open spec fn is_hidden_name(name: Seq<char>) -> bool {
    has_prefix(name, "."@) || has_prefix(name, "_"@)
}

/// Whether one of the segments in `parts[..n]` is a hidden name.
pub open spec fn any_hidden(parts: Seq<Seq<char>>, n: int) -> bool
    decreases n,
{
    if n <= 0 || n > parts.len() {
        false
    } else {
        is_hidden_name(parts[n - 1]) || any_hidden(parts, n - 1)
    }
}

/// Whether the path's last segment is a hidden name.
pub open spec fn hidden_path(path: Seq<char>) -> bool {
    is_hidden_name(split_on(path, '/').last())
}

/// Whether a segment of the path is a hidden name.
pub open spec fn below_hidden(path: Seq<char>) -> bool {
    any_hidden(split_on(path, '/'), split_on(path, '/').len() as int)
}

/// Whether the file or directory at `path` is hidden by its name.
pub fn is_hidden(path: &str) -> (b: bool)
    ensures
        b == hidden_path(path@),
{
    let parts = split(&chars_of(path), '/');
    proof {
        crate::text::lemma_split_nonempty(path@, '/');
    }
    let last = &parts[parts.len() - 1];
    assert(views(parts@).last() == last@);
    starts_with_str(last, ".") || starts_with_str(last, "_")
}

fn is_below_hidden(path: &str) -> (b: bool)
    ensures
        b == below_hidden(path@),
{
    let parts = split(&chars_of(path), '/');
    let ghost all = views(parts@);
    let mut i: usize = 0;
    while i < parts.len()
        invariant
            i <= parts.len(),
            all == views(parts@),
            all == split_on(path@, '/'),
            !any_hidden(all, i as int),
        decreases parts.len() - i,
    {
        assert(all[i as int] == parts@[i as int]@);
        if starts_with_str(&parts[i], ".") || starts_with_str(&parts[i], "_") {
            proof {
                assert(is_hidden_name(all[i as int]));
                assert(any_hidden(all, i + 1));
                lemma_any_hidden_grows(all, i + 1, all.len() as int);
            }
            return true;
        }
        i += 1;
    }
    false
}

proof fn lemma_any_hidden_grows(parts: Seq<Seq<char>>, n: int, m: int)
    requires
        0 <= n <= m <= parts.len(),
        any_hidden(parts, n),
    ensures
        any_hidden(parts, m),
    decreases m - n,
{
    if n < m {
        lemma_any_hidden_grows(parts, n, m - 1);
    }
}

/// Whether `dirs[..n]` holds a directory at or below `path` that holds a
/// Markdown file and is not below a hidden name.
pub open spec fn has_posts(dirs: Seq<DirectoryView>, path: Seq<char>, n: int) -> bool
    decreases n,
{
    if n <= 0 || n > dirs.len() {
        false
    } else {
        (dirs[n - 1].has_markdown && in_tree(dirs[n - 1].path, path) && !below_hidden(
            dirs[n - 1].path,
        )) || has_posts(dirs, path, n - 1)
    }
}

/// Whether `dirs[..n]` holds a directory at or above `path` whose metadata
/// declares it hidden.
pub open spec fn hidden_above(dirs: Seq<DirectoryView>, path: Seq<char>, n: int) -> bool
    decreases n,
{
    if n <= 0 || n > dirs.len() {
        false
    } else {
        (match dirs[n - 1].metadata {
            Some(m) => m.hidden && in_tree(path, dirs[n - 1].path),
            None => false,
        }) || hidden_above(dirs, path, n - 1)
    }
}

/// Whether a directory is a category: no segment of its path is a hidden
/// name, and it or a directory below it holds a post.
pub open spec fn is_category(dirs: Seq<DirectoryView>, d: DirectoryView) -> bool {
    !below_hidden(d.path) && has_posts(dirs, d.path, dirs.len() as int)
}

/// The last segment of a path.
pub open spec fn last_segment(path: Seq<char>) -> Seq<char> {
    split_on(path, '/').last()
}

/// The category that a directory is. Its slug is the directory's path.
/// Without metadata its name is the capitalized last segment of the path and
/// it sorts last. It is hidden when it or a directory above it is declared
/// hidden.
pub open spec fn category_of(dirs: Seq<DirectoryView>, d: DirectoryView) -> CategoryView {
    let hidden = hidden_above(dirs, d.path, dirs.len() as int);
    match d.metadata {
        Some(m) => CategoryView { slug: d.path, hidden, ..m },
        None => CategoryView {
            slug: d.path,
            name: capitalized(last_segment(d.path)),
            description: Seq::empty(),
            index: 999,
            hidden,
            icon: None,
            color: None,
            cover_image: None,
        },
    }
}

/// The categories of the first `n` directories, in their order.
pub open spec fn categories_of(dirs: Seq<DirectoryView>, n: int) -> Seq<CategoryView>
    decreases n,
{
    if n <= 0 || n > dirs.len() {
        Seq::empty()
    } else if is_category(dirs, dirs[n - 1]) {
        categories_of(dirs, n - 1).push(category_of(dirs, dirs[n - 1]))
    } else {
        categories_of(dirs, n - 1)
    }
}

/// Whether `a` sorts before `b`: by index, then by name.
pub open spec fn sorts_before(a: CategoryView, b: CategoryView) -> bool {
    a.index < b.index || (a.index == b.index && comes_before(a.name, b.name))
}

/// Where `c` goes into a sorted list: behind every category that does not
/// sort behind it.
pub open spec fn sort_position(sorted: Seq<CategoryView>, c: CategoryView) -> int
    decreases sorted.len(),
{
    if sorted.len() == 0 {
        0
    } else if sorts_before(c, sorted.last()) {
        sort_position(sorted.drop_last(), c)
    } else {
        sorted.len() as int
    }
}

/// The categories sorted by index and name; equal ones keep their order.
pub open spec fn sorted_categories(cs: Seq<CategoryView>) -> Seq<CategoryView>
    decreases cs.len(),
{
    if cs.len() == 0 {
        Seq::empty()
    } else {
        let sorted = sorted_categories(cs.drop_last());
        sorted.insert(sort_position(sorted, cs.last()), cs.last())
    }
}

/// Whether a list is in order: no category stands behind one that sorts
/// behind it.
pub open spec fn in_sort_order(cs: Seq<CategoryView>) -> bool {
    forall|i: int, j: int| 0 <= i < j < cs.len() ==> !sorts_before(cs[j], cs[i])
}

proof fn lemma_sorts_before_ranks(a: CategoryView, b: CategoryView, c: CategoryView)
    requires
        !sorts_before(a, b),
        !sorts_before(b, c),
    ensures
        !sorts_before(a, c),
{
    if a.index == b.index && b.index == c.index {
        lemma_comes_before_ranks(a.name, b.name, c.name);
    }
}

proof fn lemma_sort_position(sorted: Seq<CategoryView>, c: CategoryView)
    ensures
        0 <= sort_position(sorted, c) <= sorted.len(),
        forall|j: int| sort_position(sorted, c) <= j < sorted.len() ==> sorts_before(c, sorted[j]),
        sort_position(sorted, c) > 0 ==> !sorts_before(c, sorted[sort_position(sorted, c) - 1]),
    decreases sorted.len(),
{
    if sorted.len() > 0 && sorts_before(c, sorted.last()) {
        let init = sorted.drop_last();
        lemma_sort_position(init, c);
        assert forall|j: int| sort_position(sorted, c) <= j < sorted.len() implies sorts_before(
            c,
            sorted[j],
        ) by {
            if j < init.len() {
                assert(sorted[j] == init[j]);
            }
        }
        if sort_position(sorted, c) > 0 {
            assert(sorted[sort_position(sorted, c) - 1] == init[sort_position(init, c) - 1]);
        }
    }
}

/// Sorting keeps every category, adds none, and leaves the list in order:
/// by index, and by name where the indices are equal.
pub proof fn lemma_sorted_categories(cs: Seq<CategoryView>)
    ensures
        sorted_categories(cs).len() == cs.len(),
        in_sort_order(sorted_categories(cs)),
        forall|c: CategoryView| #[trigger] sorted_categories(cs).contains(c) <==> cs.contains(c),
    decreases cs.len(),
{
    if cs.len() > 0 {
        let init = cs.drop_last();
        let c = cs.last();
        let sorted = sorted_categories(init);
        lemma_sorted_categories(init);
        lemma_sort_position(sorted, c);
        let k = sort_position(sorted, c);
        let r = sorted.insert(k, c);
        assert forall|i: int, j: int| 0 <= i < j < r.len() implies !sorts_before(r[j], r[i]) by {
            if j < k {
                assert(r[i] == sorted[i] && r[j] == sorted[j]);
            } else if j == k {
                assert(r[i] == sorted[i]);
                if i < k - 1 {
                    assert(!sorts_before(sorted[k - 1], sorted[i]));
                    lemma_sorts_before_ranks(c, sorted[k - 1], sorted[i]);
                }
            } else if i < k {
                assert(r[i] == sorted[i] && r[j] == sorted[j - 1]);
            } else if i == k {
                assert(r[j] == sorted[j - 1]);
                assert(sorts_before(c, sorted[j - 1]));
                if comes_before(c.name, sorted[j - 1].name) {
                    lemma_comes_before_asymmetric(c.name, sorted[j - 1].name);
                }
            } else {
                assert(r[i] == sorted[i - 1] && r[j] == sorted[j - 1]);
            }
        }
        lemma_insert_members(sorted, k, c);
        lemma_last_members(cs);
    }
}

/// The categories of a content tree, sorted.
pub open spec fn discovered(dirs: Seq<DirectoryView>) -> Seq<CategoryView> {
    sorted_categories(categories_of(dirs, dirs.len() as int))
}

fn tree_contains(path: &str, root: &str) -> (b: bool)
    ensures
        b == in_tree(path@, root@),
{
    if str_eq(path, root) {
        return true;
    }
    let mut below = chars_of(root);
    append_str(&mut below, "/");
    starts_with(&chars_of(path), &below)
}

fn holds_posts(dirs: &Vec<DirectoryInfo>, path: &str) -> (b: bool)
    ensures
        b == has_posts(directory_views(dirs@), path@, dirs.len() as int),
{
    let ghost all = directory_views(dirs@);
    let mut i: usize = 0;
    while i < dirs.len()
        invariant
            i <= dirs.len(),
            all == directory_views(dirs@),
            !has_posts(all, path@, i as int),
        decreases dirs.len() - i,
    {
        assert(all[i as int] == dirs@[i as int]@);
        if dirs[i].has_markdown && tree_contains(dirs[i].path.as_str(), path) && !is_below_hidden(
            dirs[i].path.as_str(),
        ) {
            proof {
                lemma_has_posts_grows(all, path@, i + 1, all.len() as int);
            }
            return true;
        }
        i += 1;
    }
    false
}

proof fn lemma_has_posts_grows(dirs: Seq<DirectoryView>, path: Seq<char>, n: int, m: int)
    requires
        0 <= n <= m <= dirs.len(),
        has_posts(dirs, path, n),
    ensures
        has_posts(dirs, path, m),
    decreases m - n,
{
    if n < m {
        lemma_has_posts_grows(dirs, path, n, m - 1);
    }
}

fn declared_hidden_above(dirs: &Vec<DirectoryInfo>, path: &str) -> (b: bool)
    ensures
        b == hidden_above(directory_views(dirs@), path@, dirs.len() as int),
{
    let ghost all = directory_views(dirs@);
    let mut i: usize = 0;
    while i < dirs.len()
        invariant
            i <= dirs.len(),
            all == directory_views(dirs@),
            !hidden_above(all, path@, i as int),
        decreases dirs.len() - i,
    {
        assert(all[i as int] == dirs@[i as int]@);
        let declared = match &dirs[i].metadata {
            Some(m) => m.hidden && tree_contains(path, dirs[i].path.as_str()),
            None => false,
        };
        if declared {
            proof {
                lemma_hidden_above_grows(all, path@, i + 1, all.len() as int);
            }
            return true;
        }
        i += 1;
    }
    false
}

/// A path that is below a hidden one of the first `n` directories is below
/// a hidden one of the first `m`, where `m` is not less.
pub proof fn lemma_hidden_above_grows(dirs: Seq<DirectoryView>, path: Seq<char>, n: int, m: int)
    requires
        0 <= n <= m <= dirs.len(),
        hidden_above(dirs, path, n),
    ensures
        hidden_above(dirs, path, m),
    decreases m - n,
{
    if n < m {
        lemma_hidden_above_grows(dirs, path, n, m - 1);
    }
}

/// The category that a directory is, given all directories of the tree.
pub fn load_category_metadata(dirs: &Vec<DirectoryInfo>, dir: &DirectoryInfo) -> (r: Category)
    ensures
        r@ == category_of(directory_views(dirs@), dir@),
{
    let hidden = declared_hidden_above(dirs, dir.path.as_str());
    match &dir.metadata {
        Some(m) => {
            let mut c = m.clone();
            c.slug = dir.path.clone();
            c.hidden = hidden;
            c
        },
        None => {
            let parts = split(&chars_of(dir.path.as_str()), '/');
            proof {
                crate::text::lemma_split_nonempty(dir.path@, '/');
            }
            let last = &parts[parts.len() - 1];
            assert(views(parts@).last() == last@);
            Category {
                slug: dir.path.clone(),
                name: capitalize(string_of(last).as_str()),
                description: String::new(),
                index: 999,
                hidden,
                icon: None,
                color: None,
                cover_image: None,
            }
        },
    }
}

fn category_sorts_before(a: &Category, b: &Category) -> (r: bool)
    ensures
        r == sorts_before(a@, b@),
{
    a.index < b.index || (a.index == b.index && str_before(a.name.as_str(), b.name.as_str()))
}

/// Sorts categories by index and name.
pub fn sort_categories(cs: &Vec<Category>) -> (r: Vec<Category>)
    ensures
        category_views(r@) == sorted_categories(category_views(cs@)),
{
    let ghost all = category_views(cs@);
    let mut r: Vec<Category> = Vec::new();
    let mut i: usize = 0;
    assert(category_views(r@) =~= Seq::<CategoryView>::empty());
    assert(all.take(0) =~= Seq::<CategoryView>::empty());
    while i < cs.len()
        invariant
            i <= cs.len(),
            all == category_views(cs@),
            category_views(r@) == sorted_categories(all.take(i as int)),
        decreases cs.len() - i,
    {
        let c = cs[i].clone();
        assert(all.take(i + 1).drop_last() =~= all.take(i as int));
        assert(all.take(i + 1).last() == c@);
        let ghost sorted = category_views(r@);
        let mut k: usize = r.len();
        assert(sorted.take(k as int) =~= sorted);
        while k > 0 && category_sorts_before(&c, &r[k - 1])
            invariant
                k <= r.len(),
                sorted == category_views(r@),
                sort_position(sorted, c@) == sort_position(sorted.take(k as int), c@),
            decreases k,
        {
            assert(sorted.take(k as int).drop_last() =~= sorted.take(k - 1));
            assert(sorted.take(k as int).last() == r@[k - 1]@);
            k -= 1;
        }
        proof {
            if k > 0 {
                assert(sorted.take(k as int).last() == r@[k - 1]@);
            }
        }
        r.insert(k, c);
        assert(category_views(r@) =~= sorted.insert(k as int, c@));
        i += 1;
    }
    assert(all.take(cs.len() as int) =~= all);
    r
}

/// The categories of a content tree, given its directories: every
/// directory that is not below a hidden name and holds a post, itself or
/// below it; sorted by index and name.
pub fn discover_categories(dirs: &Vec<DirectoryInfo>) -> (r: Vec<Category>)
    ensures
        category_views(r@) == discovered(directory_views(dirs@)),
{
    let ghost all = directory_views(dirs@);
    let mut found: Vec<Category> = Vec::new();
    let mut i: usize = 0;
    assert(category_views(found@) =~= Seq::<CategoryView>::empty());
    while i < dirs.len()
        invariant
            i <= dirs.len(),
            all == directory_views(dirs@),
            category_views(found@) == categories_of(all, i as int),
        decreases dirs.len() - i,
    {
        let ghost before = category_views(found@);
        assert(all[i as int] == dirs@[i as int]@);
        let dir = &dirs[i];
        if !is_below_hidden(dir.path.as_str()) && holds_posts(dirs, dir.path.as_str()) {
            let c = load_category_metadata(dirs, dir);
            found.push(c);
            assert(category_views(found@) =~= before.push(c@));
        }
        i += 1;
    }
    sort_categories(&found)
}

/// Whether a category with the given slug is among the categories.
pub fn validate_category(slug: &str, categories: &Vec<Category>) -> (b: bool)
    ensures
        b <==> exists|i: int| 0 <= i < categories.len() && categories@[i].slug@ == slug@,
{
    let mut i: usize = 0;
    while i < categories.len()
        invariant
            i <= categories.len(),
            forall|j: int| 0 <= j < i ==> categories@[j].slug@ != slug@,
        decreases categories.len() - i,
    {
        if str_eq(categories[i].slug.as_str(), slug) {
            return true;
        }
        i += 1;
    }
    false
}

/// A directory below one that is declared hidden is a hidden category,
/// whatever its own metadata says, or where it has none.
pub proof fn lemma_hidden_is_inherited(dirs: Seq<DirectoryView>, parent: int, child: int)
    requires
        0 <= parent < dirs.len(),
        0 <= child < dirs.len(),
        dirs[parent].metadata matches Some(m) && m.hidden,
        in_tree(dirs[child].path, dirs[parent].path),
    ensures
        category_of(dirs, dirs[child]).hidden,
{
    lemma_hidden_above_grows(dirs, dirs[child].path, parent + 1, dirs.len() as int);
}

} // verus!
