//! Pagination of listings: how many pages, which posts on which page, and
//! the links between pages.

use crate::text::{append, append_str, chars_of, decimal, decimal_chars, opt_chars, string_of};
use vstd::prelude::*;

verus! {

/// The number of pages that a listing of `total` posts takes, `per_page` to
/// a page. A listing without posts still has its first page, and so has one
/// that puts no posts on a page.
pub open spec fn page_count(total: nat, per_page: nat) -> nat {
    if total == 0 || per_page == 0 {
        1
    } else {
        ((total - 1) / per_page as int + 1) as nat
    }
}

/// The positions in the listing of the first post on `page` and of the one
/// behind its last; pages are counted from one.
pub open spec fn page_range(total: nat, per_page: nat, page: nat) -> (nat, nat) {
    if page == 0 {
        (0, 0)
    } else {
        let start = (page - 1) * per_page;
        if start >= total {
            (total, total)
        } else if start + per_page >= total {
            (start as nat, total)
        } else {
            (start as nat, (start + per_page) as nat)
        }
    }
}

/// The address of a page of a listing: the listing's own address for the
/// first page, `{base}page/{n}` for the others.
pub open spec fn page_url(base: Seq<char>, page: nat) -> Seq<char> {
    if page == 1 {
        base
    } else {
        base + "page/"@ + decimal(page)
    }
}

/// The first and the last page that a pagination links to: a window of at
/// most `window` pages around the current one, moved inwards at the ends. A
/// window of no pages links to none.
pub open spec fn page_window(current: nat, total_pages: nat, window: nat) -> (nat, nat) {
    let half = window / 2;
    if window == 0 {
        (1, 0)
    } else if total_pages <= window {
        (1, total_pages)
    } else if current <= half + 1 {
        (1, window)
    } else if current >= total_pages - half {
        ((total_pages - window + 1) as nat, total_pages)
    } else {
        ((current - half) as nat, current + half)
    }
}

/// The page in front of the window, where there is one.
pub open spec fn jump_prev(base: Seq<char>, first: nat) -> Option<Seq<char>> {
    if first > 1 {
        Some(page_url(base, (first - 1) as nat))
    } else {
        None
    }
}

/// The page behind the window, where there is one.
pub open spec fn jump_next(base: Seq<char>, last: nat, total_pages: nat) -> Option<Seq<char>> {
    if last < total_pages {
        Some(page_url(base, last + 1))
    } else {
        None
    }
}

/// Where "previous" leads: in front of the window, or else to the page
/// before the current one.
pub open spec fn prev_url(base: Seq<char>, current: nat, first: nat) -> Option<Seq<char>> {
    match jump_prev(base, first) {
        Some(u) => Some(u),
        None => if current > 1 {
            Some(page_url(base, (current - 1) as nat))
        } else {
            None
        },
    }
}

/// Where "next" leads: behind the window, or else to the page after the
/// current one.
pub open spec fn next_url(base: Seq<char>, current: nat, last: nat, total_pages: nat) -> Option<
    Seq<char>,
> {
    match jump_next(base, last, total_pages) {
        Some(u) => Some(u),
        None => if current < total_pages {
            Some(page_url(base, current + 1))
        } else {
            None
        },
    }
}

/// The links to the pages from `first` to `last`.
pub open spec fn page_links(base: Seq<char>, current: nat, first: nat, last: nat) -> Seq<
    (nat, Seq<char>, bool),
>
    decreases last,
{
    if last < first || last == 0 {
        Seq::empty()
    } else {
        page_links(base, current, first, (last - 1) as nat).push(
            (last, page_url(base, last), last == current),
        )
    }
}

/// A window that ends before it starts links to nothing.
proof fn lemma_no_links_before_first(base: Seq<char>, current: nat, first: nat, last: nat)
    requires
        last < first,
    ensures
        page_links(base, current, first, last) == Seq::<(nat, Seq<char>, bool)>::empty(),
{
}

/// A link to one page of a listing.
#[derive(Debug)]
pub struct PageLink {
    pub number: usize,
    pub url: String,
    pub is_current: bool,
}

/// The links as number, address, and whether they lead to the current page.
pub open spec fn link_views(links: Seq<PageLink>) -> Seq<(nat, Seq<char>, bool)> {
    links.map_values(|l: PageLink| (l.number as nat, l.url@, l.is_current))
}

/// What a template needs to know to paginate a listing.
#[derive(Debug)]
pub struct PaginationContext {
    pub current_page: usize,
    pub total_pages: usize,
    pub total_posts: usize,
    pub posts_per_page: usize,
    pub has_prev: bool,
    pub has_next: bool,
    pub prev_url: Option<String>,
    pub next_url: Option<String>,
    pub first_url: String,
    pub last_url: String,
    pub jump_prev_url: Option<String>,
    pub jump_next_url: Option<String>,
    pub pages: Vec<PageLink>,
}

impl PaginationContext {
    /// Whether this is the pagination of a listing of `total_posts` posts at
    /// `base` that is read on page `current`.
    pub open spec fn paginates(
        &self,
        current: nat,
        total_posts: nat,
        per_page: nat,
        window: nat,
        base: Seq<char>,
    ) -> bool {
        let pages = page_count(total_posts, per_page);
        let w = page_window(current, pages, window);
        &&& self.current_page == current
        &&& self.total_posts == total_posts
        &&& self.posts_per_page == per_page
        &&& self.total_pages == pages
        &&& self.first_url@ == base
        &&& self.last_url@ == page_url(base, pages)
        &&& link_views(self.pages@) == page_links(base, current, w.0, w.1)
        &&& opt_chars(self.jump_prev_url) == jump_prev(base, w.0)
        &&& opt_chars(self.jump_next_url) == jump_next(base, w.1, pages)
        &&& opt_chars(self.prev_url) == prev_url(base, current, w.0)
        &&& opt_chars(self.next_url) == next_url(base, current, w.1, pages)
        &&& self.has_prev == self.prev_url is Some
        &&& self.has_next == self.next_url is Some
    }
}

/// The number of pages of a listing.
pub fn total_pages(total_posts: usize, posts_per_page: usize) -> (r: usize)
    ensures
        r == page_count(total_posts as nat, posts_per_page as nat),
        r >= 1,
        r <= total_posts || r == 1,
{
    if total_posts == 0 || posts_per_page == 0 {
        1
    } else {
        (total_posts - 1) / posts_per_page + 1
    }
}

/// The positions of the posts on one page.
pub fn page_bounds(total_posts: usize, posts_per_page: usize, page: usize) -> (r: (usize, usize))
    ensures
        (r.0 as nat, r.1 as nat) == page_range(total_posts as nat, posts_per_page as nat, page as nat),
        r.0 <= r.1 <= total_posts,
{
    if page == 0 {
        return (0, 0);
    }
    if posts_per_page == 0 {
        assert((page - 1) * 0 == 0) by (nonlinear_arith);
        return (0, 0);
    }
    // (page - 1) * posts_per_page >= total_posts exactly when
    // page - 1 >= ceil(total_posts / posts_per_page).
    let full: usize = total_posts / posts_per_page;
    let rest: usize = total_posts % posts_per_page;
    proof {
        vstd::arithmetic::div_mod::lemma_fundamental_div_mod(
            total_posts as int,
            posts_per_page as int,
        );
        lemma_start_position(
            total_posts as int,
            posts_per_page as int,
            (page - 1) as int,
            full as int,
            rest as int,
        );
    }
    if page - 1 > full || (page - 1 == full && rest == 0) {
        return (total_posts, total_posts);
    }
    if page - 1 == full {
        let start: usize = total_posts - rest;
        return (start, total_posts);
    }
    assert((page - 1) * posts_per_page + posts_per_page <= total_posts) by (nonlinear_arith)
        requires
            page - 1 < full,
            total_posts == posts_per_page * full + rest,
            rest >= 0,
            posts_per_page > 0,
    ;
    let start: usize = (page - 1) * posts_per_page;
    (start, start + posts_per_page)
}

proof fn lemma_start_position(total: int, per_page: int, page0: int, full: int, rest: int)
    requires
        per_page > 0,
        page0 >= 0,
        total == per_page * full + rest,
        0 <= rest < per_page,
        full >= 0,
    ensures
        page0 > full ==> page0 * per_page >= total,
        page0 == full ==> page0 * per_page == total - rest,
        page0 < full ==> page0 * per_page + per_page <= total,
{
    if page0 > full {
        assert(page0 * per_page >= (full + 1) * per_page) by (nonlinear_arith)
            requires
                page0 >= full + 1,
                per_page > 0,
        ;
        assert((full + 1) * per_page == per_page * full + per_page) by (nonlinear_arith);
    } else if page0 == full {
        assert(page0 * per_page == per_page * full) by (nonlinear_arith)
            requires
                page0 == full,
        ;
    } else {
        assert(page0 * per_page + per_page <= full * per_page) by (nonlinear_arith)
            requires
                page0 + 1 <= full,
                per_page > 0,
        ;
        assert(full * per_page == per_page * full) by (nonlinear_arith);
    }
}

/// The address of one page of a listing.
pub fn page_url_of(base_url: &str, page: usize) -> (r: String)
    ensures
        r@ == page_url(base_url@, page as nat),
{
    let mut r = chars_of(base_url);
    if page != 1 {
        append_str(&mut r, "page/");
        let digits = decimal_chars(page as u64);
        append(&mut r, &digits);
    }
    string_of(&r)
}

/// The first and the last page that a pagination links to.
pub fn window_bounds(current_page: usize, total_pages: usize, window: usize) -> (r: (usize, usize))
    ensures
        (r.0 as nat, r.1 as nat) == page_window(
            current_page as nat,
            total_pages as nat,
            window as nat,
        ),
        r.1 <= total_pages,
{
    let half: usize = window / 2;
    if window == 0 {
        (1, 0)
    } else if total_pages <= window {
        (1, total_pages)
    } else if current_page <= half + 1 {
        (1, window)
    } else if current_page >= total_pages - half {
        (total_pages - window + 1, total_pages)
    } else {
        (current_page - half, current_page + half)
    }
}

/// The pagination of a listing of `total_posts` posts that is read on
/// `current_page`.
pub fn build_pagination_context(
    current_page: usize,
    total_posts: usize,
    posts_per_page: usize,
    window: usize,
    base_url: &str,
) -> (r: PaginationContext)
    ensures
        r.paginates(
            current_page as nat,
            total_posts as nat,
            posts_per_page as nat,
            window as nat,
            base_url@,
        ),
{
    let pages_total = total_pages(total_posts, posts_per_page);
    let first_url = string_of(&chars_of(base_url));
    let last_url = page_url_of(base_url, pages_total);
    let (first, last) = window_bounds(current_page, pages_total, window);

    let mut pages: Vec<PageLink> = Vec::new();
    assert(link_views(pages@) =~= Seq::<(nat, Seq<char>, bool)>::empty());
    if first <= last && first > 0 {
        let mut n: usize = first;
        let mut done = false;
        assert(page_links(base_url@, current_page as nat, first as nat, (first - 1) as nat)
            =~= Seq::<(nat, Seq<char>, bool)>::empty());
        while !done
            invariant
                1 <= first <= n <= last,
                link_views(pages@) == page_links(
                    base_url@,
                    current_page as nat,
                    first as nat,
                    if done {
                        n as nat
                    } else {
                        (n - 1) as nat
                    },
                ),
                done ==> n == last,
            decreases
                    last - n + if done {
                        0int
                    } else {
                        1int
                    },
        {
            let ghost before = link_views(pages@);
            let url = page_url_of(base_url, n);
            pages.push(PageLink { number: n, url, is_current: n == current_page });
            assert(link_views(pages@) =~= before.push((n as nat, url@, n == current_page)));
            if n == last {
                done = true;
            } else {
                n += 1;
            }
        }
    } else {
        assert(page_links(base_url@, current_page as nat, first as nat, last as nat) =~= Seq::<
            (nat, Seq<char>, bool),
        >::empty()) by {
            lemma_no_links_before_first(base_url@, current_page as nat, first as nat, last as nat);
        }
    }
    let jump_prev_url = if first > 1 {
        Some(page_url_of(base_url, first - 1))
    } else {
        None
    };
    let jump_next_url = if last < pages_total {
        Some(page_url_of(base_url, last + 1))
    } else {
        None
    };
    let prev_url = match &jump_prev_url {
        Some(u) => Some(u.clone()),
        None => if current_page > 1 {
            Some(page_url_of(base_url, current_page - 1))
        } else {
            None
        },
    };
    let next_url = match &jump_next_url {
        Some(u) => Some(u.clone()),
        None => if current_page < pages_total {
            Some(page_url_of(base_url, current_page + 1))
        } else {
            None
        },
    };
    let has_prev = prev_url.is_some();
    let has_next = next_url.is_some();
    PaginationContext {
        current_page,
        total_pages: pages_total,
        total_posts,
        posts_per_page,
        has_prev,
        has_next,
        prev_url,
        next_url,
        first_url,
        last_url,
        jump_prev_url,
        jump_next_url,
        pages,
    }
}

/// The pages of a listing follow one another without gap or overlap, hold
/// `per_page` posts each but for the last, which holds at least one, and
/// together hold every post.
pub proof fn lemma_pages_partition(total: nat, per_page: nat, page: nat)
    requires
        per_page > 0,
        total > 0,
        1 <= page <= page_count(total, per_page),
    ensures
        page_range(total, per_page, 1).0 == 0,
        page_range(total, per_page, page).0 < page_range(total, per_page, page).1,
        page < page_count(total, per_page) ==> page_range(total, per_page, page).1
            == page_range(total, per_page, page + 1).0 && page_range(total, per_page, page).1
            - page_range(total, per_page, page).0 == per_page,
        page == page_count(total, per_page) ==> page_range(total, per_page, page).1 == total,
        page_range(total, per_page, page).1 - page_range(total, per_page, page).0 <= per_page,
{
    let pages = page_count(total, per_page);
    let q = (total - 1) / per_page as int;
    let r = (total - 1) % per_page as int;
    vstd::arithmetic::div_mod::lemma_fundamental_div_mod(total - 1, per_page as int);
    assert(total - 1 == per_page * q + r);
    assert(0 <= r < per_page);
    assert(q >= 0) by (nonlinear_arith)
        requires
            total - 1 == per_page * q + r,
            0 <= r < per_page,
            total >= 1,
            per_page > 0,
    ;
    assert(pages == q + 1);
    let earlier = page - 1;
    assert(earlier * per_page <= q * per_page) by (nonlinear_arith)
        requires
            0 <= earlier <= q,
            per_page > 0,
    ;
    assert(q * per_page == per_page * q) by (nonlinear_arith);
    assert((earlier + 1) * per_page == earlier * per_page + per_page) by (nonlinear_arith);
    if page < pages {
        assert((earlier + 1) * per_page <= q * per_page) by (nonlinear_arith)
            requires
                earlier + 1 <= q,
                per_page > 0,
        ;
    } else {
        assert(earlier * per_page == q * per_page) by (nonlinear_arith)
            requires
                earlier == q,
        ;
    }
    assert(0 * per_page == 0) by (nonlinear_arith);
}

/// The first page of a listing is the listing's own address; no page has
/// the address `page/1`.
pub proof fn lemma_first_page_is_index(base: Seq<char>)
    ensures
        page_url(base, 1) == base,
{
}

} // verus!
