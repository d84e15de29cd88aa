//! What the development server decides: which file a request is for, what
//! kind of content it is, and which changes on disk ask for a rebuild.

use crate::text::{
    append, append_str, char_is_space, chars_of, contains, contains_str, ends_with_str, find_char,
    has_suffix, index_of, is_space, is_str, owned, slice, string_of,
};
use vstd::prelude::*;

verus! {

/// The content type of a file, by the end of its name.
pub open spec fn content_type(path: Seq<char>) -> Seq<char> {
    if has_suffix(path, ".html"@) {
        "text/html"@
    } else if has_suffix(path, ".css"@) {
        "text/css"@
    } else if has_suffix(path, ".js"@) {
        "application/javascript"@
    } else if has_suffix(path, ".png"@) {
        "image/png"@
    } else if has_suffix(path, ".jpg"@) || has_suffix(path, ".jpeg"@) {
        "image/jpeg"@
    } else if has_suffix(path, ".svg"@) {
        "image/svg+xml"@
    } else if has_suffix(path, ".woff"@) {
        "font/woff"@
    } else if has_suffix(path, ".woff2"@) {
        "font/woff2"@
    } else {
        "application/octet-stream"@
    }
}

/// The content type of a file.
pub fn get_content_type(path: &str) -> (r: &'static str)
    ensures
        r@ == content_type(path@),
{
    let p = chars_of(path);
    if ends_with_str(&p, ".html") {
        "text/html"
    } else if ends_with_str(&p, ".css") {
        "text/css"
    } else if ends_with_str(&p, ".js") {
        "application/javascript"
    } else if ends_with_str(&p, ".png") {
        "image/png"
    } else if ends_with_str(&p, ".jpg") || ends_with_str(&p, ".jpeg") {
        "image/jpeg"
    } else if ends_with_str(&p, ".svg") {
        "image/svg+xml"
    } else if ends_with_str(&p, ".woff") {
        "font/woff"
    } else if ends_with_str(&p, ".woff2") {
        "font/woff2"
    } else {
        "application/octet-stream"
    }
}

/// A request path without its query.
pub open spec fn without_query(path: Seq<char>) -> Seq<char> {
    match index_of(path, '?') {
        Some(i) => path.take(i),
        None => path,
    }
}

/// The file below the output directory that a request path asks for: the
/// index of the site for `/`, the index of a directory for a path that ends
/// in `/`, the file itself otherwise.
pub open spec fn served_file(path: Seq<char>) -> Seq<char> {
    let p = without_query(path);
    if p == "/"@ {
        "dist/index.html"@
    } else if has_suffix(p, "/"@) {
        "dist"@ + p + "index.html"@
    } else {
        "dist"@ + p
    }
}

/// The file that a request path asks for.
pub fn served_path(path: &str) -> (r: String)
    ensures
        r@ == served_file(path@),
{
    let whole = chars_of(path);
    assert(whole@.skip(0) =~= whole@);
    let p = match find_char(&whole, '?', 0) {
        Some(i) => {
            let head = slice(&whole, 0, i);
            assert(head@ =~= whole@.take(i as int));
            head
        },
        None => whole,
    };
    if is_str(&p, "/") {
        return owned("dist/index.html");
    }
    let mut out = chars_of("dist");
    append(&mut out, &p);
    if ends_with_str(&p, "/") {
        append_str(&mut out, "index.html");
    }
    string_of(&out)
}

/// The file that is tried when the file that was asked for does not exist:
/// the index below it.
pub fn fallback_path(file_path: &str) -> (r: String)
    ensures
        r@ == file_path@ + "/index.html"@,
{
    let mut out = chars_of(file_path);
    append_str(&mut out, "/index.html");
    string_of(&out)
}

/// The index behind the white space that starts at `i`.
pub open spec fn after_space(s: Seq<char>, i: int) -> int
    decreases s.len() - i,
{
    if i < 0 || i >= s.len() || !is_space(s[i]) {
        i
    } else {
        after_space(s, i + 1)
    }
}

/// The index behind the run of characters that are no white space and
/// that starts at `i`.
pub open spec fn after_token(s: Seq<char>, i: int) -> int
    decreases s.len() - i,
{
    if i < 0 || i >= s.len() || is_space(s[i]) {
        i
    } else {
        after_token(s, i + 1)
    }
}

/// The second of the tokens that white space separates in a request line:
/// the path of the request. `None` where the line has fewer than two.
pub open spec fn request_target(line: Seq<char>) -> Option<Seq<char>> {
    let first = after_space(line, 0);
    let first_end = after_token(line, first);
    let second = after_space(line, first_end);
    let second_end = after_token(line, second);
    if first < first_end && second < second_end && second_end <= line.len() {
        Some(line.subrange(second, second_end))
    } else {
        None
    }
}

fn skip_space(s: &Vec<char>, from: usize) -> (r: usize)
    requires
        from <= s.len(),
    ensures
        r == after_space(s@, from as int),
        from <= r <= s.len(),
{
    let mut i: usize = from;
    while i < s.len() && char_is_space(s[i])
        invariant
            from <= i <= s.len(),
            after_space(s@, from as int) == after_space(s@, i as int),
        decreases s.len() - i,
    {
        i += 1;
    }
    i
}

fn skip_token(s: &Vec<char>, from: usize) -> (r: usize)
    requires
        from <= s.len(),
    ensures
        r == after_token(s@, from as int),
        from <= r <= s.len(),
{
    let mut i: usize = from;
    while i < s.len() && !char_is_space(s[i])
        invariant
            from <= i <= s.len(),
            after_token(s@, from as int) == after_token(s@, i as int),
        decreases s.len() - i,
    {
        i += 1;
    }
    i
}

/// The path that a request line asks for, still encoded.
pub fn request_path(line: &str) -> (r: Option<String>)
    ensures
        crate::text::opt_chars(r) == request_target(line@),
{
    let v = chars_of(line);
    let first = skip_space(&v, 0);
    let first_end = skip_token(&v, first);
    let second = skip_space(&v, first_end);
    let second_end = skip_token(&v, second);
    if first < first_end && second < second_end {
        Some(string_of(&slice(&v, second, second_end)))
    } else {
        None
    }
}

/// Whether one of the first `n` paths lies in the build cache or in the
/// output directory.
pub open spec fn touches_output(paths: Seq<Seq<char>>, n: int) -> bool
    decreases n,
{
    if n <= 0 || n > paths.len() {
        false
    } else {
        contains(paths[n - 1], ".build-cache"@) || contains(paths[n - 1], "dist/"@)
            || touches_output(paths, n - 1)
    }
}

/// Whether a change on disk asks for a rebuild: it does when something was
/// created, modified or removed, and nothing of it lies in the build cache
/// or in the output directory, which the build itself writes.
pub fn should_rebuild(is_change: bool, paths: &Vec<String>) -> (b: bool)
    ensures
        b == (is_change && !touches_output(crate::text::str_views(paths@), paths.len() as int)),
{
    if !is_change {
        return false;
    }
    let ghost all = crate::text::str_views(paths@);
    let mut i: usize = 0;
    while i < paths.len()
        invariant
            i <= paths.len(),
            all == crate::text::str_views(paths@),
            !touches_output(all, i as int),
        decreases paths.len() - i,
    {
        assert(all[i as int] == paths@[i as int]@);
        let p = chars_of(paths[i].as_str());
        if contains_str(&p, ".build-cache") || contains_str(&p, "dist/") {
            proof {
                assert(touches_output(all, i + 1));
                lemma_touches_grows(all, i + 1, all.len() as int);
            }
            return false;
        }
        i += 1;
    }
    true
}

proof fn lemma_touches_grows(paths: Seq<Seq<char>>, n: int, m: int)
    requires
        0 <= n <= m <= paths.len(),
        touches_output(paths, n),
    ensures
        touches_output(paths, m),
    decreases m - n,
{
    if n < m {
        lemma_touches_grows(paths, n, m - 1);
    }
}

} // verus!
