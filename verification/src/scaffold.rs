//! A new post: the slug that its title gives, and the document it starts
//! from.

use crate::text::{append_str, chars_of, lowercase, replace_str, replaced, string_of, to_lowercase};
use crate::types::{rfc3339, text_or_empty, Timestamp};
use vstd::prelude::*;

verus! {

/// Whether a character is a letter or a number, by Unicode's rules.
pub uninterp spec fn is_alphanumeric(c: char) -> bool;

/// Whether a character is alphabetic or numeric, by Unicode's rules
/// (`char::is_alphanumeric`). The property is named, not stated.
#[verifier::external_body]
fn alphanumeric(c: char) -> (r: bool)
    ensures
        r == is_alphanumeric(c),
{
    c.is_alphanumeric()
}

/// The characters of `s` that a slug keeps: letters, numbers and hyphens.
pub open spec fn slug_characters(s: Seq<char>) -> Seq<char>
    decreases s.len(),
{
    if s.len() == 0 {
        Seq::empty()
    } else if is_alphanumeric(s.last()) || s.last() == '-' {
        slug_characters(s.drop_last()).push(s.last())
    } else {
        slug_characters(s.drop_last())
    }
}

/// The slug of a post with the given title: the title in lower case, with
/// hyphens for blanks, and without anything that is no letter, number or
/// hyphen.
pub open spec fn title_slug(title: Seq<char>) -> Seq<char> {
    slug_characters(replaced(lowercase(title), " "@, "-"@))
}

/// The slug that is left of a title in lower case.
pub fn slug_of_lowercase(lower: &str) -> (r: String)
    ensures
        r@ == slug_characters(replaced(lower@, " "@, "-"@)),
{
    let hyphenated = replace_str(&chars_of(lower), " ", "-");
    let mut out: Vec<char> = Vec::new();
    let mut i: usize = 0;
    assert(hyphenated@.take(0) =~= Seq::<char>::empty());
    while i < hyphenated.len()
        invariant
            i <= hyphenated.len(),
            out@ == slug_characters(hyphenated@.take(i as int)),
        decreases hyphenated.len() - i,
    {
        assert(hyphenated@.take(i + 1).drop_last() =~= hyphenated@.take(i as int));
        let c = hyphenated[i];
        if alphanumeric(c) || c == '-' {
            out.push(c);
        }
        i += 1;
    }
    assert(hyphenated@.take(hyphenated.len() as int) =~= hyphenated@);
    string_of(&out)
}

/// The slug of a post with the given title.
pub fn slugify(title: &str) -> (r: String)
    ensures
        r@ == title_slug(title@),
{
    slug_of_lowercase(to_lowercase(title).as_str())
}

/// The path of a new post's file.
pub open spec fn new_post_path(category: Seq<char>, slug: Seq<char>) -> Seq<char> {
    "content/posts/"@ + category + "/"@ + slug + ".md"@
}

/// The path of a new post's file.
pub fn post_path(category: &str, slug: &str) -> (r: String)
    ensures
        r@ == new_post_path(category@, slug@),
{
    let mut out = chars_of("content/posts/");
    append_str(&mut out, category);
    append_str(&mut out, "/");
    append_str(&mut out, slug);
    append_str(&mut out, ".md");
    string_of(&out)
}

/// The document that a new post starts from.
pub open spec fn new_post_document(title: Seq<char>, date: Seq<char>, category: Seq<char>) -> Seq<
    char,
> {
    "---\ntitle: \""@ + title + "\"\ndate: "@ + date + "\ncategory: "@ + category
        + "\ntags: []\nhidden: false\n---\n\nWrite your post here...\n"@
}

/// The document that a new post created at `now` starts from.
pub fn post_document(title: &str, now: Timestamp, category: &str) -> (r: String)
    ensures
        r@ == new_post_document(
            title@,
            text_or_empty(rfc3339(now.secs as int, now.nanos as int)),
            category@,
        ),
{
    let mut out = chars_of("---\ntitle: \"");
    append_str(&mut out, title);
    append_str(&mut out, "\"\ndate: ");
    append_str(&mut out, now.to_rfc3339().as_str());
    append_str(&mut out, "\ncategory: ");
    append_str(&mut out, category);
    append_str(&mut out, "\ntags: []\nhidden: false\n---\n\nWrite your post here...\n");
    assert(out@ =~= new_post_document(
        title@,
        text_or_empty(rfc3339(now.secs as int, now.nanos as int)),
        category@,
    ));
    string_of(&out)
}

} // verus!
