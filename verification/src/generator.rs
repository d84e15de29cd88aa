//! Where generated files go, and which files of the content tree are
//! copied along as assets.

use crate::config::SsgConfig;
use crate::slug::{encode_for_url, url_encoded};
use crate::text::{
    append, append_str, chars_of, decimal, decimal_chars, is_str, lowercase, owned, string_of,
    to_lowercase,
};
use crate::types::{Page, Post};
use vstd::prelude::*;

verus! {

/// A name as it stands in a path of the output tree: encoded where the
/// configuration asks for encoded file names.
pub open spec fn output_name(name: Seq<char>, encode: bool) -> Seq<char> {
    if encode {
        url_encoded(name)
    } else {
        name
    }
}

/// The file of a post: `{output}/{category}/{slug}/index.html`.
pub open spec fn post_file(output_dir: Seq<char>, category: Seq<char>, slug: Seq<char>, encode: bool) -> Seq<
    char,
> {
    output_dir + "/"@ + output_name(category, encode) + "/"@ + output_name(slug, encode)
        + "/index.html"@
}

/// The file of a page: `{output}/{slug}/index.html`.
pub open spec fn page_file(output_dir: Seq<char>, slug: Seq<char>, encode: bool) -> Seq<char> {
    output_dir + "/"@ + output_name(slug, encode) + "/index.html"@
}

/// The file of one page of a listing below `dir`: the index of `dir` for
/// the first page, `{dir}/page/{n}/index.html` for the others.
pub open spec fn listing_file(dir: Seq<char>, page: nat) -> Seq<char> {
    if page == 1 {
        dir + "/index.html"@
    } else {
        dir + "/page/"@ + decimal(page) + "/index.html"@
    }
}

/// The file extensions of the content tree that are copied as assets:
/// images, media and documents.
pub open spec fn is_asset_extension(ext: Seq<char>) -> bool {
    ||| ext == "png"@
    ||| ext == "jpg"@
    ||| ext == "jpeg"@
    ||| ext == "gif"@
    ||| ext == "webp"@
    ||| ext == "svg"@
    ||| ext == "ico"@
    ||| ext == "bmp"@
    ||| ext == "mp4"@
    ||| ext == "webm"@
    ||| ext == "mp3"@
    ||| ext == "wav"@
    ||| ext == "pdf"@
    ||| ext == "zip"@
    ||| ext == "tar"@
    ||| ext == "gz"@
}

/// A name as it stands in a path of the output tree.
pub fn maybe_encode(config: &SsgConfig, s: &str) -> (r: String)
    ensures
        r@ == output_name(s@, config.build.encode_filenames),
{
    if config.build.encode_filenames {
        encode_for_url(s)
    } else {
        owned(s)
    }
}

/// The file that a post is written to.
pub fn get_post_path(config: &SsgConfig, post: &Post) -> (r: String)
    ensures
        r@ == post_file(
            config.build.output_dir@,
            post.category@,
            post.slug@,
            config.build.encode_filenames,
        ),
{
    let mut out = chars_of(config.build.output_dir.as_str());
    append_str(&mut out, "/");
    append_str(&mut out, maybe_encode(config, post.category.as_str()).as_str());
    append_str(&mut out, "/");
    append_str(&mut out, maybe_encode(config, post.slug.as_str()).as_str());
    append_str(&mut out, "/index.html");
    string_of(&out)
}

/// The file that a page is written to.
pub fn get_page_path(config: &SsgConfig, page: &Page) -> (r: String)
    ensures
        r@ == page_file(config.build.output_dir@, page.slug@, config.build.encode_filenames),
{
    let mut out = chars_of(config.build.output_dir.as_str());
    append_str(&mut out, "/");
    append_str(&mut out, maybe_encode(config, page.slug.as_str()).as_str());
    append_str(&mut out, "/index.html");
    string_of(&out)
}

/// The file that one page of a listing below `dir` is written to.
pub fn listing_path(dir: &str, page: usize) -> (r: String)
    ensures
        r@ == listing_file(dir@, page as nat),
{
    let mut out = chars_of(dir);
    if page != 1 {
        append_str(&mut out, "/page/");
        let digits = decimal_chars(page as u64);
        append(&mut out, &digits);
    }
    append_str(&mut out, "/index.html");
    string_of(&out)
}

/// Whether a file of the content tree with the given extension is copied
/// as an asset; upper and lower case are the same.
pub fn is_asset(extension: &str) -> (b: bool)
    ensures
        b == is_asset_extension(lowercase(extension@)),
{
    let ext = chars_of(to_lowercase(extension).as_str());
    is_str(&ext, "png") || is_str(&ext, "jpg") || is_str(&ext, "jpeg") || is_str(&ext, "gif")
        || is_str(&ext, "webp") || is_str(&ext, "svg") || is_str(&ext, "ico") || is_str(
        &ext,
        "bmp",
    ) || is_str(&ext, "mp4") || is_str(&ext, "webm") || is_str(&ext, "mp3") || is_str(
        &ext,
        "wav",
    ) || is_str(&ext, "pdf") || is_str(&ext, "zip") || is_str(&ext, "tar") || is_str(&ext, "gz")
}

} // verus!
