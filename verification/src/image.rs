//! The image pipeline: from a local image reference to the addresses of its
//! variants on the CDN.

use crate::text::{
    append, append_str, chars_of, decimal, decimal_chars, has_prefix, rfind, rfind_str, slice,
    starts_with_str, string_of, strip_repeated, strip_trailing, strip_trailing_char,
};
use vstd::prelude::*;

verus! {

/// The width of a thumbnail, in pixels.
pub const THUMBNAIL_SIZE: u32 = 500;

/// The width of a low-quality placeholder, in pixels.
pub const LQIP_SIZE: u32 = 10;

/// The width that marks the entry for the image in its own size, which
/// closes every list of sources.
pub const FALLBACK_WIDTH: u32 = u32::MAX;

/// The widths at which variants are offered, in ascending order.
pub open spec fn breakpoints() -> Seq<u32> {
    seq![480u32, 600u32, 860u32, 1180u32]
}

/// The widths of `sizes` that are not above `width`, in order.
pub open spec fn sizes_upto(sizes: Seq<u32>, width: u32) -> Seq<u32>
    decreases sizes.len(),
{
    if sizes.len() == 0 {
        Seq::empty()
    } else if sizes.last() <= width {
        sizes_upto(sizes.drop_last(), width).push(sizes.last())
    } else {
        sizes_upto(sizes.drop_last(), width)
    }
}

/// One variant of an image: its address and its width.
#[derive(Debug)]
pub struct ImageSource {
    pub url: String,
    pub width: u32,
}

/// An image's size and the addresses of its variants.
#[derive(Debug)]
pub struct ImageMetadata {
    pub width: u32,
    pub height: u32,
    /// The image in its own size.
    pub src: String,
    /// The low-quality placeholder.
    pub lqip: String,
    /// The variants in the image's own format, by ascending width.
    pub sources: Vec<ImageSource>,
    /// The variants as WebP, by ascending width.
    pub webp_sources: Vec<ImageSource>,
}

/// The addresses of an image's thumbnail.
#[derive(Debug)]
pub struct ThumbnailMetadata {
    pub src: String,
    pub webp_src: String,
}

/// The variants as address and width.
pub open spec fn source_views(sources: Seq<ImageSource>) -> Seq<(Seq<char>, u32)> {
    sources.map_values(|s: ImageSource| (s.url@, s.width))
}

pub struct ImageMetadataView {
    pub width: u32,
    pub height: u32,
    pub src: Seq<char>,
    pub lqip: Seq<char>,
    pub sources: Seq<(Seq<char>, u32)>,
    pub webp_sources: Seq<(Seq<char>, u32)>,
}

impl View for ImageMetadata {
    type V = ImageMetadataView;

    open spec fn view(&self) -> ImageMetadataView {
        ImageMetadataView {
            width: self.width,
            height: self.height,
            src: self.src@,
            lqip: self.lqip@,
            sources: source_views(self.sources@),
            webp_sources: source_views(self.webp_sources@),
        }
    }
}

pub struct ThumbnailMetadataView {
    pub src: Seq<char>,
    pub webp_src: Seq<char>,
}

impl View for ThumbnailMetadata {
    type V = ThumbnailMetadataView;

    open spec fn view(&self) -> ThumbnailMetadataView {
        ThumbnailMetadataView { src: self.src@, webp_src: self.webp_src@ }
    }
}

/// The view of an image's metadata, where there is any.
pub open spec fn image_view(m: Option<ImageMetadata>) -> Option<ImageMetadataView> {
    match m {
        Some(m) => Some(m@),
        None => None,
    }
}

/// The view of a thumbnail, where there is one.
pub open spec fn thumbnail_view(t: Option<ThumbnailMetadata>) -> Option<ThumbnailMetadataView> {
    match t {
        Some(t) => Some(t@),
        None => None,
    }
}

/// A reference that points outside the site.
pub open spec fn is_remote(src: Seq<char>) -> bool {
    has_prefix(src, "http://"@) || has_prefix(src, "https://"@) || has_prefix(src, "//"@)
}

/// The path of an image without its extension, and the extension: what
/// stands before and behind the last `.` of the reference, leading `./`
/// aside. A reference without `.` has the extension `jpg`.
pub open spec fn image_path_parts(src: Seq<char>) -> (Seq<char>, Seq<char>) {
    let s = strip_repeated(src, "./"@);
    match rfind(s, "."@) {
        Some(dot) => (s.take(dot), s.skip(dot + "."@.len())),
        None => (s, "jpg"@),
    }
}

/// The part of an address that names the width.
pub open spec fn size_suffix(size: Option<u32>) -> Seq<char> {
    match size {
        Some(w) => ".w"@ + decimal(w as nat),
        None => Seq::empty(),
    }
}

/// The part of an address that names the WebP format.
pub open spec fn webp_suffix(is_webp: bool) -> Seq<char> {
    if is_webp {
        ".webp"@
    } else {
        Seq::empty()
    }
}

/// The address of a variant:
/// `{cdn}/images/{base}/{filename}[.w{size}].{ext}[.webp]`.
pub open spec fn variant_url(
    cdn: Seq<char>,
    base: Seq<char>,
    filename: Seq<char>,
    size: Option<u32>,
    ext: Seq<char>,
    is_webp: bool,
) -> Seq<char> {
    cdn + "/images/"@ + base + "/"@ + filename + size_suffix(size) + "."@ + ext + webp_suffix(
        is_webp,
    )
}

/// The variants at the given widths, in order.
pub open spec fn sized_sources(
    cdn: Seq<char>,
    base: Seq<char>,
    filename: Seq<char>,
    ext: Seq<char>,
    sizes: Seq<u32>,
    is_webp: bool,
) -> Seq<(Seq<char>, u32)>
    decreases sizes.len(),
{
    if sizes.len() == 0 {
        Seq::empty()
    } else {
        sized_sources(cdn, base, filename, ext, sizes.drop_last(), is_webp).push(
            (variant_url(cdn, base, filename, Some(sizes.last()), ext, is_webp), sizes.last()),
        )
    }
}

/// The variants at the given widths, closed by the image in its own size.
pub open spec fn image_sources(
    cdn: Seq<char>,
    base: Seq<char>,
    filename: Seq<char>,
    ext: Seq<char>,
    sizes: Seq<u32>,
    is_webp: bool,
) -> Seq<(Seq<char>, u32)> {
    sized_sources(cdn, base, filename, ext, sizes, is_webp).push(
        (variant_url(cdn, base, filename, None, ext, is_webp), FALLBACK_WIDTH),
    )
}

/// The metadata of the image that `src` refers to, of the given size, for
/// a document whose references start at `base`: the image in its own size,
/// its placeholder, and its variants at the breakpoints that are not above
/// its width, in its own format and as WebP.
pub open spec fn image_metadata(
    cdn: Seq<char>,
    src: Seq<char>,
    base: Seq<char>,
    dimensions: (u32, u32),
) -> ImageMetadataView {
    let parts = image_path_parts(src);
    let sizes = sizes_upto(breakpoints(), dimensions.0);
    ImageMetadataView {
        width: dimensions.0,
        height: dimensions.1,
        src: variant_url(cdn, base, parts.0, None, parts.1, false),
        lqip: variant_url(cdn, base, parts.0, Some(LQIP_SIZE), parts.1, false),
        sources: image_sources(cdn, base, parts.0, parts.1, sizes, false),
        webp_sources: image_sources(cdn, base, parts.0, parts.1, sizes, true),
    }
}

/// The thumbnail of the image that `src` refers to, in its own format and
/// as WebP.
pub open spec fn thumbnail_metadata(cdn: Seq<char>, src: Seq<char>, base: Seq<char>) -> ThumbnailMetadataView {
    let parts = image_path_parts(src);
    ThumbnailMetadataView {
        src: variant_url(cdn, base, parts.0, Some(THUMBNAIL_SIZE), parts.1, false),
        webp_src: variant_url(cdn, base, parts.0, Some(THUMBNAIL_SIZE), parts.1, true),
    }
}

/// Whether the pipeline takes a reference at all: a CDN is configured and
/// the reference is local.
pub open spec fn takes(cdn: Option<Seq<char>>, src: Seq<char>) -> bool {
    cdn is Some && !is_remote(src)
}

/// What the pipeline makes of an image reference: nothing where it does
/// not take the reference or the image's size is not known.
pub open spec fn processed_image(
    cdn: Option<Seq<char>>,
    src: Seq<char>,
    dimensions: Option<(u32, u32)>,
    base: Seq<char>,
) -> Option<ImageMetadataView> {
    match dimensions {
        Some(d) => if takes(cdn, src) {
            Some(image_metadata(cdn->0, src, base, d))
        } else {
            None
        },
        None => None,
    }
}

/// What the pipeline makes of a reference to an image that needs a
/// thumbnail: nothing where it does not take the reference or the image
/// does not exist.
pub open spec fn processed_thumbnail(
    cdn: Option<Seq<char>>,
    src: Seq<char>,
    exists: bool,
    base: Seq<char>,
) -> Option<ThumbnailMetadataView> {
    if exists && takes(cdn, src) {
        Some(thumbnail_metadata(cdn->0, src, base))
    } else {
        None
    }
}

/// Where an image lies on disk: the reference, leading `./` aside, below the
/// directory of its document; a reference that starts at the root stands
/// for itself.
pub open spec fn local_path(src: Seq<char>, content_dir: Seq<char>) -> Seq<char> {
    let s = strip_repeated(src, "./"@);
    if has_prefix(s, "/"@) || content_dir.len() == 0 {
        s
    } else if content_dir.last() == '/' {
        content_dir + s
    } else {
        content_dir + "/"@ + s
    }
}

fn strip_dot_slashes(src: &Vec<char>) -> (r: Vec<char>)
    ensures
        r@ == strip_repeated(src@, "./"@),
{
    let dot = chars_of("./");
    let mut i: usize = 0;
    assert(src@.skip(0) =~= src@);
    if dot.len() > 0 {
        while crate::text::matches_at(src, i, &dot)
            invariant
                dot.len() > 0,
                dot@ == "./"@,
                i <= src.len(),
                strip_repeated(src@, dot@) == strip_repeated(src@.skip(i as int), dot@),
            decreases src.len() - i,
        {
            assert(src@.skip(i as int).subrange(0, dot.len() as int) =~= src@.subrange(
                i as int,
                i + dot.len(),
            ));
            assert(src@.skip(i as int).skip(dot.len() as int) =~= src@.skip(i + dot.len()));
            i += dot.len();
        }
        assert(!has_prefix(src@.skip(i as int), dot@)) by {
            if i + dot.len() <= src.len() {
                assert(src@.skip(i as int).subrange(0, dot.len() as int) =~= src@.subrange(
                    i as int,
                    i + dot.len(),
                ));
            }
        }
    }
    assert(src@.skip(i as int) =~= src@.subrange(i as int, src.len() as int));
    slice(src, i, src.len())
}

fn is_remote_ref(src: &Vec<char>) -> (b: bool)
    ensures
        b == is_remote(src@),
{
    starts_with_str(src, "http://") || starts_with_str(src, "https://") || starts_with_str(
        src,
        "//",
    )
}

/// The widths of the breakpoints that are not above `width`.
pub fn retained_sizes(width: u32) -> (r: Vec<u32>)
    ensures
        r@ == sizes_upto(breakpoints(), width),
{
    let mut all: Vec<u32> = Vec::new();
    all.push(480);
    all.push(600);
    all.push(860);
    all.push(1180);
    assert(all@ =~= breakpoints());
    let mut r: Vec<u32> = Vec::new();
    let mut i: usize = 0;
    assert(all@.take(0) =~= Seq::<u32>::empty());
    while i < all.len()
        invariant
            i <= all.len(),
            r@ == sizes_upto(all@.take(i as int), width),
        decreases all.len() - i,
    {
        assert(all@.take(i + 1).drop_last() =~= all@.take(i as int));
        if all[i] <= width {
            r.push(all[i]);
        }
        i += 1;
    }
    assert(all@.take(all.len() as int) =~= all@);
    r
}

pub struct ImageProcessor {
    pub cdn_url: Option<String>,
}

impl ImageProcessor {
    /// A processor for the given CDN.
    pub fn new(cdn_url: Option<String>) -> (r: Self)
        ensures
            r.cdn_url == cdn_url,
    {
        ImageProcessor { cdn_url }
    }

    /// The CDN's address without trailing slashes, where one is configured.
    pub open spec fn cdn(&self) -> Option<Seq<char>> {
        match self.cdn_url {
            Some(url) => Some(strip_trailing(url@, '/')),
            None => None,
        }
    }

    /// Where the image of a document in `content_dir` lies on disk.
    pub fn resolve_local_path(&self, src: &str, content_dir: &str) -> (r: String)
        ensures
            r@ == local_path(src@, content_dir@),
    {
        let s = strip_dot_slashes(&chars_of(src));
        let dir = chars_of(content_dir);
        if starts_with_str(&s, "/") || dir.len() == 0 {
            return string_of(&s);
        }
        let mut r: Vec<char> = Vec::new();
        append(&mut r, &dir);
        if dir[dir.len() - 1] != '/' {
            append_str(&mut r, "/");
        }
        append(&mut r, &s);
        assert(r@ =~= local_path(src@, content_dir@));
        string_of(&r)
    }

    /// Splits a reference into its path without extension and its extension.
    pub fn parse_image_path(&self, src: &str) -> (r: (String, String))
        ensures
            (r.0@, r.1@) == image_path_parts(src@),
    {
        let s = strip_dot_slashes(&chars_of(src));
        match rfind_str(&s, ".") {
            Some(dot) => {
                let name = slice(&s, 0, dot);
                let from: usize = dot + chars_of(".").len();
                let ext = slice(&s, from, s.len());
                assert(name@ =~= s@.take(dot as int));
                assert(ext@ =~= s@.skip(from as int));
                (string_of(&name), string_of(&ext))
            },
            None => (string_of(&s), string_of(&chars_of("jpg"))),
        }
    }

    /// The address of one variant.
    pub fn build_cdn_url(
        &self,
        cdn_url: &str,
        base_path: &str,
        filename: &str,
        size: Option<u32>,
        ext: &str,
        is_webp: bool,
    ) -> (r: String)
        ensures
            r@ == variant_url(cdn_url@, base_path@, filename@, size, ext@, is_webp),
    {
        let mut r: Vec<char> = Vec::new();
        append_str(&mut r, cdn_url);
        append_str(&mut r, "/images/");
        append_str(&mut r, base_path);
        append_str(&mut r, "/");
        append_str(&mut r, filename);
        match size {
            Some(w) => {
                let mut suffix = chars_of(".w");
                let digits = decimal_chars(w as u64);
                append(&mut suffix, &digits);
                append(&mut r, &suffix);
            },
            None => {
                assert(r@ + Seq::<char>::empty() =~= r@);
            },
        }
        append_str(&mut r, ".");
        append_str(&mut r, ext);
        if is_webp {
            append_str(&mut r, ".webp");
        }
        assert(r@ =~= variant_url(cdn_url@, base_path@, filename@, size, ext@, is_webp));
        string_of(&r)
    }

    /// The variants at the given widths, closed by the image in its own size.
    pub fn generate_sources(
        &self,
        cdn_url: &str,
        base_path: &str,
        filename: &str,
        ext: &str,
        sizes: &Vec<u32>,
        is_webp: bool,
    ) -> (r: Vec<ImageSource>)
        ensures
            source_views(r@) == image_sources(
                cdn_url@,
                base_path@,
                filename@,
                ext@,
                sizes@,
                is_webp,
            ),
    {
        let mut r: Vec<ImageSource> = Vec::new();
        let mut i: usize = 0;
        assert(sizes@.take(0) =~= Seq::<u32>::empty());
        assert(source_views(r@) =~= Seq::<(Seq<char>, u32)>::empty());
        while i < sizes.len()
            invariant
                i <= sizes.len(),
                source_views(r@) == sized_sources(
                    cdn_url@,
                    base_path@,
                    filename@,
                    ext@,
                    sizes@.take(i as int),
                    is_webp,
                ),
            decreases sizes.len() - i,
        {
            let ghost before = source_views(r@);
            assert(sizes@.take(i + 1).drop_last() =~= sizes@.take(i as int));
            let url = self.build_cdn_url(cdn_url, base_path, filename, Some(sizes[i]), ext, is_webp);
            r.push(ImageSource { url, width: sizes[i] });
            assert(source_views(r@) =~= before.push((url@, sizes@[i as int])));
            i += 1;
        }
        assert(sizes@.take(sizes.len() as int) =~= sizes@);
        let ghost before = source_views(r@);
        let url = self.build_cdn_url(cdn_url, base_path, filename, None, ext, is_webp);
        r.push(ImageSource { url, width: FALLBACK_WIDTH });
        assert(source_views(r@) =~= before.push((url@, FALLBACK_WIDTH)));
        r
    }

    /// The metadata of a local image whose size is `dimensions`, for a
    /// document of category `base_path`. `None` where the reference points
    /// outside the site, no CDN is configured, or the image could not be
    /// read, which `dimensions` says by being `None`.
    pub fn process_image(&self, src: &str, dimensions: Option<(u32, u32)>, base_path: &str) -> (r:
        Option<ImageMetadata>)
        ensures
            image_view(r) == processed_image(self.cdn(), src@, dimensions, base_path@),
    {
        if is_remote_ref(&chars_of(src)) {
            return None;
        }
        let cdn = match &self.cdn_url {
            Some(url) => string_of(&strip_trailing_char(&chars_of(url.as_str()), '/')),
            None => {
                return None;
            },
        };
        let (width, height) = match dimensions {
            Some(d) => d,
            None => {
                return None;
            },
        };
        let sizes = retained_sizes(width);
        let (filename, ext) = self.parse_image_path(src);
        let sources = self.generate_sources(
            cdn.as_str(),
            base_path,
            filename.as_str(),
            ext.as_str(),
            &sizes,
            false,
        );
        let webp_sources = self.generate_sources(
            cdn.as_str(),
            base_path,
            filename.as_str(),
            ext.as_str(),
            &sizes,
            true,
        );
        let src_url = self.build_cdn_url(
            cdn.as_str(),
            base_path,
            filename.as_str(),
            None,
            ext.as_str(),
            false,
        );
        let lqip = self.build_cdn_url(
            cdn.as_str(),
            base_path,
            filename.as_str(),
            Some(LQIP_SIZE),
            ext.as_str(),
            false,
        );
        Some(ImageMetadata { width, height, src: src_url, lqip, sources, webp_sources })
    }

    /// The thumbnail of a local image. `None` where the reference points
    /// outside the site, no CDN is configured, or the image does not exist.
    pub fn process_thumbnail(&self, src: &str, exists: bool, base_path: &str) -> (r: Option<
        ThumbnailMetadata,
    >)
        ensures
            thumbnail_view(r) == processed_thumbnail(self.cdn(), src@, exists, base_path@),
    {
        if is_remote_ref(&chars_of(src)) {
            return None;
        }
        let cdn = match &self.cdn_url {
            Some(url) => string_of(&strip_trailing_char(&chars_of(url.as_str()), '/')),
            None => {
                return None;
            },
        };
        if !exists {
            return None;
        }
        let (filename, ext) = self.parse_image_path(src);
        let src_url = self.build_cdn_url(
            cdn.as_str(),
            base_path,
            filename.as_str(),
            Some(THUMBNAIL_SIZE),
            ext.as_str(),
            false,
        );
        let webp_src = self.build_cdn_url(
            cdn.as_str(),
            base_path,
            filename.as_str(),
            Some(THUMBNAIL_SIZE),
            ext.as_str(),
            true,
        );
        Some(ThumbnailMetadata { src: src_url, webp_src })
    }
}

/// What is known of one image file: its path, and its size where it could
/// be read.
#[derive(Debug)]
pub struct ImageFile {
    pub path: String,
    pub dimensions: Option<(u32, u32)>,
}

/// The image files that exist on disk.
#[derive(Debug)]
pub struct ImageCatalog {
    pub files: Vec<ImageFile>,
}

/// The index of the first file with the given path.
pub open spec fn file_index(files: Seq<ImageFile>, path: Seq<char>, from: int) -> Option<int>
    decreases files.len() - from,
{
    if from < 0 || from >= files.len() {
        None
    } else if files[from].path@ == path {
        Some(from)
    } else {
        file_index(files, path, from + 1)
    }
}

impl ImageCatalog {
    /// A catalog without files.
    pub fn new() -> (r: Self)
        ensures
            r.files@.len() == 0,
    {
        ImageCatalog { files: Vec::new() }
    }

    /// Adds a file that exists on disk.
    pub fn add(&mut self, path: String, dimensions: Option<(u32, u32)>)
        ensures
            final(self).files@ == old(self).files@.push(ImageFile { path, dimensions }),
    {
        self.files.push(ImageFile { path, dimensions });
    }

    /// Whether a file with the given path exists.
    pub open spec fn has(&self, path: Seq<char>) -> bool {
        file_index(self.files@, path, 0) is Some
    }

    /// The size of the file with the given path, where it exists and could
    /// be read.
    pub open spec fn size_of(&self, path: Seq<char>) -> Option<(u32, u32)> {
        match file_index(self.files@, path, 0) {
            Some(i) => self.files@[i].dimensions,
            None => None,
        }
    }

    /// The first file with the given path.
    pub fn lookup(&self, path: &str) -> (r: Option<&ImageFile>)
        ensures
            match r {
                Some(f) => file_index(self.files@, path@, 0) is Some && *f
                    == self.files@[file_index(self.files@, path@, 0)->0],
                None => file_index(self.files@, path@, 0) is None,
            },
    {
        let mut i: usize = 0;
        while i < self.files.len()
            invariant
                i <= self.files.len(),
                file_index(self.files@, path@, 0) == file_index(self.files@, path@, i as int),
            decreases self.files.len() - i,
        {
            if crate::text::str_eq(self.files[i].path.as_str(), path) {
                return Some(&self.files[i]);
            }
            i += 1;
        }
        None
    }
}

impl ImageProcessor {
    /// The metadata of the image that a document in `content_dir` refers
    /// to, given the files that exist.
    pub fn process_image_in(
        &self,
        src: &str,
        content_dir: &str,
        base_path: &str,
        catalog: &ImageCatalog,
    ) -> (r: Option<ImageMetadata>)
        ensures
            image_view(r) == processed_image(
                self.cdn(),
                src@,
                catalog.size_of(local_path(src@, content_dir@)),
                base_path@,
            ),
    {
        let path = self.resolve_local_path(src, content_dir);
        let dimensions = match catalog.lookup(path.as_str()) {
            Some(f) => f.dimensions,
            None => None,
        };
        self.process_image(src, dimensions, base_path)
    }

    /// The thumbnail of the image that a document in `content_dir` refers
    /// to, given the files that exist.
    pub fn process_thumbnail_in(
        &self,
        src: &str,
        content_dir: &str,
        base_path: &str,
        catalog: &ImageCatalog,
    ) -> (r: Option<ThumbnailMetadata>)
        ensures
            thumbnail_view(r) == processed_thumbnail(
                self.cdn(),
                src@,
                catalog.has(local_path(src@, content_dir@)),
                base_path@,
            ),
    {
        let path = self.resolve_local_path(src, content_dir);
        let exists = catalog.lookup(path.as_str()).is_some();
        self.process_thumbnail(src, exists, base_path)
    }
}

/// The widths that are kept are ascending and none is above the image's
/// width.
pub proof fn lemma_retained_sizes_ascending(width: u32)
    ensures
        forall|i: int|
            0 <= i < sizes_upto(breakpoints(), width).len() ==> sizes_upto(breakpoints(), width)[i]
                <= width,
        forall|i: int, j: int|
            0 <= i < j < sizes_upto(breakpoints(), width).len() ==> sizes_upto(
                breakpoints(),
                width,
            )[i] < sizes_upto(breakpoints(), width)[j],
{
    let b = breakpoints();
    let b3 = b.drop_last();
    let b2 = b3.drop_last();
    let b1 = b2.drop_last();
    let b0 = b1.drop_last();
    assert(b3 =~= seq![480u32, 600u32, 860u32]);
    assert(b2 =~= seq![480u32, 600u32]);
    assert(b1 =~= seq![480u32]);
    assert(b0 =~= Seq::<u32>::empty());
    assert(sizes_upto(b0, width) =~= Seq::<u32>::empty());
    assert(sizes_upto(b1, width) =~= if 480 <= width {
        seq![480u32]
    } else {
        Seq::<u32>::empty()
    });
    reveal_with_fuel(sizes_upto, 5);
}

} // verus!
