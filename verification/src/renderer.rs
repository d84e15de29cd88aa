//! Path resolution and the passes that rewrite rendered HTML.

use crate::attributes::{
    extract_attributes_chars, is_url_attribute_chars, is_url_name, tag_attributes, Attributes,
};
use crate::code_blocks::{
    decode_entities_chars, decoded_entities, highlight_code_blocks_chars, highlighted,
    highlighted_pre, process_pre_content_chars,
};
use crate::markdown::{
    emit_html, emitted, event_views, html_escaped, markdown_events, parsed_markdown, MdEvent,
};
use crate::syntax_highlighter::{highlighted_markup, HighlightError, SyntaxHighlighter};
use crate::text::{
    append, append_str, chars_of, contains, contains_str, count_repeated, drop_empty,
    escape_into, find, find_char, find_in, has_prefix, index_from, join, joined, lowercase,
    matches_at, opt_chars, replace_str, replaced, slice, split, split_on, starts_with_str,
    string_of, strip_leading, strip_leading_char, strip_repeated, to_lowercase, trim, trim_chars,
    views, without_empty,
};
use vstd::prelude::*;

verus! {

// ---------------------------------------------------------------------------
// Path resolution
// ---------------------------------------------------------------------------

/// A reference that leaves the site or stays on the page: it carries a
/// scheme, is protocol-relative, or is a fragment.
pub open spec fn is_external(t: Seq<char>) -> bool {
    ||| has_prefix(t, "http://"@)
    ||| has_prefix(t, "https://"@)
    ||| has_prefix(t, "//"@)
    ||| has_prefix(t, "#"@)
    ||| has_prefix(t, "data:"@)
    ||| has_prefix(t, "mailto:"@)
}

/// The site-absolute path of `rel` below the directory `base`.
pub open spec fn under(base: Seq<char>, rel: Seq<char>) -> Seq<char> {
    if rel.len() == 0 {
        if base.len() == 0 {
            "/"@
        } else {
            "/"@ + base
        }
    } else if base.len() == 0 {
        "/"@ + rel
    } else {
        "/"@ + base + "/"@ + rel
    }
}

/// The segments of `base` that are left after going up `ups` levels; none
/// are left when `ups` reaches the depth of `base`.
pub open spec fn parent_segments(base: Seq<char>, ups: nat) -> Seq<Seq<char>> {
    let segs = without_empty(split_on(base, '/'));
    if ups >= segs.len() {
        Seq::empty()
    } else {
        segs.take(segs.len() - ups)
    }
}

/// Where a reference written in a document of category `base` points,
/// as a site-absolute path.
pub open spec fn resolved_path(path: Seq<char>, base: Seq<char>) -> Seq<char> {
    let t = trim(path);
    if t.len() == 0 {
        "/"@
    } else if is_external(t) || has_prefix(t, "/"@) {
        t
    } else if has_prefix(t, "./"@) {
        under(base, strip_leading(strip_repeated(t, "./"@), '/'))
    } else if has_prefix(t, "../"@) {
        under(
            joined(parent_segments(base, count_repeated(t, "../"@)), "/"@),
            strip_leading(strip_repeated(t, "../"@), '/'),
        )
    } else {
        under(base, t)
    }
}

/// Strips the leading repetitions of `p` and counts them.
fn strip_repeated_prefix(s: &Vec<char>, p: &Vec<char>) -> (r: (Vec<char>, usize))
    ensures
        r.0@ == strip_repeated(s@, p@),
        r.1 == count_repeated(s@, p@),
{
    let mut i: usize = 0;
    let mut n: usize = 0;
    assert(s@.skip(0) =~= s@);
    if p.len() > 0 {
        while matches_at(s, i, p)
            invariant
                p.len() > 0,
                i <= s.len(),
                n <= i,
                strip_repeated(s@, p@) == strip_repeated(s@.skip(i as int), p@),
                count_repeated(s@, p@) == n + count_repeated(s@.skip(i as int), p@),
            decreases s.len() - i,
        {
            assert(s@.skip(i as int).subrange(0, p.len() as int) =~= s@.subrange(
                i as int,
                i + p.len(),
            ));
            assert(s@.skip(i as int).skip(p.len() as int) =~= s@.skip(i + p.len()));
            i += p.len();
            n += 1;
        }
        assert(!has_prefix(s@.skip(i as int), p@)) by {
            if i + p.len() <= s.len() {
                assert(s@.skip(i as int).subrange(0, p.len() as int) =~= s@.subrange(
                    i as int,
                    i + p.len(),
                ));
            }
        }
    }
    assert(s@.skip(i as int) =~= s@.subrange(i as int, s.len() as int));
    (slice(s, i, s.len()), n)
}

fn join_under(base: &Vec<char>, rel: &Vec<char>) -> (r: Vec<char>)
    ensures
        r@ == under(base@, rel@),
{
    let mut r = chars_of("/");
    if rel.len() == 0 {
        if base.len() != 0 {
            append(&mut r, base);
        }
    } else if base.len() == 0 {
        append(&mut r, rel);
    } else {
        append(&mut r, base);
        append_str(&mut r, "/");
        append(&mut r, rel);
    }
    r
}

fn segments_above(base: &Vec<char>, ups: usize) -> (r: Vec<Vec<char>>)
    ensures
        views(r@) == parent_segments(base@, ups as nat),
{
    let mut segs = drop_empty(split(base, '/'));
    let ghost all = views(segs@);
    if ups >= segs.len() {
        segs.truncate(0);
        assert(views(segs@) =~= Seq::<Seq<char>>::empty());
    } else {
        let keep: usize = segs.len() - ups;
        segs.truncate(keep);
        assert(views(segs@) =~= all.take(keep as int));
    }
    segs
}

fn is_external_ref(t: &Vec<char>) -> (b: bool)
    ensures
        b == is_external(t@),
{
    starts_with_str(t, "http://") || starts_with_str(t, "https://") || starts_with_str(t, "//")
        || starts_with_str(t, "#") || starts_with_str(t, "data:") || starts_with_str(
        t,
        "mailto:",
    )
}

/// Resolves a reference found in a document of category `base`.
pub fn resolve_path_chars(path: &Vec<char>, base: &Vec<char>) -> (r: Vec<char>)
    ensures
        r@ == resolved_path(path@, base@),
{
    let t = trim_chars(path);
    if t.len() == 0 {
        return chars_of("/");
    }
    if is_external_ref(&t) || starts_with_str(&t, "/") {
        return t;
    }
    if starts_with_str(&t, "./") {
        let dot = chars_of("./");
        let (rest, _n) = strip_repeated_prefix(&t, &dot);
        let rel = strip_leading_char(&rest, '/');
        return join_under(base, &rel);
    }
    if starts_with_str(&t, "../") {
        let up = chars_of("../");
        let (rest, ups) = strip_repeated_prefix(&t, &up);
        let rel = strip_leading_char(&rest, '/');
        let kept = segments_above(base, ups);
        let slash = chars_of("/");
        let dir = join(&kept, &slash);
        return join_under(&dir, &rel);
    }
    join_under(base, &t)
}

/// An external reference, or one that starts at the site's root, resolves to
/// itself but for the white space around it, whatever the category.
pub proof fn lemma_resolved_absolute_unchanged(path: Seq<char>, base: Seq<char>)
    requires
        is_external(trim(path)) || has_prefix(trim(path), "/"@),
    ensures
        resolved_path(path, base) == trim(path),
{
    reveal_strlit("/");
    reveal_strlit("#");
    reveal_strlit("//");
    reveal_strlit("http://");
    reveal_strlit("https://");
    reveal_strlit("data:");
    reveal_strlit("mailto:");
}

/// A reference that is empty, or holds white space only, resolves to the
/// site's root.
pub proof fn lemma_resolved_empty_is_root(path: Seq<char>, base: Seq<char>)
    requires
        trim(path).len() == 0,
    ensures
        resolved_path(path, base) == "/"@,
{
}

/// Whatever is not an external reference resolves to a path that starts at
/// the site's root.
pub proof fn lemma_resolved_is_rooted(path: Seq<char>, base: Seq<char>)
    requires
        !is_external(trim(path)),
    ensures
        resolved_path(path, base).len() > 0,
        resolved_path(path, base)[0] == '/',
{
    reveal_strlit("/");
    let t = trim(path);
    if t.len() > 0 && has_prefix(t, "/"@) {
        assert(t.subrange(0, 1)[0] == t[0]);
    }
}

// ---------------------------------------------------------------------------
// Raw HTML: references in hand-written media tags
// ---------------------------------------------------------------------------

/// The index of the `>` that closes the tag scanned from `i`, where `quote`
/// is the quotation mark that is open at `i`, if one is. A `>` inside a
/// quoted attribute value closes nothing.
pub open spec fn tag_end_from(s: Seq<char>, i: int, quote: Option<char>) -> Option<int>
    decreases s.len() - i,
{
    if i < 0 || i >= s.len() {
        None
    } else if s[i] == '"' || s[i] == '\'' {
        if quote == Some(s[i]) {
            tag_end_from(s, i + 1, None)
        } else if quote is None {
            tag_end_from(s, i + 1, Some(s[i]))
        } else {
            tag_end_from(s, i + 1, quote)
        }
    } else if s[i] == '>' && quote is None {
        Some(i)
    } else {
        tag_end_from(s, i + 1, quote)
    }
}

/// `tag` with the value of one attribute resolved against `category`, where
/// the attribute is written with the given quotation mark and its value is
/// relative (`./` or `../`). Only the first such attribute is looked at.
pub open spec fn rewrite_attr(tag: Seq<char>, attr: Seq<char>, quote: char, category: Seq<char>) -> Seq<
    char,
> {
    let pattern = (attr + "="@).push(quote);
    match find(tag, pattern) {
        None => tag,
        Some(start) => {
            let from = start + pattern.len();
            match index_from(tag, quote, from) {
                None => tag,
                Some(to) => {
                    let value = tag.subrange(from, to);
                    if has_prefix(value, "./"@) || has_prefix(value, "../"@) {
                        tag.take(from) + resolved_path(value, category) + seq![quote] + tag.skip(
                            to + 1,
                        )
                    } else {
                        tag
                    }
                },
            }
        },
    }
}

/// `rewrite_attr` for the double-quoted and then the single-quoted form.
pub open spec fn rewrite_attr_quoted(tag: Seq<char>, attr: Seq<char>, category: Seq<char>) -> Seq<
    char,
> {
    rewrite_attr(rewrite_attr(tag, attr, '"', category), attr, '\'', category)
}

/// `tag` with its `src`, `poster` and `data` attributes resolved.
pub open spec fn resolved_tag_urls(tag: Seq<char>, category: Seq<char>) -> Seq<char> {
    rewrite_attr_quoted(
        rewrite_attr_quoted(rewrite_attr_quoted(tag, "src"@, category), "poster"@, category),
        "data"@,
        category,
    )
}

/// Whether a lower-cased tag opens one of the media elements whose
/// references are resolved when written by hand.
pub open spec fn is_media_tag(lower: Seq<char>) -> bool {
    ||| has_prefix(lower, "<video "@)
    ||| has_prefix(lower, "<audio "@)
    ||| has_prefix(lower, "<source "@)
    ||| has_prefix(lower, "<iframe "@)
    ||| has_prefix(lower, "<embed "@)
    ||| has_prefix(lower, "<object "@)
    ||| has_prefix(lower, "<track "@)
}

/// What the raw-HTML pass makes of one tag: a tag that carries the marker is
/// left to the component pass, a media tag has its references resolved, any
/// other tag stays.
pub open spec fn rewritten_tag(tag: Seq<char>, category: Seq<char>) -> Seq<char> {
    if contains(tag, " data-md"@) {
        tag
    } else if is_media_tag(lowercase(tag)) {
        resolved_tag_urls(tag, category)
    } else {
        tag
    }
}

/// The raw-HTML pass on `html` from index `pos` on: text between tags and a
/// last unclosed `<` are kept as they are, each tag is rewritten.
pub open spec fn raw_html_from(html: Seq<char>, pos: int, category: Seq<char>) -> Seq<char>
    decreases html.len() - pos,
{
    if pos < 0 || pos >= html.len() {
        Seq::empty()
    } else {
        match index_from(html, '<', pos) {
            None => html.skip(pos),
            Some(open) => match tag_end_from(html, open, None) {
                None => html.skip(pos),
                Some(close) => if pos <= open <= close < html.len() {
                    html.subrange(pos, open) + rewritten_tag(
                        html.subrange(open, close + 1),
                        category,
                    ) + raw_html_from(html, close + 1, category)
                } else {
                    html.skip(pos)
                },
            },
        }
    }
}

/// `html` with the references of its hand-written media tags resolved.
pub open spec fn raw_html_resolved(html: Seq<char>, category: Seq<char>) -> Seq<char> {
    raw_html_from(html, 0, category)
}

fn rewrite_attribute(tag: Vec<char>, attr: &str, quote: char, category: &Vec<char>) -> (r: Vec<
    char,
>)
    ensures
        r@ == rewrite_attr(tag@, attr@, quote, category@),
{
    let mut pattern = chars_of(attr);
    append_str(&mut pattern, "=");
    pattern.push(quote);
    match find_in(&tag, &pattern, 0) {
        None => tag,
        Some(start) => {
            let from: usize = start + pattern.len();
            match find_char(&tag, quote, from) {
                None => tag,
                Some(to) => {
                    let value = slice(&tag, from, to);
                    if starts_with_str(&value, "./") || starts_with_str(&value, "../") {
                        let mut r = slice(&tag, 0, from);
                        let resolved = resolve_path_chars(&value, category);
                        append(&mut r, &resolved);
                        r.push(quote);
                        let rest = slice(&tag, to + 1, tag.len());
                        append(&mut r, &rest);
                        assert(r@ =~= tag@.take(from as int) + resolved@ + seq![quote]
                            + tag@.skip(to + 1));
                        r
                    } else {
                        tag
                    }
                },
            }
        },
    }
}

fn rewrite_attribute_quoted(tag: Vec<char>, attr: &str, category: &Vec<char>) -> (r: Vec<char>)
    ensures
        r@ == rewrite_attr_quoted(tag@, attr@, category@),
{
    let t = rewrite_attribute(tag, attr, '"', category);
    rewrite_attribute(t, attr, '\'', category)
}

fn is_media(lower: &Vec<char>) -> (b: bool)
    ensures
        b == is_media_tag(lower@),
{
    starts_with_str(lower, "<video ") || starts_with_str(lower, "<audio ") || starts_with_str(
        lower,
        "<source ",
    ) || starts_with_str(lower, "<iframe ") || starts_with_str(lower, "<embed ")
        || starts_with_str(lower, "<object ") || starts_with_str(lower, "<track ")
}

fn rewrite_tag(tag: Vec<char>, category: &Vec<char>) -> (r: Vec<char>)
    ensures
        r@ == rewritten_tag(tag@, category@),
{
    if contains_str(&tag, " data-md") {
        return tag;
    }
    let text = string_of(&tag);
    let lower = chars_of(to_lowercase(text.as_str()).as_str());
    if is_media(&lower) {
        Renderer::resolve_tag_urls_chars(tag, category)
    } else {
        tag
    }
}

/// Resolves the relative references of the media tags that the author wrote by hand.
pub fn resolve_raw_html_chars(html: &Vec<char>, category: &Vec<char>) -> (r: Vec<char>)
    ensures
        r@ == raw_html_resolved(html@, category@),
{
    let mut out: Vec<char> = Vec::new();
    let mut pos: usize = 0;
    while pos < html.len()
        invariant
            pos <= html.len(),
            out@ + raw_html_from(html@, pos as int, category@) == raw_html_resolved(
                html@,
                category@,
            ),
        decreases html.len() - pos,
    {
        let ghost before = out@;
        let found = match find_char(html, '<', pos) {
            None => None,
            Some(open) => match Renderer::find_tag_end(html, open) {
                None => None,
                Some(close) => Some((open, close)),
            },
        };
        match found {
            None => {
                let rest = slice(html, pos, html.len());
                append(&mut out, &rest);
                assert(rest@ =~= html@.skip(pos as int));
                return out;
            },
            Some((open, close)) => {
                let text = slice(html, pos, open);
                append(&mut out, &text);
                let tag = slice(html, open, close + 1);
                let rewritten = rewrite_tag(tag, category);
                append(&mut out, &rewritten);
                pos = close + 1;
                assert(before + text@ + rewritten@ + raw_html_from(
                    html@,
                    pos as int,
                    category@,
                ) =~= before + (text@ + rewritten@ + raw_html_from(html@, pos as int, category@)));
            },
        }
    }
    assert(out@ + Seq::<char>::empty() =~= out@);
    out
}

/// The rendering engine. Each one owns its highlighter.
pub struct Renderer {
    pub highlighter: SyntaxHighlighter,
}

/// Why a document could not be rendered. No pass of the engine fails at
/// present: a block that cannot be highlighted and a component whose
/// template fails keep their markup.
#[derive(Debug)]
pub enum RenderError {
    /// The document could not be turned into HTML.
    Unrenderable,
}

/// `html` without the markers that the emitter put on its elements.
pub open spec fn sanitized(html: Seq<char>) -> Seq<char> {
    replaced(html, " data-md"@, ""@)
}

impl Renderer {
    /// A rendering engine with its own highlighter.
    pub fn new() -> (r: Self) {
        Renderer { highlighter: SyntaxHighlighter {  } }
    }

    /// Appends `text` to `output`, with `&`, `<`, `>` and `"` escaped.
    pub fn escape_html(output: &mut String, text: &str)
        ensures
            final(output)@ == old(output)@ + html_escaped(text@),
    {
        let mut out = chars_of(output.as_str());
        escape_into(&mut out, &chars_of(text), "'");
        *output = string_of(&out);
    }

    /// Removes the markers from rendered HTML.
    pub fn sanitize(html: &str) -> (r: String)
        ensures
            r@ == sanitized(html@),
    {
        string_of(&replace_str(&chars_of(html), " data-md", ""))
    }

    /// Turns the entities of escaped text back into their characters.
    pub fn decode_html_entities(html: &str) -> (r: String)
        ensures
            r@ == decoded_entities(html@),
    {
        string_of(&decode_entities_chars(&chars_of(html)))
    }

    /// The attributes of a start tag.
    pub fn extract_attributes(tag: &str) -> (r: Attributes)
        ensures
            r.pairs() == tag_attributes(tag@),
    {
        extract_attributes_chars(&chars_of(tag))
    }

    /// Whether an attribute of this name holds a reference to resolve.
    pub fn is_url_attribute(attr: &str) -> (b: bool)
        ensures
            b == is_url_name(attr@),
    {
        is_url_attribute_chars(&chars_of(attr))
    }

    /// Highlights `code`, written in `lang`.
    pub fn highlight_code(&self, code: &str, lang: &str) -> (r: Result<String, HighlightError>)
        ensures
            match r {
                Ok(h) => highlighted_markup(code@, lang@) == Some(h@),
                Err(_) => highlighted_markup(code@, lang@) is None,
            },
    {
        self.highlighter.highlight(code, lang)
    }

    /// The markup that replaces a `<pre>` block with the given content;
    /// `None` where the block stays as it is.
    pub fn process_pre_content(&self, content: &str) -> (r: Option<String>)
        ensures
            opt_chars(r) == highlighted_pre(content@),
    {
        match process_pre_content_chars(&self.highlighter, &chars_of(content)) {
            Some(h) => Some(string_of(&h)),
            None => None,
        }
    }

    /// The highlighting pass.
    pub fn highlight_code_blocks(&self, html: &str) -> (r: String)
        ensures
            r@ == highlighted(html@),
    {
        string_of(&highlight_code_blocks_chars(&self.highlighter, &chars_of(html)))
    }

    /// The marked and highlighted HTML of a sequence of Markdown events.
    pub fn render_events(&self, events: &Vec<MdEvent>) -> (r: String)
        ensures
            r@ == highlighted(emitted(events@)),
    {
        self.highlight_code_blocks(emit_html(events).as_str())
    }

    /// The marked and highlighted HTML of a Markdown document: that of the
    /// events that the Markdown parser reads from it.
    pub fn render_markdown(&self, markdown: &str) -> (r: String)
        ensures
            exists|events: Seq<MdEvent>|
                event_views(events) == parsed_markdown(markdown@) && r@ == highlighted(
                    emitted(events),
                ),
    {
        let events = markdown_events(markdown);
        self.render_events(&events)
    }

    /// Resolves a reference found in a document of category `base_path`.
    pub fn resolve_path(path: &str, base_path: &str) -> (r: String)
        ensures
            r@ == resolved_path(path@, base_path@),
    {
        let p = chars_of(path);
        let b = chars_of(base_path);
        let r = resolve_path_chars(&p, &b);
        string_of(&r)
    }

    /// The index of the `>` that closes the tag which starts at `from`.
    pub fn find_tag_end(s: &Vec<char>, from: usize) -> (r: Option<usize>)
        ensures
            match r {
                Some(e) => tag_end_from(s@, from as int, None) == Some(e as int) && from <= e
                    < s.len(),
                None => tag_end_from(s@, from as int, None) is None,
            },
    {
        let mut quote: Option<char> = None;
        let mut i: usize = from;
        while i < s.len()
            invariant
                from <= i,
                tag_end_from(s@, from as int, None) == tag_end_from(s@, i as int, quote),
            decreases s.len() - i,
        {
            let ch = s[i];
            if ch == '"' || ch == '\'' {
                match quote {
                    None => {
                        quote = Some(ch);
                    },
                    Some(q) => {
                        if q == ch {
                            quote = None;
                        }
                    },
                }
            } else if ch == '>' && quote.is_none() {
                return Some(i);
            }
            i += 1;
        }
        None
    }

    /// Resolves the `src`, `poster` and `data` attributes of one tag.
    pub fn resolve_tag_urls(tag: &str, category: &str) -> (r: String)
        ensures
            r@ == resolved_tag_urls(tag@, category@),
    {
        let t = chars_of(tag);
        let c = chars_of(category);
        let r = Self::resolve_tag_urls_chars(t, &c);
        string_of(&r)
    }

    fn resolve_tag_urls_chars(tag: Vec<char>, category: &Vec<char>) -> (r: Vec<char>)
        ensures
            r@ == resolved_tag_urls(tag@, category@),
    {
        let a = rewrite_attribute_quoted(tag, "src", category);
        let b = rewrite_attribute_quoted(a, "poster", category);
        rewrite_attribute_quoted(b, "data", category)
    }

    /// Resolves the relative references of the media tags that the author
    /// wrote by hand; tags that carry the marker are left alone.
    pub fn resolve_raw_html_paths(html: &str, category: &str) -> (r: String)
        ensures
            r@ == raw_html_resolved(html@, category@),
    {
        let h = chars_of(html);
        let c = chars_of(category);
        let r = resolve_raw_html_chars(&h, &c);
        string_of(&r)
    }
}

} // verus!
