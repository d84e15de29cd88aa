//! Shortcodes: `[name key="value"]` and `[name]...[/name]` in a document's
//! Markdown are replaced by the markup of the handler registered for `name`.

use crate::attributes::{lookup, Attributes};
use crate::text::{
    append, append_str, char_is_space, chars_of, escape_into, escaped, find_char, find_from,
    find_in, index_from, is_space, owned, replace_str, replaced, slice, str_eq, string_of, trim,
    trim_chars,
};
use vstd::prelude::*;

verus! {

/// Whether a character outside ASCII is a word character: one that the
/// class `\w` of regular expressions holds.
pub uninterp spec fn is_unicode_word(c: char) -> bool;

/// Whether the regular expression `^\w$` matches the character
/// (`regex::Regex::is_match`); `false` where the expression could not be
/// built. The class is named, not stated.
#[verifier::external_body]
fn matches_word_class(c: char) -> (r: bool)
    ensures
        r == is_unicode_word(c),
{
    regex::Regex::new(r"^\w$").map(|re| re.is_match(c.encode_utf8(&mut [0u8; 4]))).unwrap_or(false)
}

/// A word character: an ASCII letter or digit, `_`, or a word character
/// outside ASCII.
pub open spec fn is_word(c: char) -> bool {
    let n = c as u32;
    if n < 128 {
        (0x30 <= n <= 0x39) || (0x41 <= n <= 0x5A) || (0x61 <= n <= 0x7A) || n == 0x5F
    } else {
        is_unicode_word(c)
    }
}

/// Whether a character is a word character.
pub fn is_word_char(c: char) -> (b: bool)
    ensures
        b == is_word(c),
{
    let n: u32 = c as u32;
    if n < 128 {
        (0x30 <= n && n <= 0x39) || (0x41 <= n && n <= 0x5A) || (0x61 <= n && n <= 0x7A) || n
            == 0x5F
    } else {
        matches_word_class(c)
    }
}

/// The index behind the run of word characters that starts at `i`.
pub open spec fn word_end(s: Seq<char>, i: int) -> int
    decreases s.len() - i,
{
    if i < 0 || i >= s.len() || !is_word(s[i]) {
        i
    } else {
        word_end(s, i + 1)
    }
}

/// The index behind the run of white space that starts at `i`.
pub open spec fn space_end(s: Seq<char>, i: int) -> int
    decreases s.len() - i,
{
    if i < 0 || i >= s.len() || !is_space(s[i]) {
        i
    } else {
        space_end(s, i + 1)
    }
}

/// A run of word characters from `i` on ends in the text.
pub proof fn lemma_word_end(s: Seq<char>, i: int)
    requires
        0 <= i <= s.len(),
    ensures
        i <= word_end(s, i) <= s.len(),
    decreases s.len() - i,
{
    if i < s.len() && is_word(s[i]) {
        lemma_word_end(s, i + 1);
    }
}

/// A run of white space from `i` on ends in the text.
pub proof fn lemma_space_end(s: Seq<char>, i: int)
    requires
        0 <= i <= s.len(),
    ensures
        i <= space_end(s, i) <= s.len(),
    decreases s.len() - i,
{
    if i < s.len() && is_space(s[i]) {
        lemma_space_end(s, i + 1);
    }
}

fn skip_word(s: &Vec<char>, from: usize) -> (r: usize)
    requires
        from <= s.len(),
    ensures
        r == word_end(s@, from as int),
        from <= r <= s.len(),
{
    let mut i: usize = from;
    while i < s.len() && is_word_char(s[i])
        invariant
            from <= i <= s.len(),
            word_end(s@, from as int) == word_end(s@, i as int),
        decreases s.len() - i,
    {
        i += 1;
    }
    i
}

fn skip_space(s: &Vec<char>, from: usize) -> (r: usize)
    requires
        from <= s.len(),
    ensures
        r == space_end(s@, from as int),
        from <= r <= s.len(),
{
    let mut i: usize = from;
    while i < s.len() && char_is_space(s[i])
        invariant
            from <= i <= s.len(),
            space_end(s@, from as int) == space_end(s@, i as int),
        decreases s.len() - i,
    {
        i += 1;
    }
    i
}

// ---------------------------------------------------------------------------
// The grammar
// ---------------------------------------------------------------------------

/// A shortcode tag that starts at `i`: `[`, a name of word characters,
/// anything but `]`, and `]`. The result is the index behind the name and
/// the index of the `]`.
pub open spec fn tag_at(s: Seq<char>, i: int) -> Option<(int, int)> {
    if 0 <= i && i + 1 < s.len() && s[i] == '[' && is_word(s[i + 1]) {
        let name_end = word_end(s, i + 1);
        match index_from(s, ']', name_end) {
            Some(close) => if name_end <= close < s.len() {
                Some((name_end, close))
            } else {
                None
            },
            None => None,
        }
    } else {
        None
    }
}

/// The first shortcode tag at or after `from`: where it starts, where its
/// name ends, and where it closes.
pub open spec fn next_tag(s: Seq<char>, from: int) -> Option<(int, int, int)>
    decreases s.len() - from,
{
    if from < 0 || from >= s.len() {
        None
    } else {
        match tag_at(s, from) {
            Some(t) => Some((from, t.0, t.1)),
            None => next_tag(s, from + 1),
        }
    }
}

/// An attribute that starts at `i`: a name of word characters, `=` with
/// white space around it at will, and a value in single or double
/// quotation marks. The result is the index behind the closing mark, the
/// name, and the value.
pub open spec fn attribute_at(s: Seq<char>, i: int) -> Option<(int, Seq<char>, Seq<char>)> {
    if 0 <= i < s.len() && is_word(s[i]) {
        let name_end = word_end(s, i);
        let eq = space_end(s, name_end);
        if 0 <= eq < s.len() && s[eq] == '=' {
            let quote = space_end(s, eq + 1);
            if 0 <= quote < s.len() && (s[quote] == '"' || s[quote] == '\'') {
                match index_from(s, s[quote], quote + 1) {
                    Some(close) => if quote < close < s.len() && i < name_end {
                        Some((close + 1, s.subrange(i, name_end), s.subrange(quote + 1, close)))
                    } else {
                        None
                    },
                    None => None,
                }
            } else {
                None
            }
        } else {
            None
        }
    } else {
        None
    }
}

/// The attributes written in `s` from index `i` on, in order.
pub open spec fn attributes_from(s: Seq<char>, i: int) -> Seq<(Seq<char>, Seq<char>)>
    decreases s.len() - i,
{
    if i < 0 || i >= s.len() {
        Seq::empty()
    } else {
        match attribute_at(s, i) {
            Some(a) => if i < a.0 <= s.len() {
                seq![(a.1, a.2)] + attributes_from(s, a.0)
            } else {
                Seq::empty()
            },
            None => attributes_from(s, i + 1),
        }
    }
}

/// The attributes of a shortcode tag.
pub open spec fn shortcode_attributes(s: Seq<char>) -> Seq<(Seq<char>, Seq<char>)> {
    attributes_from(s, 0)
}

fn read_attribute(s: &Vec<char>, i: usize) -> (r: Option<(usize, String, String)>)
    requires
        i < s.len(),
    ensures
        match r {
            Some(a) => attribute_at(s@, i as int) == Some((a.0 as int, a.1@, a.2@)) && i < a.0
                <= s.len(),
            None => attribute_at(s@, i as int) is None,
        },
{
    if !is_word_char(s[i]) {
        return None;
    }
    let name_end = skip_word(s, i);
    let eq = skip_space(s, name_end);
    if eq >= s.len() || s[eq] != '=' {
        return None;
    }
    let quote = skip_space(s, eq + 1);
    if quote >= s.len() || !(s[quote] == '"' || s[quote] == '\'') {
        return None;
    }
    match find_char(s, s[quote], quote + 1) {
        None => None,
        Some(close) => {
            if i >= name_end {
                return None;
            }
            let name = string_of(&slice(s, i, name_end));
            let value = string_of(&slice(s, quote + 1, close));
            Some((close + 1, name, value))
        },
    }
}

/// Reads the attributes of a shortcode tag.
pub fn parse_attributes(s: &str) -> (r: Attributes)
    ensures
        r.pairs() == shortcode_attributes(s@),
{
    let v = chars_of(s);
    let mut attrs = Attributes::new();
    let mut i: usize = 0;
    while i < v.len()
        invariant
            i <= v.len(),
            attrs.pairs() + attributes_from(v@, i as int) == shortcode_attributes(v@),
        decreases v.len() - i,
    {
        let ghost before = attrs.pairs();
        match read_attribute(&v, i) {
            Some((next, name, value)) => {
                assert(before.push((name@, value@)) + attributes_from(v@, next as int) =~= before
                    + (seq![(name@, value@)] + attributes_from(v@, next as int)));
                attrs.insert(name, value);
                i = next;
            },
            None => {
                i += 1;
            },
        }
    }
    assert(attrs.pairs() + Seq::<(Seq<char>, Seq<char>)>::empty() =~= attrs.pairs());
    attrs
}

fn read_tag(s: &Vec<char>, i: usize) -> (r: Option<(usize, usize)>)
    requires
        i < s.len(),
    ensures
        match r {
            Some(t) => tag_at(s@, i as int) == Some((t.0 as int, t.1 as int)) && i < t.0 <= t.1
                < s.len(),
            None => tag_at(s@, i as int) is None,
        },
{
    if s[i] != '[' || s.len() - i < 2 || !is_word_char(s[i + 1]) {
        return None;
    }
    let name_end = skip_word(s, i + 1);
    match find_char(s, ']', name_end) {
        Some(close) => Some((name_end, close)),
        None => None,
    }
}

fn find_tag(s: &Vec<char>, from: usize) -> (r: Option<(usize, usize, usize)>)
    ensures
        match r {
            Some(t) => next_tag(s@, from as int) == Some((t.0 as int, t.1 as int, t.2 as int))
                && from <= t.0 < t.1 <= t.2 < s.len(),
            None => next_tag(s@, from as int) is None,
        },
{
    let mut i: usize = from;
    while i < s.len()
        invariant
            from <= i,
            next_tag(s@, from as int) == next_tag(s@, i as int),
        decreases s.len() - i,
    {
        match read_tag(s, i) {
            Some((name_end, close)) => {
                return Some((i, name_end, close));
            },
            None => {},
        }
        i += 1;
    }
    None
}

// ---------------------------------------------------------------------------
// Handlers
// ---------------------------------------------------------------------------

/// The handlers that the registry knows.
#[derive(Debug, Clone, Copy, PartialEq, Eq, Structural)]
pub enum ShortcodeKind {
    /// `[figure src alt caption width height]`
    Figure,
    /// `[callout type title]content[/callout]`
    Callout,
    /// `[youtube id title]`
    Youtube,
    /// `[code lang filename]content[/code]`
    Code,
    /// `[react component loading ...props]fallback[/react]`
    React,
}

/// Why a shortcode could not be expanded.
#[derive(Debug, Clone, Copy, PartialEq, Eq, Structural)]
pub enum ShortcodeError {
    /// A `youtube` shortcode without `id`.
    MissingYoutubeId,
    /// A `react` shortcode without `component`.
    MissingReactComponent,
}

impl ShortcodeError {
    /// The error in words.
    pub fn message(&self) -> (r: String)
        ensures
            r@ == match self {
                ShortcodeError::MissingYoutubeId => "YouTube shortcode requires 'id' attribute"@,
                ShortcodeError::MissingReactComponent => "React shortcode requires 'component' attribute"@,
            },
    {
        match self {
            ShortcodeError::MissingYoutubeId => owned("YouTube shortcode requires 'id' attribute"),
            ShortcodeError::MissingReactComponent => owned(
                "React shortcode requires 'component' attribute",
            ),
        }
    }
}

/// Text as it stands in the markup of a shortcode: `&`, `<`, `>`, `"` and
/// `'` escaped.
pub open spec fn attr_escaped(text: Seq<char>) -> Seq<char> {
    escaped(text, "&#39;"@)
}

/// The value of an attribute, or `default` where it is not given.
pub open spec fn value_or(pairs: Seq<(Seq<char>, Seq<char>)>, key: Seq<char>, default: Seq<char>) -> Seq<
    char,
> {
    match lookup(pairs, key) {
        Some(v) => v,
        None => default,
    }
}

/// An attribute of the markup, where the shortcode gives it.
pub open spec fn optional_attribute(
    pairs: Seq<(Seq<char>, Seq<char>)>,
    key: Seq<char>,
    before: Seq<char>,
    after: Seq<char>,
) -> Seq<char> {
    match lookup(pairs, key) {
        Some(v) => before + attr_escaped(v) + after,
        None => Seq::empty(),
    }
}

/// The content of a shortcode, empty where it has none.
pub open spec fn content_or_empty(content: Option<Seq<char>>) -> Seq<char> {
    match content {
        Some(c) => c,
        None => Seq::empty(),
    }
}

/// The markup of a `figure` shortcode: an image, loaded lazily, with its caption where one is given.
pub open spec fn figure_markup(pairs: Seq<(Seq<char>, Seq<char>)>) -> Seq<char> {
    "<figure><img src=\""@ + attr_escaped(value_or(pairs, "src"@, ""@)) + "\" alt=\""@
        + attr_escaped(value_or(pairs, "alt"@, ""@)) + "\" loading=\"lazy\""@ + optional_attribute(
        pairs,
        "width"@,
        " width=\""@,
        "\""@,
    ) + optional_attribute(pairs, "height"@, " height=\""@, "\""@) + " />"@ + (if value_or(
        pairs,
        "caption"@,
        ""@,
    ).len() > 0 {
        "<figcaption>"@ + attr_escaped(value_or(pairs, "caption"@, ""@)) + "</figcaption>"@
    } else {
        Seq::empty()
    }) + "</figure>"@
}

/// The markup of a `callout` shortcode: a box of the given type, `info` where none is given, with its title and its content.
pub open spec fn callout_markup(pairs: Seq<(Seq<char>, Seq<char>)>, content: Option<Seq<char>>) -> Seq<
    char,
> {
    "<div class=\"callout callout-"@ + attr_escaped(value_or(pairs, "type"@, "info"@)) + "\">"@
        + optional_attribute(pairs, "title"@, "<div class=\"callout-title\">"@, "</div>"@)
        + "<div class=\"callout-content\">"@ + content_or_empty(content) + "</div></div>"@
}

/// The markup of a `youtube` shortcode: the embedded player of the video with the given id.
pub open spec fn youtube_markup(pairs: Seq<(Seq<char>, Seq<char>)>) -> Seq<char> {
    "<div class=\"video-container\"><iframe src=\"https://www.youtube.com/embed/"@ + attr_escaped(
        value_or(pairs, "id"@, ""@),
    ) + "\" title=\""@ + attr_escaped(value_or(pairs, "title"@, "YouTube video"@))
        + "\" frameborder=\"0\" allow=\"accelerometer; autoplay; clipboard-write; encrypted-media; gyroscope; picture-in-picture\" allowfullscreen loading=\"lazy\"></iframe></div>"@
}

/// The markup of a `code` shortcode: a code block in the given language, below its file name where one is given.
pub open spec fn code_markup(pairs: Seq<(Seq<char>, Seq<char>)>, content: Option<Seq<char>>) -> Seq<
    char,
> {
    optional_attribute(
        pairs,
        "filename"@,
        "<div class=\"code-block\"><div class=\"code-filename\">"@,
        "</div>"@,
    ) + "<pre><code class=\"language-"@ + attr_escaped(value_or(pairs, "lang"@, ""@)) + "\">"@
        + attr_escaped(content_or_empty(content)) + "</code></pre>"@ + (if lookup(
        pairs,
        "filename"@,
    ) is Some {
        "</div>"@
    } else {
        Seq::empty()
    })
}

/// A value as it stands between the quotation marks of a JSON string:
/// `\` and `"` escaped.
pub open spec fn json_escaped(value: Seq<char>) -> Seq<char> {
    replaced(replaced(value, "\\"@, "\\\\"@), "\""@, "\\\""@)
}

/// Whether a name was given before index `n`.
pub open spec fn named_before(pairs: Seq<(Seq<char>, Seq<char>)>, key: Seq<char>, n: int) -> bool
    decreases n,
{
    if n <= 0 || n > pairs.len() {
        false
    } else {
        pairs[n - 1].0 == key || named_before(pairs, key, n - 1)
    }
}

/// The members of the JSON object that holds a component's props, from the
/// first `n` attributes: every attribute but `component` and `loading`,
/// once, with the value given last, in the order in which the names first
/// occur; a comma stands in front of each member.
pub open spec fn props_members(pairs: Seq<(Seq<char>, Seq<char>)>, n: int) -> Seq<char>
    decreases n,
{
    if n <= 0 || n > pairs.len() {
        Seq::empty()
    } else {
        let key = pairs[n - 1].0;
        if key == "component"@ || key == "loading"@ || named_before(pairs, key, n - 1) {
            props_members(pairs, n - 1)
        } else {
            props_members(pairs, n - 1) + ",\""@ + key + "\":\""@ + json_escaped(
                value_or(pairs, key, ""@),
            ) + "\""@
        }
    }
}

/// The JSON object that holds a component's props.
pub open spec fn props_json(pairs: Seq<(Seq<char>, Seq<char>)>) -> Seq<char> {
    let members = props_members(pairs, pairs.len() as int);
    "{"@ + (if members.len() > 0 {
        members.skip(1)
    } else {
        members
    }) + "}"@
}

/// The markup of a `react` shortcode: the placeholder of a component, with its props and with the content as fallback.
pub open spec fn react_markup(pairs: Seq<(Seq<char>, Seq<char>)>, content: Option<Seq<char>>) -> Seq<
    char,
> {
    "<div class=\"react-island\" data-component=\""@ + attr_escaped(
        value_or(pairs, "component"@, ""@),
    ) + "\" data-props='"@ + attr_escaped(props_json(pairs)) + "' data-loading=\""@ + attr_escaped(
        value_or(pairs, "loading"@, "lazy"@),
    ) + "\">"@ + (match content {
        Some(c) => "<div class=\"react-island__fallback\">"@ + c + "</div>"@,
        None => Seq::empty(),
    }) + "<noscript>Interactive component requires JavaScript</noscript></div>"@
}

/// The markup that a handler makes of a shortcode's attributes and content.
pub open spec fn handler_markup(
    kind: ShortcodeKind,
    pairs: Seq<(Seq<char>, Seq<char>)>,
    content: Option<Seq<char>>,
) -> Result<Seq<char>, ShortcodeError> {
    match kind {
        ShortcodeKind::Figure => Ok(figure_markup(pairs)),
        ShortcodeKind::Callout => Ok(callout_markup(pairs, content)),
        ShortcodeKind::Youtube => if value_or(pairs, "id"@, ""@).len() == 0 {
            Err(ShortcodeError::MissingYoutubeId)
        } else {
            Ok(youtube_markup(pairs))
        },
        ShortcodeKind::Code => Ok(code_markup(pairs, content)),
        ShortcodeKind::React => if lookup(pairs, "component"@) is None {
            Err(ShortcodeError::MissingReactComponent)
        } else {
            Ok(react_markup(pairs, content))
        },
    }
}

/// Escapes HTML special characters.
pub fn escape_html(s: &str) -> (r: String)
    ensures
        r@ == attr_escaped(s@),
{
    crate::text::escape_str(s, "&#39;")
}

fn push_attr_escaped(out: &mut Vec<char>, text: &str)
    ensures
        final(out)@ == old(out)@ + attr_escaped(text@),
{
    escape_into(out, &chars_of(text), "&#39;");
}

fn value_or_default<'a>(attrs: &'a Attributes, key: &str, default: &'a str) -> (r: &'a str)
    ensures
        r@ == value_or(attrs.pairs(), key@, default@),
{
    match attrs.get(key) {
        Some(v) => v.as_str(),
        None => default,
    }
}

fn push_optional(out: &mut Vec<char>, attrs: &Attributes, key: &str, before: &str, after: &str)
    ensures
        final(out)@ == old(out)@ + optional_attribute(attrs.pairs(), key@, before@, after@),
{
    let ghost start = out@;
    match attrs.get(key) {
        Some(v) => {
            append_str(out, before);
            push_attr_escaped(out, v.as_str());
            append_str(out, after);
            assert(out@ =~= start + (before@ + attr_escaped(v@) + after@));
        },
        None => {
            assert(start + Seq::<char>::empty() =~= start);
        },
    }
}

fn figure(attrs: &Attributes) -> (r: Vec<char>)
    ensures
        r@ == figure_markup(attrs.pairs()),
{
    let mut out = chars_of("<figure><img src=\"");
    push_attr_escaped(&mut out, value_or_default(attrs, "src", ""));
    append_str(&mut out, "\" alt=\"");
    push_attr_escaped(&mut out, value_or_default(attrs, "alt", ""));
    append_str(&mut out, "\" loading=\"lazy\"");
    push_optional(&mut out, attrs, "width", " width=\"", "\"");
    push_optional(&mut out, attrs, "height", " height=\"", "\"");
    append_str(&mut out, " />");
    let caption = value_or_default(attrs, "caption", "");
    if chars_of(caption).len() > 0 {
        append_str(&mut out, "<figcaption>");
        push_attr_escaped(&mut out, caption);
        append_str(&mut out, "</figcaption>");
    }
    append_str(&mut out, "</figure>");
    assert(out@ =~= figure_markup(attrs.pairs()));
    out
}

fn callout(attrs: &Attributes, content: Option<&str>) -> (r: Vec<char>)
    ensures
        r@ == callout_markup(
            attrs.pairs(),
            match content {
                Some(c) => Some(c@),
                None => None,
            },
        ),
{
    let mut out = chars_of("<div class=\"callout callout-");
    push_attr_escaped(&mut out, value_or_default(attrs, "type", "info"));
    append_str(&mut out, "\">");
    push_optional(&mut out, attrs, "title", "<div class=\"callout-title\">", "</div>");
    append_str(&mut out, "<div class=\"callout-content\">");
    match content {
        Some(c) => append_str(&mut out, c),
        None => {},
    }
    append_str(&mut out, "</div></div>");
    assert(out@ =~= callout_markup(
        attrs.pairs(),
        match content {
            Some(c) => Some(c@),
            None => None,
        },
    ));
    out
}

fn youtube(attrs: &Attributes) -> (r: Vec<char>)
    ensures
        r@ == youtube_markup(attrs.pairs()),
{
    let mut out = chars_of(
        "<div class=\"video-container\"><iframe src=\"https://www.youtube.com/embed/",
    );
    push_attr_escaped(&mut out, value_or_default(attrs, "id", ""));
    append_str(&mut out, "\" title=\"");
    push_attr_escaped(&mut out, value_or_default(attrs, "title", "YouTube video"));
    append_str(
        &mut out,
        "\" frameborder=\"0\" allow=\"accelerometer; autoplay; clipboard-write; encrypted-media; gyroscope; picture-in-picture\" allowfullscreen loading=\"lazy\"></iframe></div>",
    );
    assert(out@ =~= youtube_markup(attrs.pairs()));
    out
}

fn code(attrs: &Attributes, content: Option<&str>) -> (r: Vec<char>)
    ensures
        r@ == code_markup(
            attrs.pairs(),
            match content {
                Some(c) => Some(c@),
                None => None,
            },
        ),
{
    let mut out: Vec<char> = Vec::new();
    push_optional(
        &mut out,
        attrs,
        "filename",
        "<div class=\"code-block\"><div class=\"code-filename\">",
        "</div>",
    );
    append_str(&mut out, "<pre><code class=\"language-");
    push_attr_escaped(&mut out, value_or_default(attrs, "lang", ""));
    append_str(&mut out, "\">");
    match content {
        Some(c) => push_attr_escaped(&mut out, c),
        None => {
            assert(out@ + attr_escaped(Seq::<char>::empty()) =~= out@);
        },
    }
    append_str(&mut out, "</code></pre>");
    if attrs.get("filename").is_some() {
        append_str(&mut out, "</div>");
    }
    assert(out@ =~= code_markup(
        attrs.pairs(),
        match content {
            Some(c) => Some(c@),
            None => None,
        },
    ));
    out
}

fn was_named_before(attrs: &Attributes, key: &str, n: usize) -> (b: bool)
    requires
        n <= attrs.entries.len(),
    ensures
        b == named_before(attrs.pairs(), key@, n as int),
{
    let mut i: usize = 0;
    while i < n
        invariant
            i <= n <= attrs.entries.len(),
            !named_before(attrs.pairs(), key@, i as int),
        decreases n - i,
    {
        assert(attrs.pairs()[i as int] == (attrs.entries@[i as int].0@, attrs.entries@[i as int].1@));
        if str_eq(attrs.entries[i].0.as_str(), key) {
            proof {
                lemma_named_before_grows(attrs.pairs(), key@, i + 1, n as int);
            }
            return true;
        }
        i += 1;
    }
    false
}

proof fn lemma_named_before_grows(pairs: Seq<(Seq<char>, Seq<char>)>, key: Seq<char>, n: int, m: int)
    requires
        0 <= n <= m <= pairs.len(),
        named_before(pairs, key, n),
    ensures
        named_before(pairs, key, m),
    decreases m - n,
{
    if n < m {
        lemma_named_before_grows(pairs, key, n, m - 1);
    }
}

fn props(attrs: &Attributes) -> (r: Vec<char>)
    ensures
        r@ == props_json(attrs.pairs()),
{
    let ghost pairs = attrs.pairs();
    let mut members: Vec<char> = Vec::new();
    let mut i: usize = 0;
    while i < attrs.entries.len()
        invariant
            i <= attrs.entries.len(),
            pairs == attrs.pairs(),
            members@ == props_members(pairs, i as int),
        decreases attrs.entries.len() - i,
    {
        let ghost before = members@;
        assert(pairs[i as int] == (attrs.entries@[i as int].0@, attrs.entries@[i as int].1@));
        let key = attrs.entries[i].0.as_str();
        if !str_eq(key, "component") && !str_eq(key, "loading") && !was_named_before(attrs, key, i) {
            append_str(&mut members, ",\"");
            append_str(&mut members, key);
            append_str(&mut members, "\":\"");
            let value = chars_of(value_or_default(attrs, key, ""));
            let a = replace_str(&value, "\\", "\\\\");
            let b = replace_str(&a, "\"", "\\\"");
            append(&mut members, &b);
            append_str(&mut members, "\"");
            assert(members@ =~= before + ",\""@ + key@ + "\":\""@ + json_escaped(
                value_or(pairs, key@, ""@),
            ) + "\""@);
        }
        i += 1;
    }
    let mut out = chars_of("{");
    if members.len() > 0 {
        let rest = slice(&members, 1, members.len());
        assert(rest@ =~= members@.skip(1));
        append(&mut out, &rest);
    }
    append_str(&mut out, "}");
    assert(out@ =~= props_json(pairs));
    out
}

fn react(attrs: &Attributes, content: Option<&str>) -> (r: Vec<char>)
    ensures
        r@ == react_markup(
            attrs.pairs(),
            match content {
                Some(c) => Some(c@),
                None => None,
            },
        ),
{
    let mut out = chars_of("<div class=\"react-island\" data-component=\"");
    push_attr_escaped(&mut out, value_or_default(attrs, "component", ""));
    append_str(&mut out, "\" data-props='");
    let json = props(attrs);
    escape_into(&mut out, &json, "&#39;");
    append_str(&mut out, "' data-loading=\"");
    push_attr_escaped(&mut out, value_or_default(attrs, "loading", "lazy"));
    append_str(&mut out, "\">");
    match content {
        Some(c) => {
            append_str(&mut out, "<div class=\"react-island__fallback\">");
            append_str(&mut out, c);
            append_str(&mut out, "</div>");
        },
        None => {},
    }
    append_str(&mut out, "<noscript>Interactive component requires JavaScript</noscript></div>");
    assert(out@ =~= react_markup(
        attrs.pairs(),
        match content {
            Some(c) => Some(c@),
            None => None,
        },
    ));
    out
}

/// Expands one shortcode.
pub fn run_handler(kind: ShortcodeKind, attrs: &Attributes, content: Option<&str>) -> (r: Result<
    Vec<char>,
    ShortcodeError,
>)
    ensures
        match r {
            Ok(markup) => handler_markup(
                kind,
                attrs.pairs(),
                match content {
                    Some(c) => Some(c@),
                    None => None,
                },
            ) == Ok::<Seq<char>, ShortcodeError>(markup@),
            Err(e) => handler_markup(
                kind,
                attrs.pairs(),
                match content {
                    Some(c) => Some(c@),
                    None => None,
                },
            ) == Err::<Seq<char>, ShortcodeError>(e),
        },
{
    match kind {
        ShortcodeKind::Figure => Ok(figure(attrs)),
        ShortcodeKind::Callout => Ok(callout(attrs, content)),
        ShortcodeKind::Youtube => {
            if chars_of(value_or_default(attrs, "id", "")).len() == 0 {
                Err(ShortcodeError::MissingYoutubeId)
            } else {
                Ok(youtube(attrs))
            }
        },
        ShortcodeKind::Code => Ok(code(attrs, content)),
        ShortcodeKind::React => {
            if attrs.get("component").is_none() {
                Err(ShortcodeError::MissingReactComponent)
            } else {
                Ok(react(attrs, content))
            }
        },
    }
}

// ---------------------------------------------------------------------------
// The registry
// ---------------------------------------------------------------------------

/// The handler registered under `name`: the one registered last.
pub open spec fn handler_of(handlers: Seq<(Seq<char>, ShortcodeKind)>, name: Seq<char>) -> Option<
    ShortcodeKind,
>
    decreases handlers.len(),
{
    if handlers.len() == 0 {
        None
    } else if handlers.last().0 == name {
        Some(handlers.last().1)
    } else {
        handler_of(handlers.drop_last(), name)
    }
}

/// The handlers that every registry starts with.
pub open spec fn builtin_handlers() -> Seq<(Seq<char>, ShortcodeKind)> {
    seq![
        ("figure"@, ShortcodeKind::Figure),
        ("callout"@, ShortcodeKind::Callout),
        ("youtube"@, ShortcodeKind::Youtube),
        ("code"@, ShortcodeKind::Code),
        ("react"@, ShortcodeKind::React),
    ]
}

/// The inline pass from index `pos` on: every shortcode tag with a
/// registered name that no `(` follows is replaced by its handler's markup;
/// everything else stays. The first handler that fails fails the pass.
pub open spec fn inline_from(
    s: Seq<char>,
    pos: int,
    handlers: Seq<(Seq<char>, ShortcodeKind)>,
) -> Result<Seq<char>, ShortcodeError>
    decreases s.len() - pos,
{
    if pos < 0 || pos >= s.len() {
        Ok(Seq::empty())
    } else {
        match next_tag(s, pos) {
            None => Ok(s.skip(pos)),
            Some(t) => if !(pos <= t.0 < t.1 <= t.2 < s.len()) {
                Ok(s.skip(pos))
            } else {
                let name = s.subrange(t.0 + 1, t.1);
                let followed = t.2 + 1 < s.len() && s[t.2 + 1] == '(';
                let own = match handler_of(handlers, name) {
                    Some(kind) => if followed {
                        Ok(s.subrange(t.0, t.2 + 1))
                    } else {
                        handler_markup(
                            kind,
                            shortcode_attributes(s.subrange(t.1, t.2)),
                            None,
                        )
                    },
                    None => Ok(s.subrange(t.0, t.2 + 1)),
                };
                match (own, inline_from(s, t.2 + 1, handlers)) {
                    (Ok(markup), Ok(rest)) => Ok(s.subrange(pos, t.0) + markup + rest),
                    (Err(e), _) => Err(e),
                    (_, Err(e)) => Err(e),
                }
            },
        }
    }
}

/// The first block shortcode at or after `from`: a tag with a registered
/// name whose end tag `[/name]` follows. The result is where the tag
/// starts, where its name ends, where it closes, and where its end tag
/// starts.
pub open spec fn next_block(
    s: Seq<char>,
    from: int,
    handlers: Seq<(Seq<char>, ShortcodeKind)>,
) -> Option<(int, int, int, int)>
    decreases s.len() - from,
{
    if from < 0 || from >= s.len() {
        None
    } else {
        match next_tag(s, from) {
            None => None,
            Some(t) => if !(from <= t.0 < t.1 <= t.2 < s.len()) {
                None
            } else {
                let name = s.subrange(t.0 + 1, t.1);
                match (handler_of(handlers, name), find_from(s, block_end(name), t.2 + 1)) {
                    (Some(_), Some(end)) => Some((t.0, t.1, t.2, end)),
                    _ => next_block(s, t.2 + 1, handlers),
                }
            },
        }
    }
}

/// The end tag of a block shortcode.
pub open spec fn block_end(name: Seq<char>) -> Seq<char> {
    "[/"@ + name + "]"@
}

/// One step of the block pass: the first block shortcode is replaced by its
/// handler's markup, given its content without the white space around it.
/// `None` where the text holds no block shortcode.
pub open spec fn block_step(s: Seq<char>, handlers: Seq<(Seq<char>, ShortcodeKind)>) -> Option<
    Result<Seq<char>, ShortcodeError>,
> {
    match next_block(s, 0, handlers) {
        None => None,
        Some(b) => {
            let name = s.subrange(b.0 + 1, b.1);
            match handler_of(handlers, name) {
                None => None,
                Some(kind) => Some(
                    match handler_markup(
                        kind,
                        shortcode_attributes(s.subrange(b.1, b.2)),
                        Some(trim(s.subrange(b.2 + 1, b.3))),
                    ) {
                        Ok(markup) => Ok(
                            s.take(b.0) + markup + s.skip(b.3 + block_end(name).len()),
                        ),
                        Err(e) => Err(e),
                    },
                ),
            }
        },
    }
}

/// The block pass: steps are taken until the text holds no block shortcode,
/// but at most `fuel` of them.
pub open spec fn blocks_expanded(
    s: Seq<char>,
    handlers: Seq<(Seq<char>, ShortcodeKind)>,
    fuel: nat,
) -> Result<Seq<char>, ShortcodeError>
    decreases fuel,
{
    if fuel == 0 {
        Ok(s)
    } else {
        match block_step(s, handlers) {
            None => Ok(s),
            Some(Ok(next)) => blocks_expanded(next, handlers, (fuel - 1) as nat),
            Some(Err(e)) => Err(e),
        }
    }
}

/// What `process` makes of a document: the block pass, with one step at
/// most for each character of the document, and then the inline pass.
pub open spec fn processed(s: Seq<char>, handlers: Seq<(Seq<char>, ShortcodeKind)>) -> Result<
    Seq<char>,
    ShortcodeError,
> {
    match blocks_expanded(s, handlers, s.len()) {
        Ok(expanded) => inline_from(expanded, 0, handlers),
        Err(e) => Err(e),
    }
}

/// The handlers by name.
pub struct ShortcodeRegistry {
    pub handlers: Vec<(String, ShortcodeKind)>,
}

impl View for ShortcodeRegistry {
    type V = Seq<(Seq<char>, ShortcodeKind)>;

    open spec fn view(&self) -> Seq<(Seq<char>, ShortcodeKind)> {
        self.handlers@.map_values(|h: (String, ShortcodeKind)| (h.0@, h.1))
    }
}

impl ShortcodeRegistry {
    /// A registry with the built-in handlers.
    pub fn new() -> (r: Self)
        ensures
            r@ == builtin_handlers(),
    {
        let mut registry = ShortcodeRegistry { handlers: Vec::new() };
        registry.register_builtin();
        assert(registry@ =~= builtin_handlers());
        registry
    }

    fn register_builtin(&mut self)
        ensures
            final(self)@ == old(self)@ + builtin_handlers(),
    {
        self.register("figure", ShortcodeKind::Figure);
        self.register("callout", ShortcodeKind::Callout);
        self.register("youtube", ShortcodeKind::Youtube);
        self.register("code", ShortcodeKind::Code);
        self.register("react", ShortcodeKind::React);
        assert(self@ =~= old(self)@ + builtin_handlers());
    }

    /// Registers a handler under `name`, in the place of the one that was
    /// registered under it.
    pub fn register(&mut self, name: &str, handler: ShortcodeKind)
        ensures
            final(self)@ == old(self)@.push((name@, handler)),
    {
        self.handlers.push((owned(name), handler));
        assert(self@ =~= old(self)@.push((name@, handler)));
    }

    /// The handler registered under `name`.
    pub fn handler(&self, name: &Vec<char>) -> (r: Option<ShortcodeKind>)
        ensures
            r == handler_of(self@, name@),
    {
        let mut n: usize = self.handlers.len();
        assert(self@.take(n as int) =~= self@);
        while n > 0
            invariant
                n <= self.handlers.len(),
                handler_of(self@, name@) == handler_of(self@.take(n as int), name@),
            decreases n,
        {
            assert(self@.take(n as int).drop_last() =~= self@.take(n - 1));
            assert(self@.take(n as int).last() == (
                self.handlers@[n - 1].0@,
                self.handlers@[n - 1].1,
            ));
            if crate::text::is_str(name, self.handlers[n - 1].0.as_str()) {
                return Some(self.handlers[n - 1].1);
            }
            n -= 1;
        }
        None
    }

    /// Expands every shortcode of a document.
    pub fn process(&self, content: &str) -> (r: Result<String, ShortcodeError>)
        ensures
            match r {
                Ok(text) => processed(content@, self@) == Ok::<Seq<char>, ShortcodeError>(text@),
                Err(e) => processed(content@, self@) == Err::<Seq<char>, ShortcodeError>(e),
            },
    {
        let c = chars_of(content);
        match self.process_block_shortcodes(c) {
            Err(e) => Err(e),
            Ok(expanded) => match self.process_inline_shortcodes(&expanded) {
                Ok(text) => Ok(string_of(&text)),
                Err(e) => Err(e),
            },
        }
    }

    fn find_block(&self, s: &Vec<char>) -> (r: Option<(usize, usize, usize, usize)>)
        ensures
            match r {
                Some(b) => next_block(s@, 0, self@) == Some(
                    (b.0 as int, b.1 as int, b.2 as int, b.3 as int),
                ) && b.0 < b.1 <= b.2 < b.3 && b.3 + block_end(
                    s@.subrange(b.0 + 1, b.1 as int),
                ).len() <= s.len(),
                None => next_block(s@, 0, self@) is None,
            },
    {
        let mut from: usize = 0;
        while from < s.len()
            invariant
                next_block(s@, 0, self@) == next_block(s@, from as int, self@),
            decreases s.len() - from,
        {
            match find_tag(s, from) {
                None => {
                    return None;
                },
                Some((start, name_end, close)) => {
                    let name = slice(s, start + 1, name_end);
                    let mut end_tag = chars_of("[/");
                    append(&mut end_tag, &name);
                    append_str(&mut end_tag, "]");
                    let found = match self.handler(&name) {
                        Some(_) => find_in(s, &end_tag, close + 1),
                        None => None,
                    };
                    match found {
                        Some(end) => {
                            return Some((start, name_end, close, end));
                        },
                        None => {
                            from = close + 1;
                        },
                    }
                },
            }
        }
        None
    }

    fn step_blocks(&self, s: &Vec<char>) -> (r: Option<Result<Vec<char>, ShortcodeError>>)
        ensures
            match r {
                None => block_step(s@, self@) is None,
                Some(Ok(next)) => block_step(s@, self@) == Some(
                    Ok::<Seq<char>, ShortcodeError>(next@),
                ),
                Some(Err(e)) => block_step(s@, self@) == Some(Err::<Seq<char>, ShortcodeError>(e)),
            },
    {
        match self.find_block(s) {
            None => None,
            Some((start, name_end, close, end)) => {
                let name = slice(s, start + 1, name_end);
                match self.handler(&name) {
                    None => None,
                    Some(kind) => {
                        let attrs = parse_attributes(
                            string_of(&slice(s, name_end, close)).as_str(),
                        );
                        let inner = string_of(&trim_chars(&slice(s, close + 1, end)));
                        match run_handler(kind, &attrs, Some(inner.as_str())) {
                            Err(e) => Some(Err(e)),
                            Ok(markup) => {
                                let mut out = slice(s, 0, start);
                                append(&mut out, &markup);
                                let after: usize = end + (chars_of("[/").len() + name.len()
                                    + chars_of("]").len());
                                let rest = slice(s, after, s.len());
                                append(&mut out, &rest);
                                assert(out@ =~= s@.take(start as int) + markup@ + s@.skip(
                                    end + block_end(name@).len(),
                                ));
                                Some(Ok(out))
                            },
                        }
                    },
                }
            },
        }
    }

    fn process_block_shortcodes(&self, content: Vec<char>) -> (r: Result<Vec<char>, ShortcodeError>)
        ensures
            match r {
                Ok(text) => blocks_expanded(content@, self@, content@.len()) == Ok::<
                    Seq<char>,
                    ShortcodeError,
                >(text@),
                Err(e) => blocks_expanded(content@, self@, content@.len()) == Err::<
                    Seq<char>,
                    ShortcodeError,
                >(e),
            },
    {
        let mut fuel: usize = content.len();
        let ghost whole = content@;
        let mut current = content;
        while fuel > 0
            invariant
                whole == content@,
                blocks_expanded(whole, self@, whole.len()) == blocks_expanded(
                    current@,
                    self@,
                    fuel as nat,
                ),
            decreases fuel,
        {
            match self.step_blocks(&current) {
                None => {
                    assert(blocks_expanded(current@, self@, fuel as nat) == Ok::<
                        Seq<char>,
                        ShortcodeError,
                    >(current@));
                    return Ok(current);
                },
                Some(Err(e)) => {
                    assert(blocks_expanded(current@, self@, fuel as nat) == Err::<
                        Seq<char>,
                        ShortcodeError,
                    >(e));
                    return Err(e);
                },
                Some(Ok(next)) => {
                    current = next;
                    fuel -= 1;
                },
            }
        }
        Ok(current)
    }

    fn process_inline_shortcodes(&self, s: &Vec<char>) -> (r: Result<Vec<char>, ShortcodeError>)
        ensures
            match r {
                Ok(text) => inline_from(s@, 0, self@) == Ok::<Seq<char>, ShortcodeError>(text@),
                Err(e) => inline_from(s@, 0, self@) == Err::<Seq<char>, ShortcodeError>(e),
            },
    {
        let mut out: Vec<char> = Vec::new();
        let mut pos: usize = 0;
        while pos < s.len()
            invariant
                pos <= s.len(),
                match inline_from(s@, pos as int, self@) {
                    Ok(rest) => inline_from(s@, 0, self@) == Ok::<Seq<char>, ShortcodeError>(
                        out@ + rest,
                    ),
                    Err(e) => inline_from(s@, 0, self@) == Err::<Seq<char>, ShortcodeError>(e),
                },
            decreases s.len() - pos,
        {
            let ghost before = out@;
            match find_tag(s, pos) {
                None => {
                    let rest = slice(s, pos, s.len());
                    assert(rest@ =~= s@.skip(pos as int));
                    append(&mut out, &rest);
                    return Ok(out);
                },
                Some((start, name_end, close)) => {
                    let name = slice(s, start + 1, name_end);
                    let followed = close + 1 < s.len() && s[close + 1] == '(';
                    let own: Vec<char> = match self.handler(&name) {
                        Some(kind) => {
                            if followed {
                                slice(s, start, close + 1)
                            } else {
                                let attrs = parse_attributes(
                                    string_of(&slice(s, name_end, close)).as_str(),
                                );
                                match run_handler(kind, &attrs, None) {
                                    Ok(markup) => markup,
                                    Err(e) => {
                                        return Err(e);
                                    },
                                }
                            }
                        },
                        None => slice(s, start, close + 1),
                    };
                    let gap = slice(s, pos, start);
                    append(&mut out, &gap);
                    append(&mut out, &own);
                    pos = close + 1;
                    proof {
                        match inline_from(s@, pos as int, self@) {
                            Ok(rest) => {
                                assert(before + gap@ + own@ + rest =~= before + (gap@ + own@
                                    + rest));
                            },
                            Err(_) => {},
                        }
                    }
                },
            }
        }
        assert(out@ + Seq::<char>::empty() =~= out@);
        Ok(out)
    }
}

} // verus!
