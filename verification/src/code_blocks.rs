//! The highlighting pass: every `<pre>` block that holds a `<code>` element
//! with a language is replaced by highlighted markup.

use crate::syntax_highlighter::{highlighted_markup, SyntaxHighlighter};
use crate::text::{
    append, append_str, chars_of, find, find_char, find_str, has_prefix, index_from, index_of,
    matches_at, replace_str, replaced, rfind, rfind_str, slice, starts_with_str, string_of, trim,
    trim_chars,
};
use vstd::prelude::*;

verus! {

/// `html` with the five entities that the emitter writes turned back into
/// their characters, one entity after the other over the whole text.
pub open spec fn decoded_entities(html: Seq<char>) -> Seq<char> {
    replaced(
        replaced(
            replaced(replaced(replaced(html, "&lt;"@, "<"@), "&gt;"@, ">"@), "&amp;"@, "&"@),
            "&quot;"@,
            "\""@,
        ),
        "&#39;"@,
        "'"@,
    )
}

/// Turns the entities of escaped text back into their characters.
pub fn decode_entities_chars(html: &Vec<char>) -> (r: Vec<char>)
    ensures
        r@ == decoded_entities(html@),
{
    let a = replace_str(html, "&lt;", "<");
    let b = replace_str(&a, "&gt;", ">");
    let c = replace_str(&b, "&amp;", "&");
    let d = replace_str(&c, "&quot;", "\"");
    replace_str(&d, "&#39;", "'")
}

/// Whether a tag opens a `<pre>` element.
pub open spec fn is_pre_open(tag: Seq<char>) -> bool {
    has_prefix(tag, "<pre>"@) || has_prefix(tag, "<pre "@)
}

/// The index at which the `</pre>` that closes a block stands, scanning from
/// `j`. Every `<` opens a tag that runs up to the next `>`, and only a tag
/// that is exactly `</pre>` closes the block.
pub open spec fn pre_close_from(s: Seq<char>, j: int) -> Option<int>
    decreases s.len() - j,
{
    if j < 0 || j >= s.len() {
        None
    } else if s[j] != '<' {
        pre_close_from(s, j + 1)
    } else {
        match index_from(s, '>', j + 1) {
            None => None,
            Some(g) => if g <= j || g >= s.len() {
                None
            } else if s.subrange(j, g + 1) == "</pre>"@ {
                Some(j)
            } else {
                pre_close_from(s, g + 1)
            },
        }
    }
}

/// The language that the `<code>` element of a block names in its class.
pub open spec fn code_language(c: Seq<char>) -> Option<Seq<char>> {
    match find(c, "class=\"language-"@) {
        None => None,
        Some(at) => {
            let from = at + "class=\"language-"@.len();
            match index_from(c, '"', from) {
                None => None,
                Some(to) => Some(c.subrange(from, to)),
            }
        },
    }
}

/// The language and the decoded text of the `<code>` element that a `<pre>`
/// block holds; `None` where the block does not start with `<code`, or
/// where no text lies between the element's start tag and its last
/// `</code>`.
pub open spec fn code_block(content: Seq<char>) -> Option<(Option<Seq<char>>, Seq<char>)> {
    let c = trim(content);
    if !has_prefix(c, "<code"@) {
        None
    } else {
        match (index_of(c, '>'), rfind(c, "</code>"@)) {
            (Some(gt), Some(end)) => if gt + 1 <= end {
                Some((code_language(c), decoded_entities(c.subrange(gt + 1, end))))
            } else {
                None
            },
            _ => None,
        }
    }
}

/// The markup that replaces a `<pre>` block with the given content; `None`
/// where the block stays as it is.
pub open spec fn highlighted_pre(content: Seq<char>) -> Option<Seq<char>> {
    match code_block(content) {
        Some((Some(lang), code)) => highlighted_markup(code, lang),
        _ => None,
    }
}

/// The highlighting pass on `html` from index `pos` on.
///
/// Text and tags other than `<pre>` are kept. A `<pre>` block that can be
/// highlighted is replaced, start and end tag included; one that cannot
/// stays as it is, and so does a `<pre>` block that is never closed, with
/// all that follows it.
pub open spec fn highlighted_from(html: Seq<char>, pos: int) -> Seq<char>
    decreases html.len() - pos,
{
    if pos < 0 || pos >= html.len() {
        Seq::empty()
    } else if html[pos] != '<' {
        seq![html[pos]] + highlighted_from(html, pos + 1)
    } else {
        match index_from(html, '>', pos + 1) {
            None => html.skip(pos),
            Some(close) => if close <= pos || close >= html.len() {
                html.skip(pos)
            } else {
                let tag = html.subrange(pos, close + 1);
                if !is_pre_open(tag) {
                    tag + highlighted_from(html, close + 1)
                } else {
                    match pre_close_from(html, close + 1) {
                        None => html.skip(pos),
                        Some(end) => if end <= close || end + "</pre>"@.len() > html.len() {
                            html.skip(pos)
                        } else {
                            let content = html.subrange(close + 1, end);
                            pre_block(tag, content, highlighted_pre(content)) + highlighted_from(
                                html,
                                end + "</pre>"@.len(),
                            )
                        },
                    }
                }
            },
        }
    }
}

/// What stands for a `<pre>` block in the output, given the highlighter's
/// markup for it.
pub open spec fn pre_block(tag: Seq<char>, content: Seq<char>, markup: Option<Seq<char>>) -> Seq<
    char,
> {
    match markup {
        Some(h) => h,
        None => tag + content + "</pre>"@,
    }
}

/// `html` after the highlighting pass.
pub open spec fn highlighted(html: Seq<char>) -> Seq<char> {
    highlighted_from(html, 0)
}

/// The language and text of a code block, as the highlighter gets them.
pub struct CodeBlock {
    pub lang: Option<String>,
    pub code: String,
}

impl CodeBlock {
    /// The language and the text.
    pub open spec fn parts(&self) -> (Option<Seq<char>>, Seq<char>) {
        (
            match self.lang {
                Some(l) => Some(l@),
                None => None,
            },
            self.code@,
        )
    }
}

fn language_of(c: &Vec<char>) -> (r: Option<String>)
    ensures
        match r {
            Some(l) => code_language(c@) == Some(l@),
            None => code_language(c@) is None,
        },
{
    match find_str(c, "class=\"language-", 0) {
        None => None,
        Some(at) => {
            let from: usize = at + chars_of("class=\"language-").len();
            match find_char(c, '"', from) {
                None => None,
                Some(to) => Some(string_of(&slice(c, from, to))),
            }
        },
    }
}

/// Reads the language and the text out of a `<pre>` block's content.
pub fn extract_code_block(content: &Vec<char>) -> (r: Option<CodeBlock>)
    ensures
        match r {
            Some(b) => code_block(content@) == Some(b.parts()),
            None => code_block(content@) is None,
        },
{
    let c = trim_chars(content);
    if !starts_with_str(&c, "<code") {
        return None;
    }
    assert(c@.skip(0) =~= c@);
    let lang = language_of(&c);
    let gt = match find_char(&c, '>', 0) {
        None => {
            return None;
        },
        Some(gt) => gt,
    };
    let end = match rfind_str(&c, "</code>") {
        None => {
            return None;
        },
        Some(end) => end,
    };
    if gt + 1 > end {
        return None;
    }
    let code = decode_entities_chars(&slice(&c, gt + 1, end));
    Some(CodeBlock { lang, code: string_of(&code) })
}

/// The index of the `</pre>` that closes the block scanned from `from`.
pub fn find_pre_close(s: &Vec<char>, from: usize) -> (r: Option<usize>)
    ensures
        match r {
            Some(j) => pre_close_from(s@, from as int) == Some(j as int) && from <= j && j
                + "</pre>"@.len() <= s.len(),
            None => pre_close_from(s@, from as int) is None,
        },
{
    let close = chars_of("</pre>");
    let mut j: usize = from;
    while j < s.len()
        invariant
            from <= j,
            close@ == "</pre>"@,
            pre_close_from(s@, from as int) == pre_close_from(s@, j as int),
        decreases s.len() - j,
    {
        if s[j] != '<' {
            j += 1;
        } else {
            match find_char(s, '>', j + 1) {
                None => {
                    return None;
                },
                Some(g) => {
                    if g + 1 - j == close.len() && matches_at(s, j, &close) {
                        return Some(j);
                    }
                    assert(s@.subrange(j as int, g + 1) != "</pre>"@) by {
                        if s@.subrange(j as int, g + 1) == "</pre>"@ {
                            assert(s@.subrange(j as int, g + 1).len() == close@.len());
                        }
                    }
                    j = g + 1;
                },
            }
        }
    }
    None
}

/// The highlighting pass, given the highlighter.
pub fn highlight_code_blocks_chars(highlighter: &SyntaxHighlighter, html: &Vec<char>) -> (r: Vec<
    char,
>)
    ensures
        r@ == highlighted(html@),
{
    let mut out: Vec<char> = Vec::new();
    let mut pos: usize = 0;
    while pos < html.len()
        invariant
            pos <= html.len(),
            out@ + highlighted_from(html@, pos as int) == highlighted(html@),
        decreases html.len() - pos,
    {
        let ghost before = out@;
        if html[pos] != '<' {
            out.push(html[pos]);
            pos += 1;
            assert(before.push(html@[pos - 1]) + highlighted_from(html@, pos as int) =~= before
                + (seq![html@[pos - 1]] + highlighted_from(html@, pos as int)));
        } else {
            match find_char(html, '>', pos + 1) {
                None => {
                    let rest = slice(html, pos, html.len());
                    assert(rest@ =~= html@.skip(pos as int));
                    append(&mut out, &rest);
                    return out;
                },
                Some(close) => {
                    let tag = slice(html, pos, close + 1);
                    let is_pre = starts_with_str(&tag, "<pre>") || starts_with_str(&tag, "<pre ");
                    if !is_pre {
                        append(&mut out, &tag);
                        pos = close + 1;
                        assert(before + tag@ + highlighted_from(html@, pos as int) =~= before + (
                        tag@ + highlighted_from(html@, pos as int)));
                    } else {
                        match find_pre_close(html, close + 1) {
                            None => {
                                let rest = slice(html, pos, html.len());
                                assert(rest@ =~= html@.skip(pos as int));
                                append(&mut out, &rest);
                                return out;
                            },
                            Some(end) => {
                                let content = slice(html, close + 1, end);
                                let markup = process_pre_content_chars(highlighter, &content);
                                let block = splice_pre_block(&tag, &content, markup);
                                append(&mut out, &block);
                                pos = end + chars_of("</pre>").len();
                                assert(before + block@ + highlighted_from(html@, pos as int)
                                    =~= before + (block@ + highlighted_from(html@, pos as int)));
                            },
                        }
                    }
                },
            }
        }
    }
    assert(out@ + Seq::<char>::empty() =~= out@);
    out
}

/// What stands for a `<pre>` block in the output, given the highlighter's
/// markup for it.
pub fn splice_pre_block(tag: &Vec<char>, content: &Vec<char>, markup: Option<Vec<char>>) -> (r:
    Vec<char>)
    ensures
        r@ == pre_block(
            tag@,
            content@,
            match markup {
                Some(h) => Some(h@),
                None => None,
            },
        ),
{
    match markup {
        Some(h) => h,
        None => {
            let mut r: Vec<char> = Vec::new();
            append(&mut r, tag);
            append(&mut r, content);
            append_str(&mut r, "</pre>");
            assert(r@ =~= tag@ + content@ + "</pre>"@);
            r
        },
    }
}

/// The markup that replaces a `<pre>` block with the given content.
pub fn process_pre_content_chars(highlighter: &SyntaxHighlighter, content: &Vec<char>) -> (r:
    Option<Vec<char>>)
    ensures
        match r {
            Some(h) => highlighted_pre(content@) == Some(h@),
            None => highlighted_pre(content@) is None,
        },
{
    match extract_code_block(content) {
        None => None,
        Some(block) => match block.lang {
            None => None,
            Some(lang) => match highlighter.highlight(block.code.as_str(), lang.as_str()) {
                Ok(h) => Some(chars_of(h.as_str())),
                Err(_) => None,
            },
        },
    }
}

} // verus!
