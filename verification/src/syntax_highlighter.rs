//! Syntax highlighting of one code block.

use vstd::prelude::*;

verus! {

/// The markup that the highlighter produces for `code` in the language that
/// `lang` names or `code` suggests; `None` where it produces none.
pub uninterp spec fn highlighted_markup(code: Seq<char>, lang: Seq<char>) -> Option<Seq<char>>;

/// Why a code block was not highlighted.
#[derive(Debug)]
pub enum HighlightError {
    /// The highlighter produced no markup.
    NoMarkup,
    /// The grammar of the language could not be loaded.
    UnsupportedLanguage,
}

/// Formats `code` as a `<pre class="athl hljs">` block with one `<span>` per
/// token. The language is guessed by `autumnus::languages::Language::guess`
/// from `lang` and `code`, the markup comes from
/// `autumnus::formatter::HtmlLinked`. The markup depends on the two
/// arguments alone and is named, not stated; `None` stands for a formatter
/// that failed to write or wrote bytes that are no UTF-8.
#[verifier::external_body]
fn format_linked(code: &str, lang: &str) -> (r: Option<String>)
    ensures
        match r {
            Some(h) => highlighted_markup(code@, lang@) == Some(h@),
            None => highlighted_markup(code@, lang@) is None,
        },
{
    let language = autumnus::languages::Language::guess(lang, code);
    let formatter = autumnus::formatter::HtmlLinked::new(code, language, Some("hljs"));
    let mut output: Vec<u8> = Vec::new();
    match autumnus::formatter::Formatter::format(&formatter, &mut output) {
        Ok(()) => String::from_utf8(output).ok(),
        Err(_) => None,
    }
}

pub struct SyntaxHighlighter {}

impl SyntaxHighlighter {
    /// A highlighter.
    pub fn new() -> (r: Result<Self, HighlightError>)
        ensures
            r is Ok,
    {
        Ok(SyntaxHighlighter {  })
    }

    /// Highlights `code`, written in `lang`.
    pub fn highlight(&self, code: &str, lang: &str) -> (r: Result<String, HighlightError>)
        ensures
            match r {
                Ok(h) => highlighted_markup(code@, lang@) == Some(h@),
                Err(_) => highlighted_markup(code@, lang@) is None,
            },
    {
        Self::markup_or_error(format_linked(code, lang))
    }

    /// The result of a highlighting run: the markup, or the error that
    /// stands for its absence.
    pub fn markup_or_error(markup: Option<String>) -> (r: Result<String, HighlightError>)
        ensures
            match markup {
                Some(h) => r == Ok::<String, HighlightError>(h),
                None => r == Err::<String, HighlightError>(HighlightError::NoMarkup),
            },
    {
        match markup {
            Some(h) => Ok(h),
            None => Err(HighlightError::NoMarkup),
        }
    }
}

} // verus!
