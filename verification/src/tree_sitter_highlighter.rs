//! A highlighter that drives Tree-sitter grammars itself and writes one
//! `<span>` for each highlighted token.

use crate::syntax_highlighter::HighlightError;
use crate::text::{
    append_str, chars_of, escape_into, escaped, owned, str_eq, str_views, string_of,
};
use tree_sitter_highlight::HighlightEvent;
use vstd::prelude::*;

verus! {

#[verifier::external_type_specification]
#[verifier::external_body]
pub struct ExHighlighter(tree_sitter_highlight::Highlighter);

#[verifier::external_type_specification]
#[verifier::external_body]
pub struct ExHighlightConfiguration(tree_sitter_highlight::HighlightConfiguration);

#[verifier::external_type_specification]
#[verifier::external_body]
pub struct ExLanguage(tree_sitter::Language);

/// The grammars that the highlighter knows.
#[derive(Debug, Clone, Copy, PartialEq, Eq, Structural)]
pub enum Grammar {
    Rust,
    JavaScript,
    TypeScript,
    Tsx,
    Python,
    Go,
    C,
    Cpp,
    Java,
    Json,
    Bash,
    Html,
    Css,
}

/// One step of a highlighted text: a piece of the source, the start of a
/// highlight with the index of its name, or the end of a highlight.
#[derive(Debug)]
pub enum TokenEvent {
    Source(String),
    Start(usize),
    End,
}

/// What a step holds, as plain values.
pub enum TokenStep {
    Source(Seq<char>),
    Start(usize),
    End,
}

impl View for TokenEvent {
    type V = TokenStep;

    open spec fn view(&self) -> TokenStep {
        match *self {
            TokenEvent::Source(text) => TokenStep::Source(text@),
            TokenEvent::Start(i) => TokenStep::Start(i),
            TokenEvent::End => TokenStep::End,
        }
    }
}

/// The views of a list of steps.
pub open spec fn steps_of(events: Seq<TokenEvent>) -> Seq<TokenStep> {
    events.map_values(|e: TokenEvent| e@)
}

/// What a grammar crate gives for its grammar: the language, the
/// highlights query, and the locals query where the crate has one.
pub struct GrammarSource {
    pub language: tree_sitter::Language,
    pub highlights: &'static str,
    pub locals: &'static str,
}

/// The language that the grammar's crate gives (its constant `LANGUAGE`;
/// `LANGUAGE_TYPESCRIPT` and `LANGUAGE_TSX` of `tree_sitter_typescript`).
pub uninterp spec fn source_language(grammar: Grammar) -> tree_sitter::Language;

/// The highlights query that the grammar's crate gives (its constant
/// `HIGHLIGHTS_QUERY` or `HIGHLIGHT_QUERY`).
pub uninterp spec fn source_highlights(grammar: Grammar) -> Seq<char>;

/// The locals query that the crates of JavaScript and TypeScript give
/// (their constant `LOCALS_QUERY`).
pub uninterp spec fn source_locals(grammar: Grammar) -> Seq<char>;

/// The configuration that `HighlightConfiguration::new` builds, without
/// injections, from a language, a name and two queries, set up by
/// `HighlightConfiguration::configure` for the given highlight names;
/// `None` where a query does not compile.
pub uninterp spec fn built_configuration(
    language: tree_sitter::Language,
    name: Seq<char>,
    highlights: Seq<char>,
    locals: Seq<char>,
    names: Seq<Seq<char>>,
) -> Option<tree_sitter_highlight::HighlightConfiguration>;

/// The steps that `Highlighter::highlight` makes of a text with a
/// configuration, without injected languages, each piece of the source
/// as its text; `None` where the engine reports an error or gives a piece
/// that does not lie in the text.
pub uninterp spec fn highlight_steps(
    config: tree_sitter_highlight::HighlightConfiguration,
    code: Seq<char>,
) -> Option<Seq<TokenStep>>;

/// A Tree-sitter highlighting engine (`Highlighter::new`).
#[verifier::external_body]
fn new_engine() -> (r: tree_sitter_highlight::Highlighter) {
    tree_sitter_highlight::Highlighter::new()
}

/// The language and the highlights query of `tree_sitter_rust`.
#[verifier::external_body]
fn rust_source() -> (r: (tree_sitter::Language, &'static str))
    ensures
        r.0 == source_language(Grammar::Rust),
        r.1@ == source_highlights(Grammar::Rust),
{
    (tree_sitter_rust::LANGUAGE.into(), tree_sitter_rust::HIGHLIGHTS_QUERY)
}

/// The language and the highlights query of `tree_sitter_go`.
#[verifier::external_body]
fn go_source() -> (r: (tree_sitter::Language, &'static str))
    ensures
        r.0 == source_language(Grammar::Go),
        r.1@ == source_highlights(Grammar::Go),
{
    (tree_sitter_go::LANGUAGE.into(), tree_sitter_go::HIGHLIGHTS_QUERY)
}

/// The language and the highlights query of `tree_sitter_c`.
#[verifier::external_body]
fn c_source() -> (r: (tree_sitter::Language, &'static str))
    ensures
        r.0 == source_language(Grammar::C),
        r.1@ == source_highlights(Grammar::C),
{
    (tree_sitter_c::LANGUAGE.into(), tree_sitter_c::HIGHLIGHT_QUERY)
}

/// The language and the highlights query of `tree_sitter_cpp`.
#[verifier::external_body]
fn cpp_source() -> (r: (tree_sitter::Language, &'static str))
    ensures
        r.0 == source_language(Grammar::Cpp),
        r.1@ == source_highlights(Grammar::Cpp),
{
    (tree_sitter_cpp::LANGUAGE.into(), tree_sitter_cpp::HIGHLIGHT_QUERY)
}

/// The language and the highlights query of `tree_sitter_java`.
#[verifier::external_body]
fn java_source() -> (r: (tree_sitter::Language, &'static str))
    ensures
        r.0 == source_language(Grammar::Java),
        r.1@ == source_highlights(Grammar::Java),
{
    (tree_sitter_java::LANGUAGE.into(), tree_sitter_java::HIGHLIGHTS_QUERY)
}

/// The language and the highlights query of `tree_sitter_python`.
#[verifier::external_body]
fn python_source() -> (r: (tree_sitter::Language, &'static str))
    ensures
        r.0 == source_language(Grammar::Python),
        r.1@ == source_highlights(Grammar::Python),
{
    (tree_sitter_python::LANGUAGE.into(), tree_sitter_python::HIGHLIGHTS_QUERY)
}

/// The language and the highlights query of `tree_sitter_bash`.
#[verifier::external_body]
fn bash_source() -> (r: (tree_sitter::Language, &'static str))
    ensures
        r.0 == source_language(Grammar::Bash),
        r.1@ == source_highlights(Grammar::Bash),
{
    (tree_sitter_bash::LANGUAGE.into(), tree_sitter_bash::HIGHLIGHT_QUERY)
}

/// The language and the highlights query of `tree_sitter_json`.
#[verifier::external_body]
fn json_source() -> (r: (tree_sitter::Language, &'static str))
    ensures
        r.0 == source_language(Grammar::Json),
        r.1@ == source_highlights(Grammar::Json),
{
    (tree_sitter_json::LANGUAGE.into(), tree_sitter_json::HIGHLIGHTS_QUERY)
}

/// The language and the highlights query of `tree_sitter_html`.
#[verifier::external_body]
fn html_source() -> (r: (tree_sitter::Language, &'static str))
    ensures
        r.0 == source_language(Grammar::Html),
        r.1@ == source_highlights(Grammar::Html),
{
    (tree_sitter_html::LANGUAGE.into(), tree_sitter_html::HIGHLIGHTS_QUERY)
}

/// The language and the highlights query of `tree_sitter_css`.
#[verifier::external_body]
fn css_source() -> (r: (tree_sitter::Language, &'static str))
    ensures
        r.0 == source_language(Grammar::Css),
        r.1@ == source_highlights(Grammar::Css),
{
    (tree_sitter_css::LANGUAGE.into(), tree_sitter_css::HIGHLIGHTS_QUERY)
}

/// The language, the highlights query and the locals query of
/// `tree_sitter_javascript`.
#[verifier::external_body]
fn javascript_source() -> (r: (tree_sitter::Language, &'static str, &'static str))
    ensures
        r.0 == source_language(Grammar::JavaScript),
        r.1@ == source_highlights(Grammar::JavaScript),
        r.2@ == source_locals(Grammar::JavaScript),
{
    (
        tree_sitter_javascript::LANGUAGE.into(),
        tree_sitter_javascript::HIGHLIGHT_QUERY,
        tree_sitter_javascript::LOCALS_QUERY,
    )
}

/// The TypeScript language, the highlights query and the locals query of
/// `tree_sitter_typescript`.
#[verifier::external_body]
fn typescript_source() -> (r: (tree_sitter::Language, &'static str, &'static str))
    ensures
        r.0 == source_language(Grammar::TypeScript),
        r.1@ == source_highlights(Grammar::TypeScript),
        r.2@ == source_locals(Grammar::TypeScript),
{
    (
        tree_sitter_typescript::LANGUAGE_TYPESCRIPT.into(),
        tree_sitter_typescript::HIGHLIGHTS_QUERY,
        tree_sitter_typescript::LOCALS_QUERY,
    )
}

/// The TSX language, the highlights query and the locals query of
/// `tree_sitter_typescript`.
#[verifier::external_body]
fn tsx_source() -> (r: (tree_sitter::Language, &'static str, &'static str))
    ensures
        r.0 == source_language(Grammar::Tsx),
        r.1@ == source_highlights(Grammar::Tsx),
        r.2@ == source_locals(Grammar::Tsx),
{
    (
        tree_sitter_typescript::LANGUAGE_TSX.into(),
        tree_sitter_typescript::HIGHLIGHTS_QUERY,
        tree_sitter_typescript::LOCALS_QUERY,
    )
}

/// A highlighting configuration for a language (`HighlightConfiguration::new`
/// without injections), set up to report the given highlight names by their
/// index (`HighlightConfiguration::configure`). `None` where a query does
/// not compile. The configuration depends on the arguments alone and is
/// named, not stated.
#[verifier::external_body]
fn build_configuration(
    language: tree_sitter::Language,
    name: &str,
    highlights: &str,
    locals: &str,
    names: &Vec<String>,
) -> (r: Option<tree_sitter_highlight::HighlightConfiguration>)
    ensures
        r == built_configuration(language, name@, highlights@, locals@, str_views(names@)),
{
    let mut config = tree_sitter_highlight::HighlightConfiguration::new(
        language,
        name,
        highlights,
        "",
        locals,
    ).ok()?;
    config.configure(names);
    Some(config)
}

/// The steps of `code` highlighted with a configuration
/// (`Highlighter::highlight`, without injected languages), each piece of the
/// source as its text. `None` where the engine reports an error or a piece
/// does not lie in the source. The steps depend on the configuration and
/// the text alone and are named, not stated.
#[verifier::external_body]
fn token_events(
    engine: &mut tree_sitter_highlight::Highlighter,
    config: &tree_sitter_highlight::HighlightConfiguration,
    code: &str,
) -> (r: Option<Vec<TokenEvent>>)
    ensures
        match r {
            Some(events) => highlight_steps(*config, code@) == Some(steps_of(events@)),
            None => highlight_steps(*config, code@) is None,
        },
{
    let events = engine.highlight(config, code.as_bytes(), None, |_| None).ok()?;
    events.map(
        |event| match event {
            Ok(HighlightEvent::Source { start, end }) => code.get(start..end).map(|t| TokenEvent::Source(t.to_string())),
            Ok(HighlightEvent::HighlightStart(h)) => Some(TokenEvent::Start(h.0)),
            Ok(HighlightEvent::HighlightEnd) => Some(TokenEvent::End),
            Err(_) => None,
        },
    ).collect()
}

/// The locals query that a grammar is loaded with: that of its crate for
/// JavaScript, TypeScript and TSX, none for the others.
pub open spec fn locals_of(grammar: Grammar) -> Seq<char> {
    match grammar {
        Grammar::JavaScript => source_locals(grammar),
        Grammar::TypeScript => source_locals(grammar),
        Grammar::Tsx => source_locals(grammar),
        _ => Seq::empty(),
    }
}

fn without_locals(source: (tree_sitter::Language, &'static str)) -> (r: GrammarSource)
    ensures
        r.language == source.0,
        r.highlights == source.1,
        r.locals@ == Seq::<char>::empty(),
{
    let locals: &'static str = "";
    proof {
        reveal_strlit("");
        assert(locals@ =~= Seq::<char>::empty());
    }
    GrammarSource { language: source.0, highlights: source.1, locals }
}

fn with_locals(source: (tree_sitter::Language, &'static str, &'static str)) -> (r: GrammarSource)
    ensures
        r.language == source.0,
        r.highlights == source.1,
        r.locals == source.2,
{
    GrammarSource { language: source.0, highlights: source.1, locals: source.2 }
}

/// What a grammar is loaded from: the language and the highlights query
/// of its crate, and the locals query where the crate has one.
pub fn grammar_source(grammar: Grammar) -> (r: GrammarSource)
    ensures
        r.language == source_language(grammar),
        r.highlights@ == source_highlights(grammar),
        r.locals@ == locals_of(grammar),
{
    match grammar {
        Grammar::Rust => without_locals(rust_source()),
        Grammar::JavaScript => with_locals(javascript_source()),
        Grammar::TypeScript => with_locals(typescript_source()),
        Grammar::Tsx => with_locals(tsx_source()),
        Grammar::Python => without_locals(python_source()),
        Grammar::Go => without_locals(go_source()),
        Grammar::C => without_locals(c_source()),
        Grammar::Cpp => without_locals(cpp_source()),
        Grammar::Java => without_locals(java_source()),
        Grammar::Json => without_locals(json_source()),
        Grammar::Bash => without_locals(bash_source()),
        Grammar::Html => without_locals(html_source()),
        Grammar::Css => without_locals(css_source()),
    }
}

/// The grammar that a language name stands for.
pub open spec fn grammar_of(language: Seq<char>) -> Option<Grammar> {
    if language == "ts"@ || language == "typescript"@ {
        Some(Grammar::TypeScript)
    } else if language == "jsx"@ || language == "javascript"@ {
        Some(Grammar::JavaScript)
    } else if language == "sh"@ || language == "bash"@ {
        Some(Grammar::Bash)
    } else if language == "rust"@ {
        Some(Grammar::Rust)
    } else if language == "tsx"@ {
        Some(Grammar::Tsx)
    } else if language == "python"@ {
        Some(Grammar::Python)
    } else if language == "go"@ {
        Some(Grammar::Go)
    } else if language == "c"@ {
        Some(Grammar::C)
    } else if language == "cpp"@ {
        Some(Grammar::Cpp)
    } else if language == "java"@ {
        Some(Grammar::Java)
    } else if language == "json"@ {
        Some(Grammar::Json)
    } else if language == "html"@ {
        Some(Grammar::Html)
    } else if language == "css"@ {
        Some(Grammar::Css)
    } else {
        None
    }
}

/// The name under which a grammar is known.
pub open spec fn grammar_name(grammar: Grammar) -> Seq<char> {
    match grammar {
        Grammar::Rust => "rust"@,
        Grammar::JavaScript => "javascript"@,
        Grammar::TypeScript => "typescript"@,
        Grammar::Tsx => "tsx"@,
        Grammar::Python => "python"@,
        Grammar::Go => "go"@,
        Grammar::C => "c"@,
        Grammar::Cpp => "cpp"@,
        Grammar::Java => "java"@,
        Grammar::Json => "json"@,
        Grammar::Bash => "bash"@,
        Grammar::Html => "html"@,
        Grammar::Css => "css"@,
    }
}

/// The grammar that a language name stands for.
pub fn canonical_language(language: &str) -> (r: Option<Grammar>)
    ensures
        r == grammar_of(language@),
{
    if str_eq(language, "ts") || str_eq(language, "typescript") {
        Some(Grammar::TypeScript)
    } else if str_eq(language, "jsx") || str_eq(language, "javascript") {
        Some(Grammar::JavaScript)
    } else if str_eq(language, "sh") || str_eq(language, "bash") {
        Some(Grammar::Bash)
    } else if str_eq(language, "rust") {
        Some(Grammar::Rust)
    } else if str_eq(language, "tsx") {
        Some(Grammar::Tsx)
    } else if str_eq(language, "python") {
        Some(Grammar::Python)
    } else if str_eq(language, "go") {
        Some(Grammar::Go)
    } else if str_eq(language, "c") {
        Some(Grammar::C)
    } else if str_eq(language, "cpp") {
        Some(Grammar::Cpp)
    } else if str_eq(language, "java") {
        Some(Grammar::Java)
    } else if str_eq(language, "json") {
        Some(Grammar::Json)
    } else if str_eq(language, "html") {
        Some(Grammar::Html)
    } else if str_eq(language, "css") {
        Some(Grammar::Css)
    } else {
        None
    }
}

/// The name under which a grammar is known.
pub fn grammar_key(grammar: Grammar) -> (r: &'static str)
    ensures
        r@ == grammar_name(grammar),
{
    match grammar {
        Grammar::Rust => "rust",
        Grammar::JavaScript => "javascript",
        Grammar::TypeScript => "typescript",
        Grammar::Tsx => "tsx",
        Grammar::Python => "python",
        Grammar::Go => "go",
        Grammar::C => "c",
        Grammar::Cpp => "cpp",
        Grammar::Java => "java",
        Grammar::Json => "json",
        Grammar::Bash => "bash",
        Grammar::Html => "html",
        Grammar::Css => "css",
    }
}

/// The highlight names that become classes, in the order of their indices.
pub open spec fn class_names() -> Seq<Seq<char>> {
    seq![
        "attribute"@,
        "constant"@,
        "function.builtin"@,
        "function"@,
        "keyword"@,
        "operator"@,
        "property"@,
        "punctuation"@,
        "punctuation.bracket"@,
        "punctuation.delimiter"@,
        "string"@,
        "string.special"@,
        "tag"@,
        "type"@,
        "type.builtin"@,
        "variable"@,
        "variable.builtin"@,
        "variable.parameter"@,
        "comment"@,
    ]
}

/// The highlight names that become classes, in the order of their indices.
pub fn highlight_names() -> (r: Vec<String>)
    ensures
        str_views(r@) == class_names(),
{
    let mut r: Vec<String> = Vec::new();
    r.push(owned("attribute"));
    r.push(owned("constant"));
    r.push(owned("function.builtin"));
    r.push(owned("function"));
    r.push(owned("keyword"));
    r.push(owned("operator"));
    r.push(owned("property"));
    r.push(owned("punctuation"));
    r.push(owned("punctuation.bracket"));
    r.push(owned("punctuation.delimiter"));
    r.push(owned("string"));
    r.push(owned("string.special"));
    r.push(owned("tag"));
    r.push(owned("type"));
    r.push(owned("type.builtin"));
    r.push(owned("variable"));
    r.push(owned("variable.builtin"));
    r.push(owned("variable.parameter"));
    r.push(owned("comment"));
    assert(str_views(r@) =~= class_names());
    r
}

/// Text as it stands in a code block: `&`, `<`, `>`, `"` and `'` escaped.
pub open spec fn code_escaped(text: Seq<char>) -> Seq<char> {
    escaped(text, "&#39;"@)
}

/// A code block without highlights.
pub open spec fn plain_block(code: Seq<char>) -> Seq<char> {
    "<pre class=\"syntax-highlight\"><code>"@ + code_escaped(code) + "</code></pre>"@
}

/// The markup of the first `n` steps, and whether a highlight is open
/// behind them. A highlight whose name is not known opens nothing, and an
/// end without open highlight closes nothing.
pub open spec fn token_spans(events: Seq<TokenStep>, names: Seq<Seq<char>>, n: int) -> (
    Seq<char>,
    bool,
)
    decreases n,
{
    if n <= 0 || n > events.len() {
        (Seq::empty(), false)
    } else {
        let before = token_spans(events, names, n - 1);
        match events[n - 1] {
            TokenStep::Source(text) => (before.0 + code_escaped(text), before.1),
            TokenStep::Start(i) => if i < names.len() {
                (before.0 + "<span class=\""@ + names[i as int] + "\">"@, true)
            } else {
                before
            },
            TokenStep::End => if before.1 {
                (before.0 + "</span>"@, false)
            } else {
                before
            },
        }
    }
}

/// The code block that the steps of a highlighted text make.
pub open spec fn token_markup(events: Seq<TokenStep>, names: Seq<Seq<char>>) -> Seq<char> {
    "<pre class=\"syntax-highlight\"><code>"@ + token_spans(events, names, events.len() as int).0
        + "</code></pre>"@
}

/// Writes the code block that the steps of a highlighted text make.
pub fn render_tokens(events: &Vec<TokenEvent>, names: &Vec<String>) -> (r: String)
    ensures
        r@ == token_markup(steps_of(events@), str_views(names@)),
{
    let ghost classes = str_views(names@);
    let ghost steps = steps_of(events@);
    let mut out = chars_of("<pre class=\"syntax-highlight\"><code>");
    let ghost head = out@;
    let mut open = false;
    let mut i: usize = 0;
    assert(head + Seq::<char>::empty() =~= head);
    while i < events.len()
        invariant
            i <= events.len(),
            classes == str_views(names@),
            steps == steps_of(events@),
            out@ == head + token_spans(steps, classes, i as int).0,
            open == token_spans(steps, classes, i as int).1,
        decreases events.len() - i,
    {
        let ghost done = token_spans(steps, classes, i as int).0;
        assert(steps[i as int] == events@[i as int]@);
        match &events[i] {
            TokenEvent::Source(text) => {
                escape_into(&mut out, &chars_of(text.as_str()), "&#39;");
                assert(out@ =~= head + (done + code_escaped(text@)));
            },
            TokenEvent::Start(h) => {
                if *h < names.len() {
                    assert(classes[*h as int] == names@[*h as int]@);
                    append_str(&mut out, "<span class=\"");
                    append_str(&mut out, names[*h].as_str());
                    append_str(&mut out, "\">");
                    open = true;
                    assert(out@ =~= head + (done + "<span class=\""@ + names@[*h as int]@
                        + "\">"@));
                }
            },
            TokenEvent::End => {
                if open {
                    append_str(&mut out, "</span>");
                    open = false;
                    assert(out@ =~= head + (done + "</span>"@));
                }
            },
        }
        i += 1;
    }
    append_str(&mut out, "</code></pre>");
    string_of(&out)
}

/// The place of the first configuration that is loaded for a grammar.
pub open spec fn loaded_at(
    configs: Seq<(Grammar, tree_sitter_highlight::HighlightConfiguration)>,
    grammar: Grammar,
) -> Option<int>
    decreases configs.len(),
{
    if configs.len() == 0 {
        None
    } else {
        match loaded_at(configs.drop_last(), grammar) {
            Some(i) => Some(i),
            None => if configs.last().0 == grammar {
                Some(configs.len() - 1)
            } else {
                None
            },
        }
    }
}

/// The configuration that a grammar is loaded with.
pub open spec fn configuration_of(grammar: Grammar, names: Seq<Seq<char>>) -> Option<
    tree_sitter_highlight::HighlightConfiguration,
> {
    built_configuration(
        source_language(grammar),
        grammar_name(grammar),
        source_highlights(grammar),
        locals_of(grammar),
        names,
    )
}

/// The configurations after a grammar was loaded: its configuration
/// stands behind the others, and nothing changes where it does not build.
pub open spec fn with_loaded(
    configs: Seq<(Grammar, tree_sitter_highlight::HighlightConfiguration)>,
    grammar: Grammar,
    names: Seq<Seq<char>>,
) -> Seq<(Grammar, tree_sitter_highlight::HighlightConfiguration)> {
    match configuration_of(grammar, names) {
        Some(config) => configs.push((grammar, config)),
        None => configs,
    }
}

/// The configurations after a grammar was asked for: it is loaded where
/// it was not.
pub open spec fn with_ensured(
    configs: Seq<(Grammar, tree_sitter_highlight::HighlightConfiguration)>,
    grammar: Grammar,
    names: Seq<Seq<char>>,
) -> Seq<(Grammar, tree_sitter_highlight::HighlightConfiguration)> {
    if loaded_at(configs, grammar) is Some {
        configs
    } else {
        with_loaded(configs, grammar, names)
    }
}

/// Whether `r` is the markup `html`.
pub open spec fn is_markup(r: Result<String, HighlightError>, html: Seq<char>) -> bool {
    match r {
        Ok(text) => text@ == html,
        Err(_) => false,
    }
}

/// What highlighting gives with the configurations that are loaded: a
/// plain block where the grammar is not among them, the block that the
/// engine's steps make where it is, and an error where the engine fails.
pub open spec fn highlighted_with(
    r: Result<String, HighlightError>,
    configs: Seq<(Grammar, tree_sitter_highlight::HighlightConfiguration)>,
    grammar: Grammar,
    names: Seq<Seq<char>>,
    code: Seq<char>,
) -> bool {
    match loaded_at(configs, grammar) {
        None => is_markup(r, plain_block(code)),
        Some(i) => match highlight_steps(configs[i].1, code) {
            Some(steps) => is_markup(r, token_markup(steps, names)),
            None => r == Err::<String, HighlightError>(HighlightError::NoMarkup),
        },
    }
}

/// A grammar that is loaded among the first `k` configurations is found
/// at the same place among the first `m`, where `m` is not less.
pub proof fn lemma_loaded_at_stays(
    configs: Seq<(Grammar, tree_sitter_highlight::HighlightConfiguration)>,
    grammar: Grammar,
    k: int,
    m: int,
)
    requires
        0 <= k <= m <= configs.len(),
        loaded_at(configs.take(k), grammar) is Some,
    ensures
        loaded_at(configs.take(m), grammar) == loaded_at(configs.take(k), grammar),
    decreases m - k,
{
    if k < m {
        lemma_loaded_at_stays(configs, grammar, k, m - 1);
        assert(configs.take(m).drop_last() =~= configs.take(m - 1));
    }
}

/// A highlighter with its engine and the grammars that it has loaded so
/// far.
pub struct TreeSitterHighlighter {
    pub highlighter: tree_sitter_highlight::Highlighter,
    pub configs: Vec<(Grammar, tree_sitter_highlight::HighlightConfiguration)>,
    pub highlight_names: Vec<String>,
}

impl TreeSitterHighlighter {
    /// A highlighter that has loaded no grammar yet.
    pub fn new() -> (r: Result<Self, HighlightError>)
        ensures
            r matches Ok(h) && h.configs@.len() == 0 && h.names() == class_names(),
    {
        Ok(
            TreeSitterHighlighter {
                highlighter: new_engine(),
                configs: Vec::new(),
                highlight_names: highlight_names(),
            },
        )
    }

    /// The highlight names that become classes.
    pub open spec fn names(&self) -> Seq<Seq<char>> {
        str_views(self.highlight_names@)
    }

    /// Whether a grammar is loaded.
    pub open spec fn has(&self, grammar: Grammar) -> bool {
        loaded_at(self.configs@, grammar) is Some
    }

    fn position(&self, grammar: Grammar) -> (r: Option<usize>)
        ensures
            match r {
                Some(i) => i < self.configs@.len() && loaded_at(self.configs@, grammar) == Some(
                    i as int,
                ),
                None => loaded_at(self.configs@, grammar) is None,
            },
    {
        let ghost all = self.configs@;
        let mut i: usize = 0;
        assert(all.take(0).len() == 0);
        while i < self.configs.len()
            invariant
                i <= self.configs.len(),
                all == self.configs@,
                loaded_at(all.take(i as int), grammar) is None,
            decreases self.configs.len() - i,
        {
            proof {
                assert(all.take(i + 1).drop_last() =~= all.take(i as int));
                assert(all.take(i + 1).last() == all[i as int]);
            }
            if self.configs[i].0 == grammar {
                proof {
                    lemma_loaded_at_stays(all, grammar, i + 1, all.len() as int);
                    assert(all.take(all.len() as int) =~= all);
                }
                return Some(i);
            }
            i += 1;
        }
        assert(all.take(all.len() as int) =~= all);
        None
    }

    /// Takes what came of building a grammar's configuration: a
    /// configuration is kept behind those that are loaded, under its
    /// grammar; without one nothing changes, and the grammar counts as
    /// unsupported.
    pub fn keep_configuration(
        &mut self,
        grammar: Grammar,
        loaded: Option<tree_sitter_highlight::HighlightConfiguration>,
    ) -> (r: Result<(), HighlightError>)
        ensures
            match loaded {
                Some(config) => r is Ok && final(self).configs@ == old(self).configs@.push(
                    (grammar, config),
                ),
                None => r == Err::<(), HighlightError>(HighlightError::UnsupportedLanguage)
                    && final(self).configs@ == old(self).configs@,
            },
            final(self).highlight_names == old(self).highlight_names,
    {
        match loaded {
            Some(config) => {
                self.configs.push((grammar, config));
                Ok(())
            },
            None => Err(HighlightError::UnsupportedLanguage),
        }
    }

    /// Loads a grammar: its configuration is built from the language and
    /// the queries of the grammar's crate and kept behind those that are
    /// loaded. Succeeds where the configuration builds; fails, and changes
    /// nothing, where a query does not compile.
    pub fn load_language(&mut self, grammar: Grammar) -> (r: Result<(), HighlightError>)
        ensures
            r is Ok <==> configuration_of(grammar, old(self).names()) is Some,
            r is Err ==> r == Err::<(), HighlightError>(HighlightError::UnsupportedLanguage),
            final(self).configs@ == with_loaded(old(self).configs@, grammar, old(self).names()),
            final(self).highlight_names == old(self).highlight_names,
    {
        let source = grammar_source(grammar);
        let loaded = build_configuration(
            source.language,
            grammar_key(grammar),
            source.highlights,
            source.locals,
            &self.highlight_names,
        );
        self.keep_configuration(grammar, loaded)
    }

    /// The grammar for a language name, loaded if it was not. A name that
    /// stands for no grammar gives `None` and changes nothing. A grammar
    /// that is loaded already is given as it is, and nothing is loaded
    /// again. Another grammar is loaded, and given where its configuration
    /// builds.
    pub fn ensure_language_loaded(&mut self, language: &str) -> (r: Option<Grammar>)
        ensures
            match grammar_of(language@) {
                Some(g) => final(self).configs@ == with_ensured(
                    old(self).configs@,
                    g,
                    old(self).names(),
                ) && r == (if final(self).has(g) {
                    Some(g)
                } else {
                    None
                }) && (r is Some <==> old(self).has(g) || configuration_of(
                    g,
                    old(self).names(),
                ) is Some),
                None => r is None && final(self).configs@ == old(self).configs@,
            },
            final(self).highlight_names == old(self).highlight_names,
    {
        let grammar = match canonical_language(language) {
            Some(g) => g,
            None => {
                return None;
            },
        };
        if self.position(grammar).is_some() {
            return Some(grammar);
        }
        let ghost before = self.configs@;
        match self.load_language(grammar) {
            Ok(_) => {
                proof {
                    assert(self.configs@.drop_last() =~= before);
                }
                Some(grammar)
            },
            Err(_) => None,
        }
    }

    /// Highlights `code`. Code in a language without grammar becomes a
    /// plain block, and so does code whose grammar does not load;
    /// otherwise the grammar is loaded if it was not, and the code becomes
    /// the block that the engine's steps make with the grammar's
    /// configuration. Where the engine fails, so does the call.
    pub fn highlight(&mut self, code: &str, language: &str) -> (r: Result<String, HighlightError>)
        ensures
            match grammar_of(language@) {
                Some(g) => final(self).configs@ == with_ensured(
                    old(self).configs@,
                    g,
                    old(self).names(),
                ) && highlighted_with(r, final(self).configs@, g, old(self).names(), code@),
                None => final(self).configs@ == old(self).configs@ && is_markup(
                    r,
                    plain_block(code@),
                ),
            },
            final(self).highlight_names == old(self).highlight_names,
    {
        let at = match self.ensure_language_loaded(language) {
            Some(grammar) => self.position(grammar),
            None => None,
        };
        let i = match at {
            Some(i) => i,
            None => {
                return Ok(Self::plain(code));
            },
        };
        match token_events(&mut self.highlighter, &self.configs[i].1, code) {
            Some(events) => Ok(render_tokens(&events, &self.highlight_names)),
            None => Err(HighlightError::NoMarkup),
        }
    }

    /// A code block without highlights.
    pub fn plain(code: &str) -> (r: String)
        ensures
            r@ == plain_block(code@),
    {
        let mut out = chars_of("<pre class=\"syntax-highlight\"><code>");
        escape_into(&mut out, &chars_of(code), "&#39;");
        append_str(&mut out, "</code></pre>");
        string_of(&out)
    }

    /// Escapes text for a code block.
    pub fn escape_html(text: &str) -> (r: String)
        ensures
            r@ == code_escaped(text@),
    {
        crate::text::escape_str(text, "&#39;")
    }
}

} // verus!
