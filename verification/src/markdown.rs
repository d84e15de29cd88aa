//! Structural emission: Markdown events are written as HTML, and every
//! element that comes from Markdown syntax is marked with `data-md`, so that
//! later passes can tell it from HTML that the author wrote by hand.

use crate::text::{
    append_str, chars_of, decimal, decimal_chars, escape_into, escaped, index_of, opt_chars,
};
use pulldown_cmark::{CodeBlockKind, Event, Tag};
use vstd::prelude::*;

verus! {

#[verifier::external_type_specification]
#[verifier::external_body]
pub struct ExEvent<'a>(pulldown_cmark::Event<'a>);

#[verifier::external_type_specification]
#[verifier::external_body]
pub struct ExTag<'a>(pulldown_cmark::Tag<'a>);

/// The level of a heading.
#[derive(Debug, Clone, Copy, PartialEq, Eq, Structural)]
pub enum HeadingLevel {
    H1,
    H2,
    H3,
    H4,
    H5,
    H6,
}

/// An element that Markdown syntax opens and closes.
#[derive(Debug)]
pub enum MdTag {
    Paragraph,
    Heading { level: HeadingLevel, id: Option<String> },
    BlockQuote,
    /// A code block; `info` is what follows the fence, `None` for an
    /// indented block.
    CodeBlock { info: Option<String> },
    /// A list; `start` is the number of the first item of an ordered list.
    List { start: Option<u64> },
    Item,
    FootnoteDefinition { name: String },
    Table,
    TableHead,
    TableRow,
    TableCell,
    Emphasis,
    Strong,
    Strikethrough,
    Link { dest: String, title: String },
    Image { dest: String, title: String },
}

/// One event of a Markdown document.
#[derive(Debug)]
pub enum MdEvent {
    Start(MdTag),
    End(MdTag),
    Text(String),
    Code(String),
    Html(String),
    FootnoteReference(String),
    SoftBreak,
    HardBreak,
    Rule,
    TaskListMarker(bool),
}

/// What kind of event an event is, without what it carries.
pub enum EventShape {
    Start,
    End,
    Text,
    Code,
    Html,
    FootnoteReference,
    SoftBreak,
    HardBreak,
    Rule,
    TaskListMarker(bool),
}

/// What kind of element a tag stands for, without what it carries.
pub enum TagShape {
    Paragraph,
    Heading,
    BlockQuote,
    FencedCode,
    IndentedCode,
    OrderedList,
    BulletList,
    Item,
    FootnoteDefinition,
    Table,
    TableHead,
    TableRow,
    TableCell,
    Emphasis,
    Strong,
    Strikethrough,
    Link,
    Image,
}

/// What an element holds, as plain values.
pub enum MdTagView {
    Paragraph,
    Heading { level: HeadingLevel, id: Option<Seq<char>> },
    BlockQuote,
    CodeBlock { info: Option<Seq<char>> },
    List { start: Option<u64> },
    Item,
    FootnoteDefinition { name: Seq<char> },
    Table,
    TableHead,
    TableRow,
    TableCell,
    Emphasis,
    Strong,
    Strikethrough,
    Link { dest: Seq<char>, title: Seq<char> },
    Image { dest: Seq<char>, title: Seq<char> },
}

impl View for MdTag {
    type V = MdTagView;

    open spec fn view(&self) -> MdTagView {
        match *self {
            MdTag::Paragraph => MdTagView::Paragraph,
            MdTag::Heading { level, id } => MdTagView::Heading { level, id: opt_chars(id) },
            MdTag::BlockQuote => MdTagView::BlockQuote,
            MdTag::CodeBlock { info } => MdTagView::CodeBlock { info: opt_chars(info) },
            MdTag::List { start } => MdTagView::List { start },
            MdTag::Item => MdTagView::Item,
            MdTag::FootnoteDefinition { name } => MdTagView::FootnoteDefinition { name: name@ },
            MdTag::Table => MdTagView::Table,
            MdTag::TableHead => MdTagView::TableHead,
            MdTag::TableRow => MdTagView::TableRow,
            MdTag::TableCell => MdTagView::TableCell,
            MdTag::Emphasis => MdTagView::Emphasis,
            MdTag::Strong => MdTagView::Strong,
            MdTag::Strikethrough => MdTagView::Strikethrough,
            MdTag::Link { dest, title } => MdTagView::Link { dest: dest@, title: title@ },
            MdTag::Image { dest, title } => MdTagView::Image { dest: dest@, title: title@ },
        }
    }
}

/// What an event holds, as plain values.
pub enum MdEventView {
    Start(MdTagView),
    End(MdTagView),
    Text(Seq<char>),
    Code(Seq<char>),
    Html(Seq<char>),
    FootnoteReference(Seq<char>),
    SoftBreak,
    HardBreak,
    Rule,
    TaskListMarker(bool),
}

impl View for MdEvent {
    type V = MdEventView;

    open spec fn view(&self) -> MdEventView {
        match *self {
            MdEvent::Start(tag) => MdEventView::Start(tag@),
            MdEvent::End(tag) => MdEventView::End(tag@),
            MdEvent::Text(text) => MdEventView::Text(text@),
            MdEvent::Code(text) => MdEventView::Code(text@),
            MdEvent::Html(html) => MdEventView::Html(html@),
            MdEvent::FootnoteReference(name) => MdEventView::FootnoteReference(name@),
            MdEvent::SoftBreak => MdEventView::SoftBreak,
            MdEvent::HardBreak => MdEventView::HardBreak,
            MdEvent::Rule => MdEventView::Rule,
            MdEvent::TaskListMarker(checked) => MdEventView::TaskListMarker(checked),
        }
    }
}

/// The views of a list of events.
pub open spec fn event_views(events: Seq<MdEvent>) -> Seq<MdEventView> {
    events.map_values(|e: MdEvent| e@)
}

/// What a `pulldown_cmark::Tag` holds of what the emitter reads: its
/// variant, and of its fields the heading's level and identifier, the
/// fence's info string, the list's first number, the footnote's label, and
/// the destination and title of a link or image.
pub uninterp spec fn tag_model(tag: Tag<'_>) -> MdTagView;

/// What a `pulldown_cmark::Event` holds: its variant, its text or flag,
/// and what its tag holds.
pub uninterp spec fn event_model(event: Event<'_>) -> MdEventView;

/// The events that `pulldown_cmark::Parser` reads from a Markdown document,
/// every extension switched on.
pub uninterp spec fn parsed_markdown(markdown: Seq<char>) -> Seq<MdEventView>;

/// What a list of events of the parser holds.
pub open spec fn event_models(events: Seq<Event<'_>>) -> Seq<MdEventView> {
    events.map_values(|e: Event<'_>| event_model(e))
}

/// The kind of an event.
pub open spec fn shape_of(event: MdEventView) -> EventShape {
    match event {
        MdEventView::Start(_) => EventShape::Start,
        MdEventView::End(_) => EventShape::End,
        MdEventView::Text(_) => EventShape::Text,
        MdEventView::Code(_) => EventShape::Code,
        MdEventView::Html(_) => EventShape::Html,
        MdEventView::FootnoteReference(_) => EventShape::FootnoteReference,
        MdEventView::SoftBreak => EventShape::SoftBreak,
        MdEventView::HardBreak => EventShape::HardBreak,
        MdEventView::Rule => EventShape::Rule,
        MdEventView::TaskListMarker(checked) => EventShape::TaskListMarker(checked),
    }
}

/// The text that an event carries; empty where it carries none.
pub open spec fn text_of(event: MdEventView) -> Seq<char> {
    match event {
        MdEventView::Text(t) => t,
        MdEventView::Code(t) => t,
        MdEventView::Html(t) => t,
        MdEventView::FootnoteReference(t) => t,
        _ => Seq::empty(),
    }
}

/// The element that an event opens or closes.
pub open spec fn carried_tag(event: MdEventView) -> Option<MdTagView> {
    match event {
        MdEventView::Start(t) => Some(t),
        MdEventView::End(t) => Some(t),
        _ => None,
    }
}

/// The kind of a block-level element; `None` for the others.
pub open spec fn block_shape_of(tag: MdTagView) -> Option<TagShape> {
    match tag {
        MdTagView::Paragraph => Some(TagShape::Paragraph),
        MdTagView::Heading { .. } => Some(TagShape::Heading),
        MdTagView::BlockQuote => Some(TagShape::BlockQuote),
        MdTagView::CodeBlock { info: Some(_) } => Some(TagShape::FencedCode),
        MdTagView::CodeBlock { info: None } => Some(TagShape::IndentedCode),
        MdTagView::List { start: Some(_) } => Some(TagShape::OrderedList),
        MdTagView::List { start: None } => Some(TagShape::BulletList),
        MdTagView::Item => Some(TagShape::Item),
        MdTagView::FootnoteDefinition { .. } => Some(TagShape::FootnoteDefinition),
        _ => None,
    }
}

/// The kind of a table or span-level element; `None` for the others.
pub open spec fn inline_shape_of(tag: MdTagView) -> Option<TagShape> {
    match tag {
        MdTagView::Table => Some(TagShape::Table),
        MdTagView::TableHead => Some(TagShape::TableHead),
        MdTagView::TableRow => Some(TagShape::TableRow),
        MdTagView::TableCell => Some(TagShape::TableCell),
        MdTagView::Emphasis => Some(TagShape::Emphasis),
        MdTagView::Strong => Some(TagShape::Strong),
        MdTagView::Strikethrough => Some(TagShape::Strikethrough),
        MdTagView::Link { .. } => Some(TagShape::Link),
        MdTagView::Image { .. } => Some(TagShape::Image),
        _ => None,
    }
}

/// The level of a heading.
pub open spec fn level_of(tag: MdTagView) -> Option<HeadingLevel> {
    match tag {
        MdTagView::Heading { level, .. } => Some(level),
        _ => None,
    }
}

/// The first text that an element carries: the identifier of a heading,
/// the info string of a fenced code block, the label of a footnote
/// definition, the destination of a link or image.
pub open spec fn first_text_of(tag: MdTagView) -> Option<Seq<char>> {
    match tag {
        MdTagView::Heading { id, .. } => id,
        MdTagView::CodeBlock { info } => info,
        MdTagView::FootnoteDefinition { name } => Some(name),
        MdTagView::Link { dest, .. } => Some(dest),
        MdTagView::Image { dest, .. } => Some(dest),
        _ => None,
    }
}

/// The title of a link or image; empty for the other elements.
pub open spec fn title_of(tag: MdTagView) -> Seq<char> {
    match tag {
        MdTagView::Link { title, .. } => title,
        MdTagView::Image { title, .. } => title,
        _ => Seq::empty(),
    }
}

/// The number of the first item of an ordered list.
pub open spec fn start_of(tag: MdTagView) -> Option<u64> {
    match tag {
        MdTagView::List { start } => start,
        _ => None,
    }
}

/// The events of a Markdown document, with every extension switched on
/// (`pulldown_cmark::Parser::new_ext` with `Options::all`). The events
/// depend on the document alone and are named, not stated.
#[verifier::external_body]
fn parse_events(markdown: &str) -> (r: Vec<Event<'_>>)
    ensures
        event_models(r@) == parsed_markdown(markdown@),
{
    pulldown_cmark::Parser::new_ext(markdown, pulldown_cmark::Options::all()).collect()
}

/// Which variant of `pulldown_cmark::Event` an event is, with the flag of
/// a task list marker.
#[verifier::external_body]
fn event_shape(event: &Event<'_>) -> (r: EventShape)
    ensures
        r == shape_of(event_model(*event)),
{
    match event {
        Event::Start(_) => EventShape::Start,
        Event::End(_) => EventShape::End,
        Event::Text(_) => EventShape::Text,
        Event::Code(_) => EventShape::Code,
        Event::Html(_) => EventShape::Html,
        Event::FootnoteReference(_) => EventShape::FootnoteReference,
        Event::SoftBreak => EventShape::SoftBreak,
        Event::HardBreak => EventShape::HardBreak,
        Event::Rule => EventShape::Rule,
        Event::TaskListMarker(checked) => EventShape::TaskListMarker(*checked),
    }
}

/// The text that a `Text`, `Code`, `Html` or `FootnoteReference` event
/// carries; empty for the other events.
#[verifier::external_body]
fn event_text(event: &Event<'_>) -> (r: String)
    ensures
        r@ == text_of(event_model(*event)),
{
    match event {
        Event::Text(t) => t.to_string(),
        Event::Code(t) => t.to_string(),
        Event::Html(t) => t.to_string(),
        Event::FootnoteReference(t) => t.to_string(),
        _ => String::new(),
    }
}

/// The tag that a `Start` or `End` event carries; `None` for the other
/// events.
#[verifier::external_body]
fn event_tag<'a, 'b>(event: &'b Event<'a>) -> (r: Option<&'b Tag<'a>>)
    ensures
        match r {
            Some(t) => carried_tag(event_model(*event)) == Some(tag_model(*t)),
            None => carried_tag(event_model(*event)) is None,
        },
{
    match event {
        Event::Start(t) => Some(t),
        Event::End(t) => Some(t),
        _ => None,
    }
}

/// Which block-level variant of `pulldown_cmark::Tag` a tag is.
#[verifier::external_body]
fn block_shape(tag: &Tag<'_>) -> (r: Option<TagShape>)
    ensures
        r == block_shape_of(tag_model(*tag)),
{
    match tag {
        Tag::Paragraph => Some(TagShape::Paragraph),
        Tag::Heading(..) => Some(TagShape::Heading),
        Tag::BlockQuote => Some(TagShape::BlockQuote),
        Tag::CodeBlock(CodeBlockKind::Fenced(_)) => Some(TagShape::FencedCode),
        Tag::CodeBlock(CodeBlockKind::Indented) => Some(TagShape::IndentedCode),
        Tag::List(Some(_)) => Some(TagShape::OrderedList),
        Tag::List(None) => Some(TagShape::BulletList),
        Tag::Item => Some(TagShape::Item),
        Tag::FootnoteDefinition(_) => Some(TagShape::FootnoteDefinition),
        _ => None,
    }
}

/// Which table or span-level variant of `pulldown_cmark::Tag` a tag is.
#[verifier::external_body]
fn inline_shape(tag: &Tag<'_>) -> (r: Option<TagShape>)
    ensures
        r == inline_shape_of(tag_model(*tag)),
{
    match tag {
        Tag::Table(_) => Some(TagShape::Table),
        Tag::TableHead => Some(TagShape::TableHead),
        Tag::TableRow => Some(TagShape::TableRow),
        Tag::TableCell => Some(TagShape::TableCell),
        Tag::Emphasis => Some(TagShape::Emphasis),
        Tag::Strong => Some(TagShape::Strong),
        Tag::Strikethrough => Some(TagShape::Strikethrough),
        Tag::Link(..) => Some(TagShape::Link),
        Tag::Image(..) => Some(TagShape::Image),
        _ => None,
    }
}

/// The level of a `Heading` tag; `None` for the other tags.
#[verifier::external_body]
fn heading_level(tag: &Tag<'_>) -> (r: Option<HeadingLevel>)
    ensures
        r == level_of(tag_model(*tag)),
{
    match tag {
        Tag::Heading(pulldown_cmark::HeadingLevel::H1, ..) => Some(HeadingLevel::H1),
        Tag::Heading(pulldown_cmark::HeadingLevel::H2, ..) => Some(HeadingLevel::H2),
        Tag::Heading(pulldown_cmark::HeadingLevel::H3, ..) => Some(HeadingLevel::H3),
        Tag::Heading(pulldown_cmark::HeadingLevel::H4, ..) => Some(HeadingLevel::H4),
        Tag::Heading(pulldown_cmark::HeadingLevel::H5, ..) => Some(HeadingLevel::H5),
        Tag::Heading(pulldown_cmark::HeadingLevel::H6, ..) => Some(HeadingLevel::H6),
        _ => None,
    }
}

/// The first text that a tag carries: the identifier of a heading, the info
/// string of a fenced code block, the label of a footnote definition, the
/// destination of a link or image.
#[verifier::external_body]
fn tag_text(tag: &Tag<'_>) -> (r: Option<String>)
    ensures
        opt_chars(r) == first_text_of(tag_model(*tag)),
{
    match tag {
        Tag::Heading(_, Some(id), _) => Some(id.to_string()),
        Tag::CodeBlock(CodeBlockKind::Fenced(info)) => Some(info.to_string()),
        Tag::FootnoteDefinition(name) => Some(name.to_string()),
        Tag::Link(_, dest, _) => Some(dest.to_string()),
        Tag::Image(_, dest, _) => Some(dest.to_string()),
        _ => None,
    }
}

/// The title of a `Link` or `Image` tag; empty for the other tags.
#[verifier::external_body]
fn tag_title(tag: &Tag<'_>) -> (r: String)
    ensures
        r@ == title_of(tag_model(*tag)),
{
    match tag {
        Tag::Link(_, _, title) => title.to_string(),
        Tag::Image(_, _, title) => title.to_string(),
        _ => String::new(),
    }
}

/// The number of the first item of an ordered `List` tag; `None` for a
/// bullet list and for the other tags.
#[verifier::external_body]
fn list_start(tag: &Tag<'_>) -> (r: Option<u64>)
    ensures
        r == start_of(tag_model(*tag)),
{
    match tag {
        Tag::List(start) => *start,
        _ => None,
    }
}

fn text_or_empty(text: Option<String>) -> (r: String)
    ensures
        r@ == match text {
            Some(t) => t@,
            None => Seq::<char>::empty(),
        },
{
    match text {
        Some(t) => t,
        None => String::new(),
    }
}

/// The element that a tag of the given shape stands for, with what the tag
/// carries.
pub fn assemble_tag(
    shape: TagShape,
    level: Option<HeadingLevel>,
    text: Option<String>,
    title: String,
    start: Option<u64>,
) -> (r: MdTag)
    ensures
        match shape {
            TagShape::Paragraph => r is Paragraph,
            TagShape::Heading => r matches MdTag::Heading { level: l, id } && id == text && l
                == match level {
                Some(l) => l,
                None => HeadingLevel::H1,
            },
            TagShape::BlockQuote => r is BlockQuote,
            TagShape::FencedCode => r matches MdTag::CodeBlock { info: Some(i) } && i@ == match text {
                Some(t) => t@,
                None => Seq::<char>::empty(),
            },
            TagShape::IndentedCode => r matches MdTag::CodeBlock { info: None },
            TagShape::OrderedList => r matches MdTag::List { start: Some(n) } && n == match start {
                Some(s) => s,
                None => 1,
            },
            TagShape::BulletList => r matches MdTag::List { start: None },
            TagShape::Item => r is Item,
            TagShape::FootnoteDefinition => r matches MdTag::FootnoteDefinition { name } && name@
                == match text {
                Some(t) => t@,
                None => Seq::<char>::empty(),
            },
            TagShape::Table => r is Table,
            TagShape::TableHead => r is TableHead,
            TagShape::TableRow => r is TableRow,
            TagShape::TableCell => r is TableCell,
            TagShape::Emphasis => r is Emphasis,
            TagShape::Strong => r is Strong,
            TagShape::Strikethrough => r is Strikethrough,
            TagShape::Link => r matches MdTag::Link { dest, title: t } && t == title && dest@
                == match text {
                Some(t) => t@,
                None => Seq::<char>::empty(),
            },
            TagShape::Image => r matches MdTag::Image { dest, title: t } && t == title && dest@
                == match text {
                Some(t) => t@,
                None => Seq::<char>::empty(),
            },
        },
{
    match shape {
        TagShape::Paragraph => MdTag::Paragraph,
        TagShape::Heading => MdTag::Heading {
            level: match level {
                Some(l) => l,
                None => HeadingLevel::H1,
            },
            id: text,
        },
        TagShape::BlockQuote => MdTag::BlockQuote,
        TagShape::FencedCode => MdTag::CodeBlock { info: Some(text_or_empty(text)) },
        TagShape::IndentedCode => MdTag::CodeBlock { info: None },
        TagShape::OrderedList => MdTag::List {
            start: Some(
                match start {
                    Some(s) => s,
                    None => 1,
                },
            ),
        },
        TagShape::BulletList => MdTag::List { start: None },
        TagShape::Item => MdTag::Item,
        TagShape::FootnoteDefinition => MdTag::FootnoteDefinition { name: text_or_empty(text) },
        TagShape::Table => MdTag::Table,
        TagShape::TableHead => MdTag::TableHead,
        TagShape::TableRow => MdTag::TableRow,
        TagShape::TableCell => MdTag::TableCell,
        TagShape::Emphasis => MdTag::Emphasis,
        TagShape::Strong => MdTag::Strong,
        TagShape::Strikethrough => MdTag::Strikethrough,
        TagShape::Link => MdTag::Link { dest: text_or_empty(text), title },
        TagShape::Image => MdTag::Image { dest: text_or_empty(text), title },
    }
}

/// The element that a tag of the parser stands for.
fn convert_tag(tag: &Tag<'_>) -> (r: MdTag)
    ensures
        r@ == tag_model(*tag),
{
    let shape = match block_shape(tag) {
        Some(s) => s,
        None => match inline_shape(tag) {
            Some(s) => s,
            None => TagShape::Paragraph,
        },
    };
    assemble_tag(shape, heading_level(tag), tag_text(tag), tag_title(tag), list_start(tag))
}

/// The event that an event of the parser stands for.
fn convert_event(event: &Event<'_>) -> (r: MdEvent)
    ensures
        r@ == event_model(*event),
{
    match event_shape(event) {
        EventShape::Start => match event_tag(event) {
            Some(t) => MdEvent::Start(convert_tag(t)),
            None => MdEvent::SoftBreak,
        },
        EventShape::End => match event_tag(event) {
            Some(t) => MdEvent::End(convert_tag(t)),
            None => MdEvent::SoftBreak,
        },
        EventShape::Text => MdEvent::Text(event_text(event)),
        EventShape::Code => MdEvent::Code(event_text(event)),
        EventShape::Html => MdEvent::Html(event_text(event)),
        EventShape::FootnoteReference => MdEvent::FootnoteReference(event_text(event)),
        EventShape::SoftBreak => MdEvent::SoftBreak,
        EventShape::HardBreak => MdEvent::HardBreak,
        EventShape::Rule => MdEvent::Rule,
        EventShape::TaskListMarker(checked) => MdEvent::TaskListMarker(checked),
    }
}

/// The events of a Markdown document: what the parser reads from it, one
/// event of the library for each event of the parser, in order.
pub fn markdown_events(markdown: &str) -> (r: Vec<MdEvent>)
    ensures
        event_views(r@) == parsed_markdown(markdown@),
{
    let parsed = parse_events(markdown);
    let mut events: Vec<MdEvent> = Vec::new();
    let mut i: usize = 0;
    while i < parsed.len()
        invariant
            i <= parsed.len(),
            events.len() == i,
            forall|j: int| 0 <= j < i ==> events@[j]@ == event_model(parsed@[j]),
        decreases parsed.len() - i,
    {
        events.push(convert_event(&parsed[i]));
        i += 1;
    }
    assert(event_views(events@) =~= event_models(parsed@));
    events
}

// ---------------------------------------------------------------------------
// Emission
// ---------------------------------------------------------------------------

/// Text as it stands in element content and attribute values: `&`, `<`, `>`
/// and `"` escaped.
pub open spec fn html_escaped(text: Seq<char>) -> Seq<char> {
    escaped(text, "'"@)
}

/// An address as it stands in an attribute value: as text, and `'` escaped
/// too.
pub open spec fn href_escaped(text: Seq<char>) -> Seq<char> {
    escaped(text, "&#x27;"@)
}

/// The name of a heading's element.
pub open spec fn level_name(level: HeadingLevel) -> Seq<char> {
    match level {
        HeadingLevel::H1 => "h1"@,
        HeadingLevel::H2 => "h2"@,
        HeadingLevel::H3 => "h3"@,
        HeadingLevel::H4 => "h4"@,
        HeadingLevel::H5 => "h5"@,
        HeadingLevel::H6 => "h6"@,
    }
}

/// The language of a fenced code block: its info string up to the first
/// blank.
pub open spec fn fence_language(info: Seq<char>) -> Seq<char> {
    match index_of(info, ' ') {
        Some(i) => info.take(i),
        None => info,
    }
}

/// The markup that opens an element.
pub open spec fn start_markup(tag: MdTag) -> Seq<char> {
    match tag {
        MdTag::Paragraph => "<p data-md>"@,
        MdTag::Heading { level, id } => "<"@ + level_name(level) + " data-md"@ + (match id {
            Some(i) => " id=\""@ + html_escaped(i@) + "\""@,
            None => Seq::empty(),
        }) + ">"@,
        MdTag::BlockQuote => "<blockquote data-md>\n"@,
        MdTag::CodeBlock { info } => "<pre data-md>"@ + (match info {
            Some(i) => if fence_language(i@).len() == 0 {
                "<code>"@
            } else {
                "<code class=\"language-"@ + html_escaped(fence_language(i@)) + "\">"@
            },
            None => "<code>"@,
        }),
        MdTag::List { start } => match start {
            Some(n) => if n != 1 {
                "<ol data-md start=\""@ + decimal(n as nat) + "\">\n"@
            } else {
                "<ol data-md>\n"@
            },
            None => "<ul data-md>\n"@,
        },
        MdTag::Item => "<li data-md>"@,
        MdTag::FootnoteDefinition { name } => "<div class=\"footnote-definition\" id=\""@
            + html_escaped(name@) + "\" data-md><sup class=\"footnote-definition-label\">"@
            + html_escaped(name@) + "</sup>"@,
        MdTag::Table => "<table data-md>"@,
        MdTag::TableHead => "<thead data-md><tr data-md>"@,
        MdTag::TableRow => "<tr data-md>"@,
        MdTag::TableCell => "<td data-md>"@,
        MdTag::Emphasis => "<em data-md>"@,
        MdTag::Strong => "<strong data-md>"@,
        MdTag::Strikethrough => "<del data-md>"@,
        MdTag::Link { dest, title } => "<a data-md href=\""@ + href_escaped(dest@) + (if title@.len()
            > 0 {
            "\" title=\""@ + html_escaped(title@)
        } else {
            Seq::empty()
        }) + "\">"@,
        MdTag::Image { dest, title } => "<img data-md src=\""@ + href_escaped(dest@)
            + "\" alt=\""@,
    }
}

/// The markup that closes an element.
pub open spec fn end_markup(tag: MdTag) -> Seq<char> {
    match tag {
        MdTag::Paragraph => "</p>\n"@,
        MdTag::Heading { level, id } => "</"@ + level_name(level) + ">\n"@,
        MdTag::BlockQuote => "</blockquote>\n"@,
        MdTag::CodeBlock { info } => "</code></pre>\n"@,
        MdTag::List { start } => match start {
            Some(_) => "</ol>\n"@,
            None => "</ul>\n"@,
        },
        MdTag::Item => "</li>\n"@,
        MdTag::FootnoteDefinition { name } => "</div>\n"@,
        MdTag::Table => "</table>\n"@,
        MdTag::TableHead => "</tr></thead>\n"@,
        MdTag::TableRow => "</tr>\n"@,
        MdTag::TableCell => "</td>"@,
        MdTag::Emphasis => "</em>"@,
        MdTag::Strong => "</strong>"@,
        MdTag::Strikethrough => "</del>"@,
        MdTag::Link { dest, title } => "</a>"@,
        MdTag::Image { dest, title } => "\" />"@,
    }
}

/// The markup of one event. HTML that the author wrote is passed through
/// as it is, and without marker.
pub open spec fn event_markup(event: MdEvent) -> Seq<char> {
    match event {
        MdEvent::Start(tag) => start_markup(tag),
        MdEvent::End(tag) => end_markup(tag),
        MdEvent::Text(text) => html_escaped(text@),
        MdEvent::Code(text) => "<code data-md>"@ + html_escaped(text@) + "</code>"@,
        MdEvent::Html(html) => html@,
        MdEvent::FootnoteReference(name) => "<sup class=\"footnote-reference\" data-md><a href=\"#"@
            + html_escaped(name@) + "\">"@ + html_escaped(name@) + "</a></sup>"@,
        MdEvent::SoftBreak => "\n"@,
        MdEvent::HardBreak => "<br />\n"@,
        MdEvent::Rule => "<hr data-md />\n"@,
        MdEvent::TaskListMarker(checked) => "<input type=\"checkbox\" disabled"@ + (if checked {
            " checked"@
        } else {
            Seq::empty()
        }) + " />\n"@,
    }
}

/// The markup of a sequence of events.
pub open spec fn emitted(events: Seq<MdEvent>) -> Seq<char>
    decreases events.len(),
{
    if events.len() == 0 {
        Seq::empty()
    } else {
        emitted(events.drop_last()) + event_markup(events.last())
    }
}

fn push_escaped(out: &mut Vec<char>, text: &str)
    ensures
        final(out)@ == old(out)@ + html_escaped(text@),
{
    escape_into(out, &chars_of(text), "'");
}

fn push_escaped_href(out: &mut Vec<char>, text: &str)
    ensures
        final(out)@ == old(out)@ + href_escaped(text@),
{
    escape_into(out, &chars_of(text), "&#x27;");
}

fn heading_level_str(level: HeadingLevel) -> (r: &'static str)
    ensures
        r@ == level_name(level),
{
    match level {
        HeadingLevel::H1 => "h1",
        HeadingLevel::H2 => "h2",
        HeadingLevel::H3 => "h3",
        HeadingLevel::H4 => "h4",
        HeadingLevel::H5 => "h5",
        HeadingLevel::H6 => "h6",
    }
}

fn language_of_fence(info: &str) -> (r: Vec<char>)
    ensures
        r@ == fence_language(info@),
{
    let v = chars_of(info);
    assert(v@.skip(0) =~= v@);
    match crate::text::find_char(&v, ' ', 0) {
        Some(i) => {
            let r = crate::text::slice(&v, 0, i);
            assert(r@ =~= v@.take(i as int));
            r
        },
        None => v,
    }
}

fn write_heading_start(out: &mut Vec<char>, level: HeadingLevel, id: &Option<String>)
    ensures
        final(out)@ == old(out)@ + start_markup(MdTag::Heading { level, id: *id }),
{
    let ghost before = out@;
    append_str(out, "<");
    append_str(out, heading_level_str(level));
    append_str(out, " data-md");
    match id {
        Some(i) => {
            append_str(out, " id=\"");
            push_escaped(out, i.as_str());
            append_str(out, "\"");
        },
        None => {},
    }
    append_str(out, ">");
    assert(out@ =~= before + start_markup(MdTag::Heading { level, id: *id }));
}

fn write_code_start(out: &mut Vec<char>, info: &Option<String>)
    ensures
        final(out)@ == old(out)@ + start_markup(MdTag::CodeBlock { info: *info }),
{
    let ghost before = out@;
    append_str(out, "<pre data-md>");
    match info {
        Some(i) => {
            let lang = language_of_fence(i.as_str());
            if lang.len() == 0 {
                append_str(out, "<code>");
            } else {
                append_str(out, "<code class=\"language-");
                escape_into(out, &lang, "'");
                append_str(out, "\">");
            }
        },
        None => {
            append_str(out, "<code>");
        },
    }
    assert(out@ =~= before + start_markup(MdTag::CodeBlock { info: *info }));
}

fn write_list_start(out: &mut Vec<char>, start: Option<u64>)
    ensures
        final(out)@ == old(out)@ + start_markup(MdTag::List { start }),
{
    let ghost before = out@;
    match start {
        Some(n) => {
            if n != 1 {
                append_str(out, "<ol data-md start=\"");
                let digits = decimal_chars(n);
                crate::text::append(out, &digits);
                append_str(out, "\">\n");
            } else {
                append_str(out, "<ol data-md>\n");
            }
        },
        None => {
            append_str(out, "<ul data-md>\n");
        },
    }
    assert(out@ =~= before + start_markup(MdTag::List { start }));
}

fn write_footnote_start(out: &mut Vec<char>, name: &String)
    ensures
        final(out)@ == old(out)@ + start_markup(MdTag::FootnoteDefinition { name: *name }),
{
    let ghost before = out@;
    append_str(out, "<div class=\"footnote-definition\" id=\"");
    push_escaped(out, name.as_str());
    append_str(out, "\" data-md><sup class=\"footnote-definition-label\">");
    push_escaped(out, name.as_str());
    append_str(out, "</sup>");
    assert(out@ =~= before + start_markup(MdTag::FootnoteDefinition { name: *name }));
}

fn write_link_start(out: &mut Vec<char>, dest: &String, title: &String)
    ensures
        final(out)@ == old(out)@ + start_markup(MdTag::Link { dest: *dest, title: *title }),
{
    let ghost before = out@;
    append_str(out, "<a data-md href=\"");
    push_escaped_href(out, dest.as_str());
    if chars_of(title.as_str()).len() > 0 {
        append_str(out, "\" title=\"");
        push_escaped(out, title.as_str());
    }
    append_str(out, "\">");
    assert(out@ =~= before + start_markup(MdTag::Link { dest: *dest, title: *title }));
}

fn write_image_start(out: &mut Vec<char>, dest: &String, title: &String)
    ensures
        final(out)@ == old(out)@ + start_markup(MdTag::Image { dest: *dest, title: *title }),
{
    let ghost before = out@;
    append_str(out, "<img data-md src=\"");
    push_escaped_href(out, dest.as_str());
    append_str(out, "\" alt=\"");
    assert(out@ =~= before + start_markup(MdTag::Image { dest: *dest, title: *title }));
}

/// Writes the markup that opens an element.
pub fn write_start_tag(out: &mut Vec<char>, tag: &MdTag)
    ensures
        final(out)@ == old(out)@ + start_markup(*tag),
{
    match tag {
        MdTag::Paragraph => append_str(out, "<p data-md>"),
        MdTag::Heading { level, id } => write_heading_start(out, *level, id),
        MdTag::BlockQuote => append_str(out, "<blockquote data-md>\n"),
        MdTag::CodeBlock { info } => write_code_start(out, info),
        MdTag::List { start } => write_list_start(out, *start),
        MdTag::Item => append_str(out, "<li data-md>"),
        MdTag::FootnoteDefinition { name } => write_footnote_start(out, name),
        MdTag::Table => append_str(out, "<table data-md>"),
        MdTag::TableHead => append_str(out, "<thead data-md><tr data-md>"),
        MdTag::TableRow => append_str(out, "<tr data-md>"),
        MdTag::TableCell => append_str(out, "<td data-md>"),
        MdTag::Emphasis => append_str(out, "<em data-md>"),
        MdTag::Strong => append_str(out, "<strong data-md>"),
        MdTag::Strikethrough => append_str(out, "<del data-md>"),
        MdTag::Link { dest, title } => write_link_start(out, dest, title),
        MdTag::Image { dest, title } => write_image_start(out, dest, title),
    }
}

/// Writes the markup that closes an element.
pub fn write_end_tag(out: &mut Vec<char>, tag: &MdTag)
    ensures
        final(out)@ == old(out)@ + end_markup(*tag),
{
    let ghost before = out@;
    match tag {
        MdTag::Paragraph => append_str(out, "</p>\n"),
        MdTag::Heading { level, id } => {
            append_str(out, "</");
            append_str(out, heading_level_str(*level));
            append_str(out, ">\n");
            assert(out@ =~= before + end_markup(*tag));
        },
        MdTag::BlockQuote => append_str(out, "</blockquote>\n"),
        MdTag::CodeBlock { info } => append_str(out, "</code></pre>\n"),
        MdTag::List { start } => match start {
            Some(_) => append_str(out, "</ol>\n"),
            None => append_str(out, "</ul>\n"),
        },
        MdTag::Item => append_str(out, "</li>\n"),
        MdTag::FootnoteDefinition { name } => append_str(out, "</div>\n"),
        MdTag::Table => append_str(out, "</table>\n"),
        MdTag::TableHead => append_str(out, "</tr></thead>\n"),
        MdTag::TableRow => append_str(out, "</tr>\n"),
        MdTag::TableCell => append_str(out, "</td>"),
        MdTag::Emphasis => append_str(out, "</em>"),
        MdTag::Strong => append_str(out, "</strong>"),
        MdTag::Strikethrough => append_str(out, "</del>"),
        MdTag::Link { dest, title } => append_str(out, "</a>"),
        MdTag::Image { dest, title } => append_str(out, "\" />"),
    }
}

/// Writes the markup of one event.
pub fn write_event(out: &mut Vec<char>, event: &MdEvent)
    ensures
        final(out)@ == old(out)@ + event_markup(*event),
{
    let ghost before = out@;
    match event {
        MdEvent::Start(tag) => write_start_tag(out, tag),
        MdEvent::End(tag) => write_end_tag(out, tag),
        MdEvent::Text(text) => push_escaped(out, text.as_str()),
        MdEvent::Code(text) => {
            append_str(out, "<code data-md>");
            push_escaped(out, text.as_str());
            append_str(out, "</code>");
            assert(out@ =~= before + event_markup(*event));
        },
        MdEvent::Html(html) => append_str(out, html.as_str()),
        MdEvent::FootnoteReference(name) => {
            append_str(out, "<sup class=\"footnote-reference\" data-md><a href=\"#");
            push_escaped(out, name.as_str());
            append_str(out, "\">");
            push_escaped(out, name.as_str());
            append_str(out, "</a></sup>");
            assert(out@ =~= before + event_markup(*event));
        },
        MdEvent::SoftBreak => append_str(out, "\n"),
        MdEvent::HardBreak => append_str(out, "<br />\n"),
        MdEvent::Rule => append_str(out, "<hr data-md />\n"),
        MdEvent::TaskListMarker(checked) => {
            append_str(out, "<input type=\"checkbox\" disabled");
            if *checked {
                append_str(out, " checked");
            }
            append_str(out, " />\n");
            assert(out@ =~= before + event_markup(*event));
        },
    }
}

/// Writes the markup of a sequence of events behind what `out` holds.
pub fn push_html_with_markers(out: &mut Vec<char>, events: &Vec<MdEvent>)
    ensures
        final(out)@ == old(out)@ + emitted(events@),
{
    let mut i: usize = 0;
    assert(events@.take(0) =~= Seq::<MdEvent>::empty());
    assert(out@ + Seq::<char>::empty() =~= out@);
    while i < events.len()
        invariant
            i <= events.len(),
            out@ == old(out)@ + emitted(events@.take(i as int)),
        decreases events.len() - i,
    {
        let ghost done = emitted(events@.take(i as int));
        assert(events@.take(i + 1).drop_last() =~= events@.take(i as int));
        write_event(out, &events[i]);
        assert(out@ =~= old(out)@ + (done + event_markup(events@[i as int])));
        i += 1;
    }
    assert(events@.take(events.len() as int) =~= events@);
}

/// The marked HTML of a sequence of events.
pub fn emit_html(events: &Vec<MdEvent>) -> (r: String)
    ensures
        r@ == emitted(events@),
{
    let mut out: Vec<char> = Vec::new();
    push_html_with_markers(&mut out, events);
    assert(Seq::<char>::empty() + emitted(events@) =~= emitted(events@));
    crate::text::string_of(&out)
}

} // verus!
