//! The component pass: every start tag that the emitter marked, and that a
//! component template exists for, is rendered through its template.

use crate::attributes::{
    Attributes, extract_attributes_chars, is_url_attribute_chars, is_url_name, lookup,
    tag_attributes,
};
use crate::code_blocks::highlighted;
use crate::image::{
    image_view, local_path, processed_image, source_views, ImageCatalog, ImageMetadata,
    ImageMetadataView, ImageProcessor, ImageSource,
};
use crate::markdown::{emitted, event_views, parsed_markdown, MdEvent};
use crate::renderer::{
    raw_html_resolved, resolve_path_chars, resolved_path, sanitized, tag_end_from, RenderError,
    Renderer,
};
use crate::text::{
    append, append_str, chars_of, contains, contains_str, ends_with_str, find_char, has_prefix,
    has_suffix, index_from, is_str, owned, same, slice, starts_with, str_eq, string_of,
    strip_leading, strip_leading_char, strip_trailing, strip_trailing_char,
};
use vstd::prelude::*;

verus! {

#[verifier::external_type_specification]
#[verifier::external_body]
pub struct ExTera(tera::Tera);

#[verifier::external_type_specification]
#[verifier::external_body]
pub struct ExContext(tera::Context);

/// A value that the component pass hands to a template.
pub enum ContextValue {
    Text(Seq<char>),
    Flag(bool),
    Number(nat),
    /// Image variants: addresses with their widths.
    Sources(Seq<(Seq<char>, u32)>),
}

/// The values that a template context holds, by name.
pub uninterp spec fn context_entries(context: tera::Context) -> Map<Seq<char>, ContextValue>;

/// A context without values.
pub open spec fn no_entries() -> Map<Seq<char>, ContextValue> {
    Map::empty()
}

/// An empty template context (`tera::Context::new`).
#[verifier::external_body]
fn new_context() -> (r: tera::Context)
    ensures
        context_entries(r) == no_entries(),
{
    tera::Context::new()
}

/// Puts a text into a context under `key` (`tera::Context::insert`), in the
/// place of what the context held under that name.
#[verifier::external_body]
fn insert_text(context: &mut tera::Context, key: &str, value: &str)
    ensures
        context_entries(*final(context)) == context_entries(*old(context)).insert(
            key@,
            ContextValue::Text(value@),
        ),
{
    context.insert(key, value)
}

/// Puts a truth value into a context under `key` (`tera::Context::insert`).
#[verifier::external_body]
fn insert_flag(context: &mut tera::Context, key: &str, value: bool)
    ensures
        context_entries(*final(context)) == context_entries(*old(context)).insert(
            key@,
            ContextValue::Flag(value),
        ),
{
    context.insert(key, &value)
}

/// Puts a number into a context under `key` (`tera::Context::insert`).
#[verifier::external_body]
fn insert_number(context: &mut tera::Context, key: &str, value: u32)
    ensures
        context_entries(*final(context)) == context_entries(*old(context)).insert(
            key@,
            ContextValue::Number(value as nat),
        ),
{
    context.insert(key, &value)
}

/// Puts image variants into a context under `key`
/// (`tera::Context::insert`), each as an object with the fields `url` and
/// `width`.
#[verifier::external_body]
fn insert_sources(context: &mut tera::Context, key: &str, sources: &Vec<ImageSource>)
    ensures
        context_entries(*final(context)) == context_entries(*old(context)).insert(
            key@,
            ContextValue::Sources(source_views(sources@)),
        ),
{
    let list: Vec<std::collections::BTreeMap<&str, tera::Value>> = sources.iter().map(
        |s| std::collections::BTreeMap::from(
            [("url", tera::Value::from(s.url.as_str())), ("width", tera::Value::from(s.width))],
        ),
    ).collect();
    context.insert(key, &list)
}

/// Whether a template of the given name is loaded (`Tera::get_template`).
/// The answer depends on what was loaded into the engine.
#[verifier::external_body]
fn has_template(tera: &tera::Tera, name: &str) -> (r: bool) {
    tera.get_template(name).is_ok()
}

/// Renders a template with a context (`Tera::render`); `None` where the
/// engine reports an error. The text depends on the templates that were
/// loaded into the engine, so nothing is promised of it.
#[verifier::external_body]
fn render_template(tera: &tera::Tera, name: &str, context: &tera::Context) -> (r: Option<String>) {
    tera.render(name, context).ok()
}

// ---------------------------------------------------------------------------
// Finding components
// ---------------------------------------------------------------------------

/// Whether `tag` is a start tag of the element called `name`.
pub open spec fn opens(tag: Seq<char>, name: Seq<char>) -> bool {
    has_prefix(tag, "<"@ + name + " "@) || tag == "<"@ + name + ">"@
}

/// The end tag of the element called `name`.
pub open spec fn end_tag(name: Seq<char>) -> Seq<char> {
    "</"@ + name + ">"@
}

/// The elements that are components also when written by hand.
pub open spec fn is_raw_media(name: Seq<char>) -> bool {
    ||| name == "video"@
    ||| name == "audio"@
    ||| name == "source"@
    ||| name == "iframe"@
    ||| name == "embed"@
    ||| name == "object"@
    ||| name == "track"@
}

/// Whether `tag` starts a component called `name`: it opens that element
/// and carries the marker, or the element is a media element.
pub open spec fn is_component_start(tag: Seq<char>, name: Seq<char>) -> bool {
    opens(tag, name) && (contains(tag, " data-md"@) || is_raw_media(name))
}

/// The content of the element whose start tag ends before `j`, and the
/// index behind its end tag, where `depth` elements of that name are open
/// at `j`. Every `<` opens a tag that runs to the next `>`; a start tag of
/// the same name opens one more element, the end tag closes one. An
/// element that is never closed runs to the end of the text.
pub open spec fn element_body(html: Seq<char>, j: int, depth: nat, name: Seq<char>) -> (
    Seq<char>,
    int,
)
    decreases html.len() - j,
{
    if j < 0 || j >= html.len() {
        (Seq::empty(), html.len() as int)
    } else if html[j] != '<' {
        let rest = element_body(html, j + 1, depth, name);
        (seq![html[j]] + rest.0, rest.1)
    } else {
        match index_from(html, '>', j + 1) {
            None => (html.skip(j), html.len() as int),
            Some(g) => if g <= j || g >= html.len() {
                (html.skip(j), html.len() as int)
            } else {
                let tag = html.subrange(j, g + 1);
                if tag == end_tag(name) {
                    if depth <= 1 {
                        (Seq::empty(), g + 1)
                    } else {
                        let rest = element_body(html, g + 1, (depth - 1) as nat, name);
                        (tag + rest.0, rest.1)
                    }
                } else if opens(tag, name) {
                    let rest = element_body(html, g + 1, depth + 1, name);
                    (tag + rest.0, rest.1)
                } else {
                    let rest = element_body(html, g + 1, depth, name);
                    (tag + rest.0, rest.1)
                }
            },
        }
    }
}

/// A component found in a document: where it starts and ends, its start
/// tag, and its content.
pub struct ComponentView {
    pub start: int,
    pub end: int,
    pub tag: Seq<char>,
    pub inner: Seq<char>,
}

/// The components called `name` in `html` from index `pos` on, in order.
/// Components inside a component are part of its content.
pub open spec fn components_from(html: Seq<char>, pos: int, name: Seq<char>) -> Seq<ComponentView>
    decreases html.len() - pos,
{
    if pos < 0 || pos >= html.len() {
        Seq::empty()
    } else if html[pos] != '<' {
        components_from(html, pos + 1, name)
    } else {
        match tag_end_from(html, pos, None) {
            None => Seq::empty(),
            Some(close) => if close < pos || close >= html.len() {
                Seq::empty()
            } else {
                let tag = html.subrange(pos, close + 1);
                if is_component_start(tag, name) {
                    let body = if has_suffix(tag, "/>"@) {
                        (Seq::<char>::empty(), close + 1)
                    } else {
                        element_body(html, close + 1, 1, name)
                    };
                    if body.1 <= close || body.1 > html.len() {
                        Seq::empty()
                    } else {
                        seq![ComponentView { start: pos, end: body.1, tag, inner: body.0 }]
                            + components_from(html, body.1, name)
                    }
                } else {
                    components_from(html, close + 1, name)
                }
            },
        }
    }
}

/// The components called `name` in `html`.
pub open spec fn components(html: Seq<char>, name: Seq<char>) -> Seq<ComponentView> {
    components_from(html, 0, name)
}

/// A component found in a document.
#[derive(Debug)]
pub struct Component {
    pub start: usize,
    pub end: usize,
    pub tag: String,
    pub inner: String,
}

impl View for Component {
    type V = ComponentView;

    open spec fn view(&self) -> ComponentView {
        ComponentView {
            start: self.start as int,
            end: self.end as int,
            tag: self.tag@,
            inner: self.inner@,
        }
    }
}

/// The views of a list of components.
pub open spec fn component_views(cs: Seq<Component>) -> Seq<ComponentView> {
    cs.map_values(|c: Component| c@)
}

/// The components lie one behind the other inside a text of length `len`.
pub open spec fn in_order(cs: Seq<ComponentView>, len: int) -> bool {
    &&& forall|i: int| 0 <= i < cs.len() ==> 0 <= #[trigger] cs[i].start < cs[i].end <= len
    &&& forall|i: int, j: int| 0 <= i < j < cs.len() ==> cs[i].end <= cs[j].start
}

fn opens_element(tag: &Vec<char>, name: &Vec<char>) -> (b: bool)
    ensures
        b == opens(tag@, name@),
{
    let mut spaced = chars_of("<");
    append(&mut spaced, name);
    let mut closed = chars_of("<");
    append(&mut closed, name);
    append_str(&mut spaced, " ");
    append_str(&mut closed, ">");
    starts_with(tag, &spaced) || same(tag, &closed)
}

fn is_raw_media_name(name: &Vec<char>) -> (b: bool)
    ensures
        b == is_raw_media(name@),
{
    is_str(name, "video") || is_str(name, "audio") || is_str(name, "source") || is_str(
        name,
        "iframe",
    ) || is_str(name, "embed") || is_str(name, "object") || is_str(name, "track")
}

/// Reads the content of the element whose start tag ends before `from`.
fn read_element_body(html: &Vec<char>, from: usize, name: &Vec<char>) -> (r: (Vec<char>, usize))
    requires
        1 <= from <= html.len(),
    ensures
        (r.0@, r.1 as int) == element_body(html@, from as int, 1, name@),
        from <= r.1 <= html.len(),
{
    let mut close = chars_of("</");
    append(&mut close, name);
    append_str(&mut close, ">");
    let mut inner: Vec<char> = Vec::new();
    let mut depth: usize = 1;
    let mut j: usize = from;
    let ghost goal = element_body(html@, from as int, 1, name@);
    assert(inner@ + goal.0 =~= goal.0);
    while j < html.len()
        invariant
            1 <= from <= j <= html.len(),
            1 <= depth <= j - from + 1,
            close@ == end_tag(name@),
            goal == element_body(html@, from as int, 1, name@),
            inner@ + element_body(html@, j as int, depth as nat, name@).0 == goal.0,
            element_body(html@, j as int, depth as nat, name@).1 == goal.1,
        decreases html.len() - j,
    {
        let ghost before = inner@;
        if html[j] != '<' {
            inner.push(html[j]);
            j += 1;
            assert(before.push(html@[j - 1]) + element_body(
                html@,
                j as int,
                depth as nat,
                name@,
            ).0 =~= before + (seq![html@[j - 1]] + element_body(
                html@,
                j as int,
                depth as nat,
                name@,
            ).0));
        } else {
            match find_char(html, '>', j + 1) {
                None => {
                    let rest = slice(html, j, html.len());
                    assert(rest@ =~= html@.skip(j as int));
                    append(&mut inner, &rest);
                    return (inner, html.len());
                },
                Some(g) => {
                    let tag = slice(html, j, g + 1);
                    if same(&tag, &close) {
                        if depth <= 1 {
                            assert(before + Seq::<char>::empty() =~= before);
                            return (inner, g + 1);
                        }
                        depth -= 1;
                    } else if opens_element(&tag, name) {
                        depth += 1;
                    }
                    append(&mut inner, &tag);
                    j = g + 1;
                    assert(before + tag@ + element_body(html@, j as int, depth as nat, name@).0
                        =~= before + (tag@ + element_body(
                        html@,
                        j as int,
                        depth as nat,
                        name@,
                    ).0));
                },
            }
        }
    }
    assert(inner@ + Seq::<char>::empty() =~= inner@);
    (inner, html.len())
}

/// Finds the components called `name` in `html`.
pub fn find_components(html: &Vec<char>, name: &Vec<char>) -> (r: Vec<Component>)
    ensures
        component_views(r@) == components(html@, name@),
        in_order(component_views(r@), html.len() as int),
{
    let mut found: Vec<Component> = Vec::new();
    let mut pos: usize = 0;
    let raw = is_raw_media_name(name);
    assert(component_views(found@) =~= Seq::<ComponentView>::empty());
    while pos < html.len()
        invariant
            pos <= html.len(),
            raw == is_raw_media(name@),
            component_views(found@) + components_from(html@, pos as int, name@) == components(
                html@,
                name@,
            ),
            in_order(component_views(found@), pos as int),
        decreases html.len() - pos,
    {
        let ghost before = component_views(found@);
        if html[pos] != '<' {
            proof {
                lemma_in_order_widens(before, pos as int, pos + 1);
            }
            pos += 1;
        } else {
            match Renderer::find_tag_end(html, pos) {
                None => {
                    assert(before + Seq::<ComponentView>::empty() =~= before);
                    proof {
                        lemma_in_order_widens(before, pos as int, html.len() as int);
                    }
                    return found;
                },
                Some(close) => {
                    let tag = slice(html, pos, close + 1);
                    if opens_element(&tag, name) && (contains_str(&tag, " data-md") || raw) {
                        let (inner, end) = if ends_with_str(&tag, "/>") {
                            (Vec::new(), close + 1)
                        } else {
                            read_element_body(html, close + 1, name)
                        };
                        let c = Component {
                            start: pos,
                            end,
                            tag: string_of(&tag),
                            inner: string_of(&inner),
                        };
                        let ghost cv = c@;
                        found.push(c);
                        assert(component_views(found@) =~= before.push(cv));
                        proof {
                            lemma_in_order_push(before, cv, pos as int, end as int);
                        }
                        assert(before.push(cv) + components_from(html@, end as int, name@)
                            =~= before + (seq![cv] + components_from(html@, end as int, name@)));
                        pos = end;
                    } else {
                        proof {
                            lemma_in_order_widens(before, pos as int, close + 1);
                        }
                        pos = close + 1;
                    }
                },
            }
        }
    }
    assert(component_views(found@) + Seq::<ComponentView>::empty() =~= component_views(found@));
    found
}

proof fn lemma_in_order_push(cs: Seq<ComponentView>, c: ComponentView, len: int, wider: int)
    requires
        in_order(cs, len),
        0 <= len <= c.start < c.end <= wider,
    ensures
        in_order(cs.push(c), wider),
{
    let pushed = cs.push(c);
    assert forall|i: int| 0 <= i < pushed.len() implies 0 <= #[trigger] pushed[i].start
        < pushed[i].end <= wider by {
        if i < cs.len() {
            assert(pushed[i] == cs[i]);
            assert(0 <= cs[i].start < cs[i].end <= len);
        }
    }
    assert forall|i: int, j: int| 0 <= i < j < pushed.len() implies pushed[i].end
        <= pushed[j].start by {
        assert(pushed[i] == cs[i]);
        assert(0 <= cs[i].start < cs[i].end <= len);
        if j < cs.len() {
            assert(pushed[j] == cs[j]);
        }
    }
}

proof fn lemma_in_order_widens(cs: Seq<ComponentView>, len: int, wider: int)
    requires
        in_order(cs, len),
        len <= wider,
    ensures
        in_order(cs, wider),
{
    assert forall|i: int| 0 <= i < cs.len() implies 0 <= #[trigger] cs[i].start < cs[i].end
        <= wider by {
        assert(0 <= cs[i].start < cs[i].end <= len);
    }
}

// ---------------------------------------------------------------------------
// Substituting
// ---------------------------------------------------------------------------

/// The rendering of the component at index `i`; `None` where the list has
/// none for it.
pub open spec fn rendering_at(renderings: Seq<Option<Seq<char>>>, i: int) -> Option<Seq<char>> {
    if 0 <= i < renderings.len() {
        renderings[i]
    } else {
        None
    }
}

/// Where the text in front of the component at index `k` starts.
pub open spec fn gap_start(cs: Seq<ComponentView>, k: int) -> int {
    if k <= 0 || k > cs.len() {
        0
    } else {
        cs[k - 1].end
    }
}

/// The text up to the end of the first `k` components, each component
/// replaced by its rendering, or left as it is where it has none.
pub open spec fn substituted(
    html: Seq<char>,
    cs: Seq<ComponentView>,
    renderings: Seq<Option<Seq<char>>>,
    k: int,
) -> Seq<char>
    decreases k,
{
    if k <= 0 || k > cs.len() {
        Seq::empty()
    } else {
        let c = cs[k - 1];
        substituted(html, cs, renderings, k - 1) + html.subrange(gap_start(cs, k - 1), c.start) + (
        match rendering_at(renderings, k - 1) {
            Some(r) => r,
            None => html.subrange(c.start, c.end),
        })
    }
}

/// The whole text with every component replaced by its rendering.
pub open spec fn with_components(
    html: Seq<char>,
    cs: Seq<ComponentView>,
    renderings: Seq<Option<Seq<char>>>,
) -> Seq<char> {
    substituted(html, cs, renderings, cs.len() as int) + html.skip(gap_start(cs, cs.len() as int))
}

/// The texts of a list of renderings.
pub open spec fn rendering_views(rs: Seq<Option<String>>) -> Seq<Option<Seq<char>>> {
    rs.map_values(
        |r: Option<String>|
            match r {
                Some(s) => Some(s@),
                None => None,
            },
    )
}

/// Replaces the components called `tag_name` in `html` by their renderings,
/// given in the order of the components. A component without rendering
/// stays as it is.
pub fn substitute_components(html: &str, tag_name: &str, renderings: &Vec<Option<String>>) -> (r:
    String)
    ensures
        r@ == with_components(
            html@,
            components(html@, tag_name@),
            rendering_views(renderings@),
        ),
{
    let h = chars_of(html);
    let name = chars_of(tag_name);
    let found = find_components(&h, &name);
    string_of(&splice(&h, &found, renderings))
}

fn splice(html: &Vec<char>, found: &Vec<Component>, renderings: &Vec<Option<String>>) -> (r: Vec<
    char,
>)
    requires
        in_order(component_views(found@), html.len() as int),
    ensures
        r@ == with_components(html@, component_views(found@), rendering_views(renderings@)),
{
    let ghost cs = component_views(found@);
    let ghost rs = rendering_views(renderings@);
    let mut out: Vec<char> = Vec::new();
    let mut k: usize = 0;
    let mut from: usize = 0;
    while k < found.len()
        invariant
            k <= found.len(),
            cs == component_views(found@),
            rs == rendering_views(renderings@),
            in_order(cs, html.len() as int),
            from == gap_start(cs, k as int),
            from <= html.len(),
            out@ == substituted(html@, cs, rs, k as int),
        decreases found.len() - k,
    {
        let ghost before = out@;
        let c = &found[k];
        assert(cs[k as int] == c@);
        proof {
            if k > 0 {
                assert(cs[k - 1].end <= cs[k as int].start);
            }
        }
        let gap = slice(html, from, c.start);
        append(&mut out, &gap);
        let rendered: Option<&String> = if k < renderings.len() {
            match &renderings[k] {
                Some(s) => Some(s),
                None => None,
            }
        } else {
            None
        };
        match rendered {
            Some(s) => {
                assert(rs[k as int] == Some(s@));
                append_str(&mut out, s.as_str());
            },
            None => {
                assert(rendering_at(rs, k as int) is None) by {
                    if k < renderings.len() {
                        assert(rs[k as int] == None::<Seq<char>>);
                    }
                }
                let own = slice(html, c.start, c.end);
                append(&mut out, &own);
            },
        }
        from = c.end;
        k += 1;
    }
    let rest = slice(html, from, html.len());
    assert(rest@ =~= html@.skip(from as int));
    append(&mut out, &rest);
    out
}

// ---------------------------------------------------------------------------
// Contexts
// ---------------------------------------------------------------------------

/// What the attributes of a start tag put into a context: every attribute
/// but the marker under its name, references resolved against `category`.
pub open spec fn attribute_entries(pairs: Seq<(Seq<char>, Seq<char>)>, category: Seq<char>) -> Map<
    Seq<char>,
    ContextValue,
>
    decreases pairs.len(),
{
    if pairs.len() == 0 {
        Map::empty()
    } else {
        let rest = attribute_entries(pairs.drop_last(), category);
        let key = pairs.last().0;
        let value = pairs.last().1;
        if key == "data-md"@ {
            rest
        } else if is_url_name(key) {
            rest.insert(key, ContextValue::Text(resolved_path(value, category)))
        } else {
            rest.insert(key, ContextValue::Text(value))
        }
    }
}

/// What the image pipeline adds to the context of an image.
pub open spec fn image_entries(
    entries: Map<Seq<char>, ContextValue>,
    image: Option<ImageMetadataView>,
) -> Map<Seq<char>, ContextValue> {
    match image {
        None => entries.insert("has_srcset"@, ContextValue::Flag(false)),
        Some(m) => entries.insert("cdn_src"@, ContextValue::Text(m.src)).insert(
            "lqip"@,
            ContextValue::Text(m.lqip),
        ).insert("sources"@, ContextValue::Sources(m.sources)).insert(
            "webp_sources"@,
            ContextValue::Sources(m.webp_sources),
        ).insert("width"@, ContextValue::Number(m.width as nat)).insert(
            "height"@,
            ContextValue::Number(m.height as nat),
        ).insert("has_srcset"@, ContextValue::Flag(true)),
    }
}

/// What a component hands to its template: its attributes, for an image
/// what the image pipeline knows of it, and its content where it has any.
pub open spec fn component_entries(
    pairs: Seq<(Seq<char>, Seq<char>)>,
    category: Seq<char>,
    is_image: bool,
    image: Option<ImageMetadataView>,
    inner: Seq<char>,
) -> Map<Seq<char>, ContextValue> {
    let attrs = attribute_entries(pairs, category);
    let with_image = if is_image {
        image_entries(attrs, image)
    } else {
        attrs
    };
    if inner.len() > 0 {
        with_image.insert("content"@, ContextValue::Text(inner))
    } else {
        with_image
    }
}

fn insert_attributes(context: &mut tera::Context, attrs: &Attributes, category: &Vec<char>)
    requires
        context_entries(*old(context)) == Map::<Seq<char>, ContextValue>::empty(),
    ensures
        context_entries(*final(context)) == attribute_entries(attrs.pairs(), category@),
{
    let ghost pairs = attrs.pairs();
    let mut i: usize = 0;
    assert(pairs.take(0) =~= Seq::<(Seq<char>, Seq<char>)>::empty());
    while i < attrs.entries.len()
        invariant
            i <= attrs.entries.len(),
            pairs == attrs.pairs(),
            context_entries(*context) == attribute_entries(pairs.take(i as int), category@),
        decreases attrs.entries.len() - i,
    {
        assert(pairs.take(i + 1).drop_last() =~= pairs.take(i as int));
        assert(pairs.take(i + 1).last() == (attrs.entries@[i as int].0@, attrs.entries@[i as int].1@));
        let key = &attrs.entries[i].0;
        let value = &attrs.entries[i].1;
        if !str_eq(key.as_str(), "data-md") {
            if is_url_attribute_chars(&chars_of(key.as_str())) {
                let resolved = resolve_path_chars(&chars_of(value.as_str()), category);
                insert_text(context, key.as_str(), string_of(&resolved).as_str());
            } else {
                insert_text(context, key.as_str(), value.as_str());
            }
        }
        i += 1;
    }
    assert(pairs.take(attrs.entries.len() as int) =~= pairs);
}

fn insert_image(context: &mut tera::Context, image: &Option<ImageMetadata>)
    ensures
        context_entries(*final(context)) == image_entries(
            context_entries(*old(context)),
            image_view(*image),
        ),
{
    match image {
        None => {
            insert_flag(context, "has_srcset", false);
        },
        Some(m) => {
            insert_text(context, "cdn_src", m.src.as_str());
            insert_text(context, "lqip", m.lqip.as_str());
            insert_sources(context, "sources", &m.sources);
            insert_sources(context, "webp_sources", &m.webp_sources);
            insert_number(context, "width", m.width);
            insert_number(context, "height", m.height);
            insert_flag(context, "has_srcset", true);
        },
    }
}

/// The context that a component hands to its template.
pub fn component_context(
    attrs: &Attributes,
    category: &str,
    is_image: bool,
    image: &Option<ImageMetadata>,
    inner: &str,
) -> (r: tera::Context)
    ensures
        context_entries(r) == component_entries(
            attrs.pairs(),
            category@,
            is_image,
            image_view(*image),
            inner@,
        ),
{
    let mut context = new_context();
    insert_attributes(&mut context, attrs, &chars_of(category));
    if is_image {
        insert_image(&mut context, image);
    }
    if chars_of(inner).len() > 0 {
        insert_text(&mut context, "content", inner);
    }
    context
}

// ---------------------------------------------------------------------------
// The pass
// ---------------------------------------------------------------------------

/// The category of a document, read off the base path of its references:
/// what stands before the last `/`, or all of it where it has none.
pub open spec fn base_category(base_path: Seq<char>) -> Seq<char> {
    match crate::text::rfind(base_path, "/"@) {
        Some(i) => base_path.take(i),
        None => base_path,
    }
}

/// The category of a document, read off the base path of its references.
pub fn category_of_base(base_path: &str) -> (r: String)
    ensures
        r@ == base_category(base_path@),
{
    let b = chars_of(base_path);
    match crate::text::rfind_str(&b, "/") {
        Some(i) => {
            let r = slice(&b, 0, i);
            assert(r@ =~= b@.take(i as int));
            string_of(&r)
        },
        None => string_of(&b),
    }
}

/// The reference that an image component is looked up by: the value of its
/// `src` attribute as written, or the empty reference where it has none.
pub open spec fn image_reference(pairs: Seq<(Seq<char>, Seq<char>)>) -> Seq<char> {
    match lookup(pairs, "src"@) {
        Some(v) => v,
        None => Seq::empty(),
    }
}

/// What the component pass needs besides the document.
pub struct TagReplacementContext<'a> {
    pub tera: &'a tera::Tera,
    pub template_name: &'a str,
    pub category: &'a str,
    pub base_path: &'a str,
    pub image_processor: Option<&'a ImageProcessor>,
    pub content_dir: Option<&'a str>,
    pub catalog: &'a ImageCatalog,
}

impl<'a> TagReplacementContext<'a> {
    /// The directory of the documents of the category.
    pub open spec fn document_dir(&self) -> Seq<char> {
        match self.content_dir {
            Some(dir) => local_path(strip_trailing(strip_leading(self.category@, '/'), '/'), dir@),
            None => Seq::empty(),
        }
    }

    /// What the image pipeline knows of the image that a component with the
    /// given attributes shows: nothing without image processor or content
    /// directory, and otherwise what the processor makes of the
    /// component's `src` as written.
    pub open spec fn image_for(&self, pairs: Seq<(Seq<char>, Seq<char>)>) -> Option<
        ImageMetadataView,
    > {
        match (self.image_processor, self.content_dir) {
            (Some(p), Some(_)) => processed_image(
                p.cdn(),
                image_reference(pairs),
                self.catalog.size_of(local_path(image_reference(pairs), self.document_dir())),
                self.base_path@,
            ),
            _ => None,
        }
    }

    /// What a component hands to its template: the attributes of its start
    /// tag, for an image what the image pipeline knows of it, and its
    /// content where it has any.
    pub open spec fn entries_for(&self, component: ComponentView, is_image: bool) -> Map<
        Seq<char>,
        ContextValue,
    > {
        let pairs = tag_attributes(component.tag);
        component_entries(
            pairs,
            self.category@,
            is_image,
            if is_image {
                self.image_for(pairs)
            } else {
                None
            },
            component.inner,
        )
    }

    /// What the image pipeline knows of the image that a component shows.
    pub fn image_of(&self, attrs: &Attributes) -> (r: Option<ImageMetadata>)
        ensures
            image_view(r) == self.image_for(attrs.pairs()),
    {
        match (self.image_processor, self.content_dir) {
            (Some(processor), Some(content_dir)) => {
                let src = match attrs.get("src") {
                    Some(v) => v.clone(),
                    None => String::new(),
                };
                let cat = strip_trailing_char(
                    &strip_leading_char(&chars_of(self.category), '/'),
                    '/',
                );
                let dir = processor.resolve_local_path(string_of(&cat).as_str(), content_dir);
                processor.process_image_in(
                    src.as_str(),
                    dir.as_str(),
                    self.base_path,
                    self.catalog,
                )
            },
            _ => None,
        }
    }

    /// The context that a component hands to its template.
    pub fn context_for(&self, component: &Component, is_image: bool) -> (r: tera::Context)
        ensures
            context_entries(r) == self.entries_for(component@, is_image),
    {
        let attrs = extract_attributes_chars(&chars_of(component.tag.as_str()));
        let image = if is_image {
            self.image_of(&attrs)
        } else {
            None
        };
        component_context(&attrs, self.category, is_image, &image, component.inner.as_str())
    }

    /// Renders one component through the template of its kind, with the
    /// context that the component hands to it; `None` where the template
    /// fails.
    fn render_component(&self, component: &Component, is_image: bool) -> (r: Option<String>) {
        let context = self.context_for(component, is_image);
        render_template(self.tera, self.template_name, &context)
    }
}

/// The name of the template that renders the components called `tag`.
pub open spec fn template_of(tag: Seq<char>) -> Seq<char> {
    "components/"@ + tag + ".html"@
}

/// The name of the template that renders the components called `tag`.
pub fn component_template(tag: &str) -> (r: String)
    ensures
        r@ == template_of(tag@),
{
    let mut name = chars_of("components/");
    append_str(&mut name, tag);
    append_str(&mut name, ".html");
    string_of(&name)
}

/// The names of the elements that can be components, in the order in which
/// the pass takes them.
pub open spec fn component_names() -> Seq<Seq<char>> {
    seq![
        "img"@,
        "code"@,
        "pre"@,
        "blockquote"@,
        "table"@,
        "a"@,
        "h1"@,
        "h2"@,
        "h3"@,
        "h4"@,
        "h5"@,
        "h6"@,
        "p"@,
        "ul"@,
        "ol"@,
        "li"@,
        "strong"@,
        "em"@,
        "del"@,
        "iframe"@,
    ]
}

/// The names as strings.
pub open spec fn name_views(names: Seq<&'static str>) -> Seq<Seq<char>> {
    names.map_values(|n: &'static str| n@)
}

/// The names of the elements that can be components, in the order in which
/// the pass takes them.
pub fn component_tags() -> (r: Vec<&'static str>)
    ensures
        name_views(r@) == component_names(),
{
    let mut r: Vec<&'static str> = Vec::new();
    r.push("img");
    r.push("code");
    r.push("pre");
    r.push("blockquote");
    r.push("table");
    r.push("a");
    r.push("h1");
    r.push("h2");
    r.push("h3");
    r.push("h4");
    r.push("h5");
    r.push("h6");
    r.push("p");
    r.push("ul");
    r.push("ol");
    r.push("li");
    r.push("strong");
    r.push("em");
    r.push("del");
    r.push("iframe");
    assert(name_views(r@) =~= component_names());
    r
}

/// Whether `after` can come of `before` by the pass over the components
/// called `tag`: every component is replaced by what its template renders,
/// or stays where the template fails; where the kind has no template, the
/// document stays as it is.
pub open spec fn one_pass(before: Seq<char>, after: Seq<char>, tag: Seq<char>) -> bool {
    after == before || exists|renderings: Seq<Option<Seq<char>>>|
        renderings.len() == components(before, tag).len() && after == with_components(
            before,
            components(before, tag),
            renderings,
        )
}

/// Whether `after` can come of `html` by the passes over the kinds `tags`,
/// one after the other, each on what the pass before it left.
pub open spec fn substituted_through(html: Seq<char>, after: Seq<char>, tags: Seq<Seq<char>>) -> bool
    decreases tags.len(),
{
    if tags.len() == 0 {
        after == html
    } else {
        exists|middle: Seq<char>|
            substituted_through(html, middle, tags.drop_last()) && one_pass(
                middle,
                after,
                tags.last(),
            )
    }
}

impl Renderer {
    /// Renders every component called `tag_name` through its template. A
    /// component whose template fails stays as it is.
    pub fn replace_tag(html: &str, tag_name: &str, ctx: &TagReplacementContext) -> (r: String)
        ensures
            exists|renderings: Seq<Option<Seq<char>>>|
                renderings.len() == components(html@, tag_name@).len() && r@ == with_components(
                    html@,
                    components(html@, tag_name@),
                    renderings,
                ),
    {
        let h = chars_of(html);
        let name = chars_of(tag_name);
        let found = find_components(&h, &name);
        let is_image = is_str(&name, "img");
        let mut renderings: Vec<Option<String>> = Vec::new();
        let mut i: usize = 0;
        while i < found.len()
            invariant
                i <= found.len(),
                renderings.len() == i,
            decreases found.len() - i,
        {
            renderings.push(ctx.render_component(&found[i], is_image));
            i += 1;
        }
        let r = splice(&h, &found, &renderings);
        assert(rendering_views(renderings@).len() == components(html@, tag_name@).len());
        string_of(&r)
    }

    /// What follows the component pass: the references of hand-written
    /// media tags are resolved, and the markers are removed.
    pub fn finish(html: &str, category: &str) -> (r: String)
        ensures
            r@ == sanitized(raw_html_resolved(html@, category@)),
    {
        Self::sanitize(Self::resolve_raw_html_paths(html, category).as_str())
    }

    /// The passes that follow highlighting: components are rendered
    /// through their templates, the references of hand-written media tags
    /// are resolved against the document's category, and the markers are
    /// removed. Whatever the templates render, the last two passes are
    /// applied to it.
    pub fn post_process_components(
        html: &str,
        tera: &tera::Tera,
        base_path: &str,
        cdn_url: Option<&str>,
        content_dir: Option<&str>,
        catalog: &ImageCatalog,
    ) -> (r: String)
        ensures
            exists|substituted: Seq<char>|
                substituted_through(html@, substituted, component_names()) && r@ == sanitized(
                    raw_html_resolved(substituted, base_category(base_path@)),
                ),
    {
        let processor = match cdn_url {
            Some(url) => Some(ImageProcessor::new(Some(owned(url)))),
            None => None,
        };
        let with_components = Self::substitute_all(
            html,
            tera,
            base_path,
            processor.as_ref(),
            content_dir,
            catalog,
        );
        let category = category_of_base(base_path);
        Self::finish(with_components.as_str(), category.as_str())
    }

    /// Renders a Markdown document without images from the CDN.
    pub fn render_markdown_with_components(
        &self,
        markdown: &str,
        tera: &tera::Tera,
        base_path: &str,
    ) -> (r: Result<String, RenderError>)
        ensures
            r matches Ok(html) && exists|events: Seq<MdEvent>, substituted: Seq<char>|
                event_views(events) == parsed_markdown(markdown@) && substituted_through(
                    highlighted(emitted(events)),
                    substituted,
                    component_names(),
                ) && html@ == sanitized(
                    raw_html_resolved(substituted, base_category(base_path@)),
                ),
    {
        let catalog = ImageCatalog::new();
        self.render_markdown_with_components_and_images(
            markdown,
            tera,
            base_path,
            None,
            None,
            &catalog,
        )
    }

    /// Renders a Markdown document: structural emission, highlighting,
    /// component substitution, resolution of hand-written references, and
    /// removal of the markers.
    pub fn render_markdown_with_components_and_images(
        &self,
        markdown: &str,
        tera: &tera::Tera,
        base_path: &str,
        cdn_url: Option<&str>,
        content_dir: Option<&str>,
        catalog: &ImageCatalog,
    ) -> (r: Result<String, RenderError>)
        ensures
            r matches Ok(html) && exists|events: Seq<MdEvent>, substituted: Seq<char>|
                event_views(events) == parsed_markdown(markdown@) && substituted_through(
                    highlighted(emitted(events)),
                    substituted,
                    component_names(),
                ) && html@ == sanitized(
                    raw_html_resolved(substituted, base_category(base_path@)),
                ),
    {
        let marked = self.render_markdown(markdown);
        Ok(
            Self::post_process_components(
                marked.as_str(),
                tera,
                base_path,
                cdn_url,
                content_dir,
                catalog,
            ),
        )
    }

    /// The component pass: the kinds of components are taken in their
    /// order, and every kind that has a template is rendered through it,
    /// on what the kinds before it left.
    fn substitute_all(html: &str, ctx_tera: &tera::Tera, base_path: &str, image_processor: Option<
        &ImageProcessor,
    >, content_dir: Option<&str>, catalog: &ImageCatalog) -> (r: String)
        ensures
            substituted_through(html@, r@, component_names()),
    {
        let category = category_of_base(base_path);
        let tags = component_tags();
        let ghost names = component_names();
        let mut result = owned(html);
        let mut i: usize = 0;
        assert(names.take(0).len() == 0);
        while i < tags.len()
            invariant
                i <= tags.len(),
                names == component_names(),
                name_views(tags@) == names,
                substituted_through(html@, result@, names.take(i as int)),
            decreases tags.len() - i,
        {
            let ghost before = result@;
            let template = component_template(tags[i]);
            assert(names[i as int] == tags@[i as int]@);
            if has_template(ctx_tera, template.as_str()) {
                let ctx = TagReplacementContext {
                    tera: ctx_tera,
                    template_name: template.as_str(),
                    category: category.as_str(),
                    base_path,
                    image_processor,
                    content_dir,
                    catalog,
                };
                result = Self::replace_tag(result.as_str(), tags[i], &ctx);
            }
            proof {
                assert(one_pass(before, result@, names[i as int]));
                assert(names.take(i + 1).drop_last() =~= names.take(i as int));
                assert(names.take(i + 1).last() == names[i as int]);
            }
            i += 1;
        }
        assert(names.take(tags.len() as int) =~= names);
        result
    }
}

} // verus!
