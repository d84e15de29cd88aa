//! The attributes of one HTML start tag.

use crate::text::{
    chars_of, find_char, index_of, is_str, slice, str_eq, string_of, strip_leading,
    strip_leading_char, strip_trailing, strip_trailing_char,
};
use vstd::prelude::*;

verus! {

/// Where a scan over attribute text stops.
pub enum Stop {
    /// At the first character that is not a blank.
    NotBlank,
    /// At the first blank.
    Blank,
    /// At the first blank or `=`.
    BlankOrEquals,
    /// At the first occurrence of the given character.
    Is(char),
}

/// Whether a scan stops at the character.
pub open spec fn stops_at(stop: Stop, c: char) -> bool {
    match stop {
        Stop::NotBlank => c != ' ',
        Stop::Blank => c == ' ',
        Stop::BlankOrEquals => c == ' ' || c == '=',
        Stop::Is(q) => c == q,
    }
}

/// The first index at or after `i` whose character stops the scan; the
/// length of `a` where none does.
pub open spec fn scan(a: Seq<char>, i: int, stop: Stop) -> int
    decreases a.len() - i,
{
    if i < 0 || i >= a.len() {
        i
    } else if stops_at(stop, a[i]) {
        i
    } else {
        scan(a, i + 1, stop)
    }
}

/// A scan ends in the text, at the first character from `i` on that stops
/// it, or at the end.
pub proof fn lemma_scan_bounds(a: Seq<char>, i: int, stop: Stop)
    requires
        0 <= i <= a.len(),
    ensures
        i <= scan(a, i, stop) <= a.len(),
        scan(a, i, stop) < a.len() ==> stops_at(stop, a[scan(a, i, stop)]),
        forall|j: int| i <= j < scan(a, i, stop) ==> !stops_at(stop, #[trigger] a[j]),
    decreases a.len() - i,
{
    if i < a.len() && !stops_at(stop, a[i]) {
        lemma_scan_bounds(a, i + 1, stop);
    }
}

/// Where the attribute that starts at or after `i` ends, with its name and
/// value; `None` where no attribute name starts there.
///
/// A name runs up to a blank or `=`. Without `=` the value is `true`. After
/// `=` a value in single or double quotation marks runs up to the matching
/// mark, any other value up to the next blank.
pub open spec fn attribute_at(a: Seq<char>, i: int) -> Option<(int, Seq<char>, Seq<char>)> {
    let name_from = scan(a, i, Stop::NotBlank);
    let name_to = scan(a, name_from, Stop::BlankOrEquals);
    let after_name = scan(a, name_to, Stop::NotBlank);
    if name_to <= name_from {
        None
    } else if after_name >= a.len() || a[after_name] != '=' {
        Some((after_name, a.subrange(name_from, name_to), "true"@))
    } else {
        let value_from = scan(a, after_name + 1, Stop::NotBlank);
        if value_from < a.len() && (a[value_from] == '"' || a[value_from] == '\'') {
            let value_to = scan(a, value_from + 1, Stop::Is(a[value_from]));
            let next = if value_to < a.len() {
                value_to + 1
            } else {
                value_to
            };
            Some((next, a.subrange(name_from, name_to), a.subrange(value_from + 1, value_to)))
        } else {
            let value_to = scan(a, value_from, Stop::Blank);
            Some((value_to, a.subrange(name_from, name_to), a.subrange(value_from, value_to)))
        }
    }
}

/// An attribute that is read at `i` ends behind `i` and in the text.
pub proof fn lemma_attribute_advances(a: Seq<char>, i: int)
    requires
        0 <= i <= a.len(),
    ensures
        attribute_at(a, i) matches Some(found) ==> i < found.0 <= a.len(),
{
    let name_from = scan(a, i, Stop::NotBlank);
    lemma_scan_bounds(a, i, Stop::NotBlank);
    let name_to = scan(a, name_from, Stop::BlankOrEquals);
    lemma_scan_bounds(a, name_from, Stop::BlankOrEquals);
    let after_name = scan(a, name_to, Stop::NotBlank);
    lemma_scan_bounds(a, name_to, Stop::NotBlank);
    if name_to > name_from && after_name < a.len() && a[after_name] == '=' {
        let value_from = scan(a, after_name + 1, Stop::NotBlank);
        lemma_scan_bounds(a, after_name + 1, Stop::NotBlank);
        if value_from < a.len() && (a[value_from] == '"' || a[value_from] == '\'') {
            lemma_scan_bounds(a, value_from + 1, Stop::Is(a[value_from]));
        } else {
            lemma_scan_bounds(a, value_from, Stop::Blank);
        }
    }
}

/// The attributes written in `a` from index `i` on, in the order written.
pub open spec fn attributes_from(a: Seq<char>, i: int) -> Seq<(Seq<char>, Seq<char>)>
    decreases a.len() - i,
    when 0 <= i <= a.len()
    via attributes_from_decreases
{
    match attribute_at(a, i) {
        None => Seq::empty(),
        Some(found) => seq![(found.1, found.2)] + attributes_from(a, found.0),
    }
}

#[via_fn]
proof fn attributes_from_decreases(a: Seq<char>, i: int) {
    lemma_attribute_advances(a, i);
}

/// What follows the tag's name: the tag without its angle brackets and a
/// closing `/`, from behind the first blank on. `None` where the tag holds
/// no blank.
pub open spec fn attribute_text(tag: Seq<char>) -> Option<Seq<char>> {
    let inner = strip_trailing(strip_trailing(strip_leading(tag, '<'), '>'), '/');
    match index_of(inner, ' ') {
        None => None,
        Some(i) => Some(inner.skip(i + 1)),
    }
}

/// The attributes of a start tag, in the order written.
pub open spec fn tag_attributes(tag: Seq<char>) -> Seq<(Seq<char>, Seq<char>)> {
    match attribute_text(tag) {
        None => Seq::empty(),
        Some(a) => attributes_from(a, 0),
    }
}

/// The value that a list of attributes gives to `key`: the one written last.
pub open spec fn lookup(pairs: Seq<(Seq<char>, Seq<char>)>, key: Seq<char>) -> Option<Seq<char>>
    decreases pairs.len(),
{
    if pairs.len() == 0 {
        None
    } else if pairs.last().0 == key {
        Some(pairs.last().1)
    } else {
        lookup(pairs.drop_last(), key)
    }
}

/// Attribute names with their values, in the order written. A name written
/// twice has the value written last.
pub struct Attributes {
    pub entries: Vec<(String, String)>,
}

impl Attributes {
    /// The names and values, in the order written.
    pub open spec fn pairs(&self) -> Seq<(Seq<char>, Seq<char>)> {
        self.entries@.map_values(|e: (String, String)| (e.0@, e.1@))
    }

    /// A start tag without attributes.
    pub fn new() -> (r: Self)
        ensures
            r.pairs() == Seq::<(Seq<char>, Seq<char>)>::empty(),
    {
        let r = Attributes { entries: Vec::new() };
        assert(r.pairs() =~= Seq::<(Seq<char>, Seq<char>)>::empty());
        r
    }

    /// Adds an attribute behind those written so far.
    pub fn insert(&mut self, key: String, value: String)
        ensures
            final(self).pairs() == old(self).pairs().push((key@, value@)),
    {
        self.entries.push((key, value));
        assert(self.pairs() =~= old(self).pairs().push((key@, value@)));
    }

    /// The number of attributes written, names written twice counted twice.
    pub fn len(&self) -> (n: usize)
        ensures
            n == self.pairs().len(),
    {
        self.entries.len()
    }

    /// The value of `key`, or `None` where the tag does not have it.
    pub fn get(&self, key: &str) -> (r: Option<&String>)
        ensures
            match r {
                Some(v) => lookup(self.pairs(), key@) == Some(v@),
                None => lookup(self.pairs(), key@) is None,
            },
    {
        let mut n: usize = self.entries.len();
        assert(self.pairs().take(n as int) =~= self.pairs());
        while n > 0
            invariant
                n <= self.entries.len(),
                lookup(self.pairs(), key@) == lookup(self.pairs().take(n as int), key@),
            decreases n,
        {
            assert(self.pairs().take(n as int).drop_last() =~= self.pairs().take(n - 1));
            assert(self.pairs().take(n as int).last() == (
                self.entries@[n - 1].0@,
                self.entries@[n - 1].1@,
            ));
            if str_eq(self.entries[n - 1].0.as_str(), key) {
                return Some(&self.entries[n - 1].1);
            }
            n -= 1;
        }
        None
    }
}

fn scan_to(a: &Vec<char>, from: usize, stop: Stop) -> (r: usize)
    requires
        from <= a.len(),
    ensures
        r == scan(a@, from as int, stop),
        from <= r <= a.len(),
{
    let mut i: usize = from;
    while i < a.len()
        invariant
            from <= i <= a.len(),
            scan(a@, from as int, stop) == scan(a@, i as int, stop),
        decreases a.len() - i,
    {
        let c = a[i];
        let hit = match stop {
            Stop::NotBlank => c != ' ',
            Stop::Blank => c == ' ',
            Stop::BlankOrEquals => c == ' ' || c == '=',
            Stop::Is(q) => c == q,
        };
        if hit {
            return i;
        }
        i += 1;
    }
    i
}

/// Reads the attribute that starts at or after `from`.
fn read_attribute(a: &Vec<char>, from: usize) -> (r: Option<(usize, String, String)>)
    requires
        from <= a.len(),
    ensures
        match r {
            Some(found) => attribute_at(a@, from as int) == Some(
                (found.0 as int, found.1@, found.2@),
            ) && from < found.0 <= a.len(),
            None => attribute_at(a@, from as int) is None,
        },
{
    proof {
        lemma_attribute_advances(a@, from as int);
    }
    let name_from = scan_to(a, from, Stop::NotBlank);
    let name_to = scan_to(a, name_from, Stop::BlankOrEquals);
    let after_name = scan_to(a, name_to, Stop::NotBlank);
    if name_to <= name_from {
        return None;
    }
    let name = string_of(&slice(a, name_from, name_to));
    if after_name >= a.len() || a[after_name] != '=' {
        let value = string_of(&chars_of("true"));
        return Some((after_name, name, value));
    }
    let value_from = scan_to(a, after_name + 1, Stop::NotBlank);
    if value_from < a.len() && (a[value_from] == '"' || a[value_from] == '\'') {
        let value_to = scan_to(a, value_from + 1, Stop::Is(a[value_from]));
        let value = string_of(&slice(a, value_from + 1, value_to));
        let next: usize = if value_to < a.len() {
            value_to + 1
        } else {
            value_to
        };
        Some((next, name, value))
    } else {
        let value_to = scan_to(a, value_from, Stop::Blank);
        let value = string_of(&slice(a, value_from, value_to));
        Some((value_to, name, value))
    }
}

/// The attributes of a start tag.
pub fn extract_attributes_chars(tag: &Vec<char>) -> (r: Attributes)
    ensures
        r.pairs() == tag_attributes(tag@),
{
    let mut attrs = Attributes::new();
    let a = strip_leading_char(tag, '<');
    let b = strip_trailing_char(&a, '>');
    let inner = strip_trailing_char(&b, '/');
    let text = match find_char(&inner, ' ', 0) {
        None => {
            assert(inner@.skip(0) =~= inner@);
            return attrs;
        },
        Some(i) => {
            assert(inner@.skip(0) =~= inner@);
            assert(inner@.skip(i + 1) =~= inner@.subrange(i + 1, inner.len() as int));
            slice(&inner, i + 1, inner.len())
        },
    };
    let mut pos: usize = 0;
    loop
        invariant
            pos <= text.len(),
            attrs.pairs() + attributes_from(text@, pos as int) == tag_attributes(tag@),
        decreases text.len() - pos,
    {
        let ghost before = attrs.pairs();
        match read_attribute(&text, pos) {
            None => {
                assert(before + Seq::<(Seq<char>, Seq<char>)>::empty() =~= before);
                return attrs;
            },
            Some((next, name, value)) => {
                assert(before.push((name@, value@)) + attributes_from(text@, next as int)
                    =~= before + (seq![(name@, value@)] + attributes_from(text@, next as int)));
                attrs.insert(name, value);
                pos = next;
            },
        }
    }
}

/// Whether an attribute of this name holds a reference to resolve.
pub open spec fn is_url_name(name: Seq<char>) -> bool {
    name == "src"@ || name == "href"@ || name == "data"@ || name == "poster"@ || name
        == "srcset"@
}

/// Whether an attribute of this name holds a reference to resolve.
pub fn is_url_attribute_chars(name: &Vec<char>) -> (b: bool)
    ensures
        b == is_url_name(name@),
{
    is_str(name, "src") || is_str(name, "href") || is_str(name, "data") || is_str(name, "poster")
        || is_str(name, "srcset")
}

} // verus!
