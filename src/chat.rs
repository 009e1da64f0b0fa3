//! Chat components: a JSON tree of text, translations and child
//! components, rendered to styled pieces of text.

use vstd::prelude::*;
use crate::error::ProtocolError;
use crate::style::{ansi_text, palette, mc_colors, minecraft_to_ansi, Styles};
use crate::text::{chars_of, str_eq, string_of};

verus! {

/// A JSON value, as chat components are written.
pub enum Json {
    Null,
    Bool(bool),
    /// A number, kept as its JSON text.
    Number(String),
    Str(String),
    Array(Vec<Json>),
    /// The members of an object, in order, keys unique.
    Object(Vec<(String, Json)>),
}

/// A piece of rendered text and the style to draw it in.
#[derive(Debug, Clone)]
pub struct Segment {
    pub text: String,
    pub style: Styles,
}

/// The mathematical value of a `Segment`.
pub struct SegmentView {
    pub text: Seq<char>,
    pub style: Styles,
}

impl View for Segment {
    type V = SegmentView;

    open spec fn view(&self) -> SegmentView {
        SegmentView { text: self.text@, style: self.style }
    }
}

pub open spec fn segment(text: Seq<char>, style: Styles) -> SegmentView {
    SegmentView { text, style }
}

/// The segments of a vector.
pub open spec fn segments_view(v: Seq<Segment>) -> Seq<SegmentView> {
    v.map_values(|s: Segment| s@)
}

/// The characters of each string of a vector.
pub open spec fn strings_view(v: Seq<String>) -> Seq<Seq<char>> {
    v.map_values(|s: String| s@)
}

/// The position of the first member named `key` at or after `i`, or -1.
pub open spec fn field_index(fields: Seq<(String, Json)>, key: Seq<char>, i: int) -> int
    decreases fields.len() - i,
{
    if i < 0 || i >= fields.len() {
        -1
    } else if fields[i].0@ == key {
        i
    } else {
        field_index(fields, key, i + 1)
    }
}

/// The value of the member named `key`, if any.
pub open spec fn field(fields: Seq<(String, Json)>, key: Seq<char>) -> Option<Json> {
    let k = field_index(fields, key, 0);
    if 0 <= k < fields.len() {
        Some(fields[k].1)
    } else {
        None
    }
}

proof fn lemma_field_index_range(fields: Seq<(String, Json)>, key: Seq<char>, i: int)
    requires
        0 <= i,
    ensures
        field_index(fields, key, i) == -1 || i <= field_index(fields, key, i) < fields.len(),
    decreases fields.len() - i,
{
    if i < fields.len() && fields[i].0@ != key {
        lemma_field_index_range(fields, key, i + 1);
    }
}

/// Finds the member named `key`.
pub fn find_field(fields: &Vec<(String, Json)>, key: &str) -> (r: Option<usize>)
    ensures
        match r {
            Some(k) => k == field_index(fields@, key@, 0) && k < fields@.len(),
            None => field_index(fields@, key@, 0) == -1,
        },
{
    let mut i: usize = 0;
    while i < fields.len()
        invariant
            i <= fields@.len(),
            field_index(fields@, key@, 0) == field_index(fields@, key@, i as int),
        decreases fields@.len() - i,
    {
        if str_eq(fields[i].0.as_str(), key) {
            return Some(i);
        }
        i += 1;
    }
    None
}

/// The style of an object component: each attribute it sets explicitly
/// wins, the others are inherited.
pub open spec fn object_style(fields: Seq<(String, Json)>, inherited: Styles) -> Styles {
    let (fg, bg) = match field(fields, "color"@) {
        Some(Json::Str(c)) => palette(c@),
        _ => (inherited.foreground, inherited.background),
    };
    Styles {
        bold: match field(fields, "bold"@) {
            Some(Json::Bool(b)) => b,
            _ => inherited.bold,
        },
        italic: match field(fields, "italic"@) {
            Some(Json::Bool(b)) => b,
            _ => inherited.italic,
        },
        underlined: match field(fields, "underlined"@) {
            Some(Json::Bool(b)) => b,
            _ => inherited.underlined,
        },
        strikethrough: match field(fields, "strikethrough"@) {
            Some(Json::Bool(b)) => b,
            _ => inherited.strikethrough,
        },
        foreground: fg,
        background: bg,
    }
}

/// The style of a component: that of an object, or the inherited one.
pub open spec fn component_style(j: Json, inherited: Styles) -> Styles {
    match j {
        Json::Object(f) => object_style(f@, inherited),
        _ => inherited,
    }
}

fn bool_field(fields: &Vec<(String, Json)>, key: &str, inherited: bool) -> (r: bool)
    ensures
        r == match field(fields@, key@) {
            Some(Json::Bool(b)) => b,
            _ => inherited,
        },
{
    match find_field(fields, key) {
        Some(k) => match &fields[k].1 {
            Json::Bool(b) => *b,
            _ => inherited,
        },
        None => inherited,
    }
}

impl Styles {
    /// The style of a component that inherits `inherited_format`: each
    /// attribute the component sets explicitly wins, the others are
    /// inherited.
    pub fn from_obj(json_obj: &Json, inherited_format: &Styles) -> (r: Styles)
        ensures
            r == component_style(*json_obj, *inherited_format),
    {
        let mut text_format = Styles::from_styles(inherited_format);
        match json_obj {
            Json::Object(fields) => {
                match find_field(fields, "color") {
                    Some(k) => match &fields[k].1 {
                        Json::Str(c) => {
                            let (fg, bg) = mc_colors(c.as_str());
                            text_format.foreground = fg;
                            text_format.background = bg;
                        },
                        _ => {},
                    },
                    None => {},
                }
                text_format.bold = bool_field(fields, "bold", text_format.bold);
                text_format.italic = bool_field(fields, "italic", text_format.italic);
                text_format.underlined = bool_field(fields, "underlined", text_format.underlined);
                text_format.strikethrough = bool_field(
                    fields,
                    "strikethrough",
                    text_format.strikethrough,
                );
            },
            _ => {},
        }
        text_format
    }
}

/// Whether `c` is a decimal digit from 1 to 9.
pub open spec fn is_index_digit(c: char) -> bool {
    '1' <= c && c <= '9'
}

/// A translation template with its placeholders filled from `reps`: `%%`
/// is a literal percent sign; `%s` takes the next unused replacement
/// (counted by `next`), while there is one; `%k$s` takes replacement `k`
/// (from 1), when there is one; any other character stands as it is.
pub open spec fn substitute(t: Seq<char>, reps: Seq<Seq<char>>, next: nat) -> Seq<char>
    decreases t.len(),
{
    if t.len() == 0 {
        Seq::empty()
    } else if t[0] == '%' && t.len() >= 2 && t[1] == '%' {
        seq!['%'] + substitute(t.subrange(2, t.len() as int), reps, next)
    } else if t[0] == '%' && t.len() >= 2 && t[1] == 's' && next < reps.len() {
        reps[next as int] + substitute(t.subrange(2, t.len() as int), reps, next + 1)
    } else if t[0] == '%' && t.len() >= 4 && is_index_digit(t[1]) && t[2] == '$' && t[3] == 's'
        && (t[1] as u32 - '0' as u32) <= reps.len() {
        reps[(t[1] as u32 - '1' as u32) as int] + substitute(t.subrange(4, t.len() as int), reps, next)
    } else {
        seq![t[0]] + substitute(t.subrange(1, t.len() as int), reps, next)
    }
}

fn append_chars(out: &mut Vec<char>, s: &String)
    ensures
        final(out)@ == old(out)@ + s@,
{
    let cs = chars_of(s.as_str());
    let mut i: usize = 0;
    while i < cs.len()
        invariant
            i <= cs@.len(),
            cs@ == s@,
            out@ == old(out)@ + cs@.subrange(0, i as int),
        decreases cs@.len() - i,
    {
        out.push(cs[i]);
        proof {
            assert(cs@.subrange(0, i + 1) =~= cs@.subrange(0, i as int).push(cs@[i as int]));
        }
        i += 1;
    }
    proof {
        assert(cs@.subrange(0, cs@.len() as int) =~= cs@);
    }
}

/// Fills the placeholders of a translation template: `%s` takes the
/// replacements in order, `%k$s` takes replacement `k`, and `%%` becomes a
/// literal percent sign.
pub fn replace_placeholders(message: &str, replacements: &[String]) -> (r: String)
    ensures
        r@ == substitute(message@, strings_view(replacements@), 0),
{
    let t = chars_of(message);
    let ghost reps = strings_view(replacements@);
    let n = t.len();
    let mut out: Vec<char> = Vec::new();
    let mut i: usize = 0;
    let mut next: usize = 0;
    proof {
        assert(t@.subrange(0, n as int) =~= t@);
    }
    while i < n
        invariant
            i <= n,
            n == t@.len(),
            t@ == message@,
            reps == strings_view(replacements@),
            next <= replacements@.len(),
            out@ + substitute(t@.subrange(i as int, n as int), reps, next as nat) == substitute(
                t@,
                reps,
                0,
            ),
        decreases n - i,
    {
        let ghost rest = t@.subrange(i as int, n as int);
        let ghost prev = out@;
        let c = t[i];
        if c == '%' && i + 1 < n && t[i + 1] == '%' {
            out.push('%');
            proof {
                assert(rest.subrange(2, rest.len() as int) =~= t@.subrange(i + 2, n as int));
                assert(out@ + substitute(t@.subrange(i + 2, n as int), reps, next as nat)
                    =~= prev + substitute(rest, reps, next as nat));
            }
            i = i + 2;
        } else if c == '%' && i + 1 < n && t[i + 1] == 's' && next < replacements.len() {
            append_chars(&mut out, &replacements[next]);
            proof {
                assert(rest.subrange(2, rest.len() as int) =~= t@.subrange(i + 2, n as int));
                assert(out@ + substitute(t@.subrange(i + 2, n as int), reps, (next + 1) as nat)
                    =~= prev + substitute(rest, reps, next as nat));
            }
            i = i + 2;
            next = next + 1;
        } else if c == '%' && n - i > 3 && '1' <= t[i + 1] && t[i + 1] <= '9' && t[i + 2] == '$'
            && t[i + 3] == 's' && (t[i + 1] as u32 - '0' as u32) as usize <= replacements.len() {
            let k = (t[i + 1] as u32 - '1' as u32) as usize;
            append_chars(&mut out, &replacements[k]);
            proof {
                assert(rest.subrange(4, rest.len() as int) =~= t@.subrange(i + 4, n as int));
                assert(out@ + substitute(t@.subrange(i + 4, n as int), reps, next as nat)
                    =~= prev + substitute(rest, reps, next as nat));
            }
            i = i + 4;
        } else {
            out.push(c);
            proof {
                assert(rest.subrange(1, rest.len() as int) =~= t@.subrange(i + 1, n as int));
                assert(out@ + substitute(t@.subrange(i + 1, n as int), reps, next as nat)
                    =~= prev + substitute(rest, reps, next as nat));
            }
            i = i + 1;
        }
    }
    proof {
        assert(out@ + substitute(t@.subrange(n as int, n as int), reps, next as nat) =~= out@);
    }
    string_of(out.as_slice())
}

/// The plain strings that a `with` value contributes as replacements: a
/// string itself; an object its `text` string, then those of its `extra`
/// object or array; an array those of its items, in order. Styles play no
/// part.
pub open spec fn with_texts(j: Json) -> Seq<Seq<char>>
    decreases j,
{
    match j {
        Json::Str(s) => seq![s@],
        Json::Array(v) => with_texts_list(v@, 0),
        Json::Object(f) => {
            let t = field_index(f@, "text"@, 0);
            let own = if 0 <= t < f@.len() {
                match f@[t].1 {
                    Json::Str(s) => seq![s@],
                    _ => Seq::empty(),
                }
            } else {
                Seq::empty()
            };
            let e = field_index(f@, "extra"@, 0);
            let extra = if 0 <= e < f@.len() {
                match f@[e].1 {
                    Json::Object(_) => with_texts(f@[e].1),
                    Json::Array(_) => with_texts(f@[e].1),
                    _ => Seq::empty(),
                }
            } else {
                Seq::empty()
            };
            own + extra
        },
        _ => Seq::empty(),
    }
}

/// The replacement strings of the items of an array from position `i`.
pub open spec fn with_texts_list(items: Seq<Json>, i: int) -> Seq<Seq<char>>
    decreases items, items.len() - i,
{
    if i < 0 || i >= items.len() {
        Seq::empty()
    } else {
        with_texts(items[i]) + with_texts_list(items, i + 1)
    }
}

fn push_string(out: &mut Vec<String>, s: &String)
    ensures
        strings_view(final(out)@) == strings_view(old(out)@).push(s@),
{
    let copy = string_of(chars_of(s.as_str()).as_slice());
    out.push(copy);
    proof {
        assert(strings_view(final(out)@) =~= strings_view(old(out)@).push(s@));
    }
}

fn append_strings(out: &mut Vec<String>, more: Vec<String>)
    ensures
        strings_view(final(out)@) == strings_view(old(out)@) + strings_view(more@),
{
    let ghost base = out@;
    let mut i: usize = 0;
    let n = more.len();
    while i < n
        invariant
            i <= n,
            n == more@.len(),
            strings_view(out@) == strings_view(base) + strings_view(more@).subrange(0, i as int),
        decreases n - i,
    {
        push_string(out, &more[i]);
        proof {
            assert(strings_view(more@).subrange(0, i + 1) =~= strings_view(more@).subrange(
                0,
                i as int,
            ).push(more@[i as int]@));
        }
        i += 1;
    }
    proof {
        assert(strings_view(more@).subrange(0, n as int) =~= strings_view(more@));
    }
}

/// The replacement strings of a `with` value.
pub fn with_strings(with: &Json) -> (r: Vec<String>)
    ensures
        strings_view(r@) == with_texts(*with),
    decreases with,
{
    match with {
        Json::Object(fields) => {
            let mut out: Vec<String> = Vec::new();
            match find_field(fields, "text") {
                Some(t) => match &fields[t].1 {
                    Json::Str(s) => push_string(&mut out, s),
                    _ => {},
                },
                None => {},
            }
            let ghost own = strings_view(out@);
            proof {
                if field_index(fields@, "text"@, 0) == -1 {
                    assert(own =~= Seq::<Seq<char>>::empty());
                }
            }
            match find_field(fields, "extra") {
                Some(e) => {
                    let extra = &fields[e].1;
                    proof {
                        assert(decreases_to!(fields => fields@[e as int]));
                    }
                    match extra {
                        Json::Object(_) => {
                            let more = with_strings(extra);
                            append_strings(&mut out, more);
                        },
                        Json::Array(_) => {
                            let more = with_strings(extra);
                            append_strings(&mut out, more);
                        },
                        _ => {
                            proof {
                                assert(strings_view(out@) =~= own + Seq::<Seq<char>>::empty());
                            }
                        },
                    }
                },
                None => {
                    proof {
                        assert(strings_view(out@) =~= own + Seq::<Seq<char>>::empty());
                    }
                },
            }
            out
        },
        Json::Array(items) => with_strings_list(items, 0),
        Json::Str(s) => {
            let mut out: Vec<String> = Vec::new();
            push_string(&mut out, s);
            proof {
                assert(strings_view(out@) =~= seq![s@]);
            }
            out
        },
        _ => {
            let out: Vec<String> = Vec::new();
            proof {
                assert(strings_view(out@) =~= Seq::<Seq<char>>::empty());
            }
            out
        },
    }
}

/// The replacement strings of the items of an array from position `i`.
fn with_strings_list(items: &Vec<Json>, i: usize) -> (r: Vec<String>)
    ensures
        strings_view(r@) == with_texts_list(items@, i as int),
    decreases items, items@.len() - i,
{
    if i >= items.len() {
        let out: Vec<String> = Vec::new();
        proof {
            assert(strings_view(out@) =~= Seq::<Seq<char>>::empty());
        }
        return out;
    }
    proof {
        assert(decreases_to!(items => items@[i as int]));
    }
    let mut out = with_strings(&items[i]);
    let more = with_strings_list(items, i + 1);
    append_strings(&mut out, more);
    out
}

/// The replacement strings of a `with` value given as an object: its
/// `text`, then those of its `extra`; nothing for a value of another kind.
pub fn parse_with_obj(with: &Json) -> (r: Vec<String>)
    ensures
        with is Object ==> strings_view(r@) == with_texts(*with),
        !(with is Object) ==> r@.len() == 0,
{
    match with {
        Json::Object(_) => with_strings(with),
        _ => Vec::new(),
    }
}

/// The replacement strings of a `with` value given as an array: those of
/// its items, in order; nothing for a value of another kind.
pub fn parse_with_array(with: &Json) -> (r: Vec<String>)
    ensures
        with is Array ==> strings_view(r@) == with_texts(*with),
        !(with is Array) ==> r@.len() == 0,
{
    match with {
        Json::Array(_) => with_strings(with),
        _ => Vec::new(),
    }
}

/// The position of the first entry for `key` at or after `i`, or -1.
pub open spec fn translation_index(table: Seq<(String, String)>, key: Seq<char>, i: int) -> int
    decreases table.len() - i,
{
    if i < 0 || i >= table.len() {
        -1
    } else if table[i].0@ == key {
        i
    } else {
        translation_index(table, key, i + 1)
    }
}

/// The template for `key` with its placeholders filled from the strings of
/// `with`; an error when the table has no entry for `key`.
pub open spec fn translated(key: Seq<char>, with: Json, table: Seq<(String, String)>) -> Result<Seq<char>, ProtocolError> {
    let k = translation_index(table, key, 0);
    if 0 <= k < table.len() {
        Ok(substitute(table[k].1@, with_texts(with), 0))
    } else {
        Err(ProtocolError::TranslationNotFound)
    }
}

fn find_translation(table: &[(String, String)], key: &str) -> (r: Option<usize>)
    ensures
        match r {
            Some(k) => k == translation_index(table@, key@, 0) && k < table@.len(),
            None => translation_index(table@, key@, 0) == -1,
        },
{
    let mut i: usize = 0;
    while i < table.len()
        invariant
            i <= table@.len(),
            translation_index(table@, key@, 0) == translation_index(table@, key@, i as int),
        decreases table@.len() - i,
    {
        if str_eq(table[i].0.as_str(), key) {
            return Some(i);
        }
        i += 1;
    }
    None
}

/// Looks up `translation` in the table (key, template) and fills the
/// template's placeholders with the plain strings of `with`.
pub fn translate(translation: &str, with: &Json, table: &[(String, String)]) -> (r: Result<String, ProtocolError>)
    ensures
        match translated(translation@, *with, table@) {
            Ok(t) => r matches Ok(s) && s@ == t,
            Err(e) => r matches Err(f) && f == e,
        },
{
    match find_translation(table, translation) {
        None => Err(ProtocolError::TranslationNotFound),
        Some(k) => {
            let args = with_strings(with);
            Ok(replace_placeholders(table[k].1.as_str(), args.as_slice()))
        },
    }
}

/// The `with` member of an object, or null.
pub open spec fn with_value(fields: Seq<(String, Json)>) -> Json {
    match field(fields, "with"@) {
        Some(w) => w,
        None => Json::Null,
    }
}

/// The segment an object component contributes itself: its `text`, or else
/// its translated `translate` key, in the object's style.
pub open spec fn own_segments(fields: Seq<(String, Json)>, st: Styles, table: Seq<(String, String)>) -> Result<Seq<SegmentView>, ProtocolError> {
    match field(fields, "text"@) {
        Some(Json::Str(s)) => Ok(seq![segment(ansi_text(s@), st)]),
        _ => match field(fields, "translate"@) {
            Some(Json::Str(k)) => match translated(k@, with_value(fields), table) {
                Ok(t) => Ok(seq![segment(ansi_text(t), st)]),
                Err(e) => Err(e),
            },
            _ => Ok(Seq::empty()),
        },
    }
}

/// Joins two rendering results.
pub open spec fn join_segments(
    a: Result<Seq<SegmentView>, ProtocolError>,
    b: Result<Seq<SegmentView>, ProtocolError>,
) -> Result<Seq<SegmentView>, ProtocolError> {
    match a {
        Err(e) => Err(e),
        Ok(x) => match b {
            Err(e) => Err(e),
            Ok(y) => Ok(x + y),
        },
    }
}

/// The styled text of a component, in pre-order: a string in the inherited
/// style; an array its items, each inheriting the same style; an object
/// its own text (or translation) in its resolved style, then its `extra`
/// children, which inherit that resolved style.
pub open spec fn render(j: Json, inherited: Styles, table: Seq<(String, String)>) -> Result<Seq<SegmentView>, ProtocolError>
    decreases j,
{
    match j {
        Json::Str(s) => Ok(seq![segment(ansi_text(s@), inherited)]),
        Json::Array(v) => render_list(v@, 0, inherited, table),
        Json::Object(f) => {
            let st = object_style(f@, inherited);
            let e = field_index(f@, "extra"@, 0);
            let extra = if 0 <= e < f@.len() {
                match f@[e].1 {
                    Json::Object(_) => render(f@[e].1, st, table),
                    Json::Array(_) => render(f@[e].1, st, table),
                    _ => Ok(Seq::empty()),
                }
            } else {
                Ok(Seq::empty())
            };
            join_segments(own_segments(f@, st, table), extra)
        },
        _ => Ok(Seq::empty()),
    }
}

/// The styled text of the items of an array from position `i`.
pub open spec fn render_list(items: Seq<Json>, i: int, inherited: Styles, table: Seq<(String, String)>) -> Result<Seq<SegmentView>, ProtocolError>
    decreases items, items.len() - i,
{
    if i < 0 || i >= items.len() {
        Ok(Seq::empty())
    } else {
        join_segments(render(items[i], inherited, table), render_list(items, i + 1, inherited, table))
    }
}

fn text_segment(s: &String, style: Styles) -> (r: Segment)
    ensures
        r@ == segment(ansi_text(s@), style),
{
    Segment { text: minecraft_to_ansi(s.clone()), style }
}

fn one_segment(seg: Segment) -> (r: Vec<Segment>)
    ensures
        segments_view(r@) == seq![seg@],
{
    let mut out: Vec<Segment> = Vec::new();
    out.push(seg);
    proof {
        assert(segments_view(out@) =~= seq![seg@]);
    }
    out
}

fn no_segments() -> (r: Vec<Segment>)
    ensures
        segments_view(r@) == Seq::<SegmentView>::empty(),
{
    let out: Vec<Segment> = Vec::new();
    proof {
        assert(segments_view(out@) =~= Seq::<SegmentView>::empty());
    }
    out
}

fn join(a: Vec<Segment>, b: Vec<Segment>) -> (r: Vec<Segment>)
    ensures
        segments_view(r@) == segments_view(a@) + segments_view(b@),
{
    let mut a = a;
    let mut b = b;
    let ghost a0 = a@;
    let ghost b0 = b@;
    a.append(&mut b);
    proof {
        assert(segments_view(a@) =~= segments_view(a0) + segments_view(b0));
    }
    a
}

fn own_component_segments(fields: &Vec<(String, Json)>, st: Styles, table: &[(String, String)]) -> (r: Result<Vec<Segment>, ProtocolError>)
    ensures
        match own_segments(fields@, st, table@) {
            Ok(x) => r matches Ok(v) && segments_view(v@) == x,
            Err(e) => r matches Err(f) && f == e,
        },
{
    match find_field(fields, "text") {
        Some(t) => match &fields[t].1 {
            Json::Str(s) => {
                return Ok(one_segment(text_segment(s, st)));
            },
            _ => {},
        },
        None => {},
    }
    match find_field(fields, "translate") {
        Some(k) => match &fields[k].1 {
            Json::Str(key) => {
                let null = Json::Null;
                let with = match find_field(fields, "with") {
                    Some(w) => &fields[w].1,
                    None => &null,
                };
                match translate(key.as_str(), with, table) {
                    Ok(t) => Ok(one_segment(text_segment(&t, st))),
                    Err(e) => Err(e),
                }
            },
            _ => Ok(no_segments()),
        },
        None => Ok(no_segments()),
    }
}

fn render_component(j: &Json, inherited: Styles, table: &[(String, String)]) -> (r: Result<Vec<Segment>, ProtocolError>)
    ensures
        match render(*j, inherited, table@) {
            Ok(x) => r matches Ok(v) && segments_view(v@) == x,
            Err(e) => r matches Err(f) && f == e,
        },
    decreases j,
{
    match j {
        Json::Str(s) => Ok(one_segment(text_segment(s, inherited))),
        Json::Array(items) => render_items(items, 0, inherited, table),
        Json::Object(fields) => {
            let st = Styles::from_obj(j, &inherited);
            let own = match own_component_segments(fields, st, table) {
                Ok(v) => v,
                Err(e) => return Err(e),
            };
            let extra = match find_field(fields, "extra") {
                Some(e) => {
                    let child = &fields[e].1;
                    proof {
                        assert(decreases_to!(fields => fields@[e as int]));
                    }
                    match child {
                        Json::Object(_) => render_component(child, st, table),
                        Json::Array(_) => render_component(child, st, table),
                        _ => Ok(no_segments()),
                    }
                },
                None => Ok(no_segments()),
            };
            match extra {
                Ok(v) => Ok(join(own, v)),
                Err(e) => Err(e),
            }
        },
        _ => Ok(no_segments()),
    }
}

fn render_items(items: &Vec<Json>, i: usize, inherited: Styles, table: &[(String, String)]) -> (r: Result<Vec<Segment>, ProtocolError>)
    ensures
        match render_list(items@, i as int, inherited, table@) {
            Ok(x) => r matches Ok(v) && segments_view(v@) == x,
            Err(e) => r matches Err(f) && f == e,
        },
    decreases items, items@.len() - i,
{
    if i >= items.len() {
        return Ok(no_segments());
    }
    proof {
        assert(decreases_to!(items => items@[i as int]));
    }
    let first = match render_component(&items[i], inherited, table) {
        Ok(v) => v,
        Err(e) => return Err(e),
    };
    match render_items(items, i + 1, inherited, table) {
        Ok(v) => Ok(join(first, v)),
        Err(e) => Err(e),
    }
}

/// Renders a chat component that inherits `inherited_format` to styled
/// text, in pre-order, resolving translations through `table`.
pub fn parse_json_obj(json_obj: &Json, inherited_format: &Styles, table: &[(String, String)]) -> (r: Result<Vec<Segment>, ProtocolError>)
    ensures
        match render(*json_obj, *inherited_format, table@) {
            Ok(x) => r matches Ok(v) && segments_view(v@) == x,
            Err(e) => r matches Err(f) && f == e,
        },
{
    render_component(json_obj, *inherited_format, table)
}

/// Renders the items of an array of chat components, each inheriting
/// `inherited_format`; nothing for a value that is not an array.
pub fn parse_json_array(json_array: &Json, inherited_format: &Styles, table: &[(String, String)]) -> (r: Result<Vec<Segment>, ProtocolError>)
    ensures
        json_array is Array ==> match render(*json_array, *inherited_format, table@) {
            Ok(x) => r matches Ok(v) && segments_view(v@) == x,
            Err(e) => r matches Err(f) && f == e,
        },
        !(json_array is Array) ==> (r matches Ok(v) && v@.len() == 0),
{
    match json_array {
        Json::Array(items) => render_items(items, 0, *inherited_format, table),
        _ => Ok(Vec::new()),
    }
}

/// A child component inherits every attribute it does not set: its
/// resolved style keeps the parent's value of each attribute whose member
/// it lacks, and takes the value of each boolean member it has.
pub proof fn lemma_style_inheritance(fields: Seq<(String, Json)>, parent: Styles)
    ensures
        field(fields, "bold"@) is None ==> object_style(fields, parent).bold == parent.bold,
        field(fields, "italic"@) is None ==> object_style(fields, parent).italic == parent.italic,
        field(fields, "underlined"@) is None ==> object_style(fields, parent).underlined
            == parent.underlined,
        field(fields, "strikethrough"@) is None ==> object_style(fields, parent).strikethrough
            == parent.strikethrough,
        field(fields, "color"@) is None ==> object_style(fields, parent).foreground
            == parent.foreground && object_style(fields, parent).background == parent.background,
        field(fields, "italic"@) matches Some(Json::Bool(b)) ==> object_style(fields, parent).italic
            == b,
        field(fields, "bold"@) matches Some(Json::Bool(b)) ==> object_style(fields, parent).bold
            == b,
{
}

} // verus!
