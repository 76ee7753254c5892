//! JSON values laid out as styled lines for the detail views, and search
//! highlighting over such lines.
//!
//! Layout: two spaces of indentation per level, `[]` and `{}` for empty
//! containers, a member whose value is a scalar or an empty container on
//! one line, and a member holding a container opening it on the member's
//! line.

use vstd::prelude::*;
use crate::json::{JsonNumber, JsonValue};
use crate::status::Color;
use crate::text::{
    chars_of, contains, contains_seq, dec, idec, lower_of, occurs_at, occurs_at_exec, push_chars, push_dec, push_idec,
    push_str, string_of, to_lower,
};

verus! {

/// How a piece of a line is shown.
#[derive(Debug, Clone, Copy, PartialEq, Eq, Structural)]
pub enum SpanStyle {
    /// Indentation and unstyled text.
    Plain,
    /// An object member's name.
    Key,
    /// A string value.
    Text,
    Number,
    Boolean,
    Null,
    /// Brackets, braces, colons and commas.
    Punct,
    /// Text that matches a search.
    Highlight,
    /// Bold in the default colour.
    Emph,
    /// Bold in a colour.
    Bold(Color),
    /// In a colour.
    Fg(Color),
    /// White.
    Bright,
    /// White and bold.
    BrightBold,
    /// Bold black on a background of a colour.
    Badge(Color),
    /// Bold with foreground and background swapped.
    Reversed,
    /// Dimmed.
    Dim,
}

/// A piece of a line with one style.
#[derive(Debug, Clone)]
pub struct Span {
    pub text: String,
    pub style: SpanStyle,
}

/// A line of styled pieces.
#[derive(Debug, Clone)]
pub struct Line {
    pub spans: Vec<Span>,
}

/// A line as text and style pairs.
pub open spec fn line_view(l: Line) -> Seq<(Seq<char>, SpanStyle)> {
    l.spans@.map_values(|s: Span| (s.text@, s.style))
}

/// Lines as text and style pairs.
pub open spec fn lines_view(ls: Seq<Line>) -> Seq<Seq<(Seq<char>, SpanStyle)>> {
    ls.map_values(|l: Line| line_view(l))
}

/// A text in double quotes.
pub open spec fn quoted(s: Seq<char>) -> Seq<char> {
    seq!['"'] + s + seq!['"']
}

/// A string with its newlines and carriage returns written as `\n` and
/// `\r`.
pub open spec fn escaped(s: Seq<char>) -> Seq<char>
    decreases s.len(),
{
    if s.len() == 0 {
        Seq::empty()
    } else {
        escaped(s.drop_last()) + if s.last() == '\n' {
            seq!['\\', 'n']
        } else if s.last() == '\r' {
            seq!['\\', 'r']
        } else {
            seq![s.last()]
        }
    }
}

/// The text of a number.
pub open spec fn number_text(n: JsonNumber) -> Seq<char> {
    match n {
        JsonNumber::PosInt(u) => dec(u as nat),
        JsonNumber::NegInt(i) => idec(i as int),
        JsonNumber::Float(t) => t@,
    }
}

/// A scalar or an empty container: shown on one line.
pub open spec fn is_simple(v: JsonValue) -> bool {
    match v {
        JsonValue::Array(a) => a@.len() == 0,
        JsonValue::Object(m) => m@.len() == 0,
        _ => true,
    }
}

/// The number of items or members of a container.
pub open spec fn child_count(v: JsonValue) -> nat {
    match v {
        JsonValue::Array(a) => a@.len(),
        JsonValue::Object(m) => m@.len(),
        _ => 0,
    }
}

/// The piece showing a scalar or an empty container.
pub open spec fn value_span(v: JsonValue) -> (Seq<char>, SpanStyle) {
    match v {
        JsonValue::Null => ("null"@, SpanStyle::Null),
        JsonValue::Bool(b) => (if b { "true"@ } else { "false"@ }, SpanStyle::Boolean),
        JsonValue::Number(n) => (number_text(n), SpanStyle::Number),
        JsonValue::String(s) => (quoted(escaped(s@)), SpanStyle::Text),
        JsonValue::Array(_) => ("[]"@, SpanStyle::Punct),
        JsonValue::Object(_) => ("{}"@, SpanStyle::Punct),
    }
}

/// The comma piece.
pub open spec fn comma() -> (Seq<char>, SpanStyle) {
    (","@, SpanStyle::Punct)
}

/// A block of lines with a comma added to its last line when `more`.
pub open spec fn comma_if(block: Seq<Seq<(Seq<char>, SpanStyle)>>, more: bool) -> Seq<Seq<(Seq<char>, SpanStyle)>> {
    if more && block.len() > 0 {
        block.update(block.len() - 1, block.last().push(comma()))
    } else {
        block
    }
}

/// The pieces that start a member's line: indentation, the quoted name and
/// the colon.
pub open spec fn key_spans(pad: Seq<char>, key: Seq<char>) -> Seq<(Seq<char>, SpanStyle)> {
    seq![(pad, SpanStyle::Plain), (quoted(key), SpanStyle::Key), (": "@, SpanStyle::Punct)]
}

/// The closing line of a container, with a comma when `more`.
pub open spec fn close_line(pad: Seq<char>, close: Seq<char>, more: bool) -> Seq<(Seq<char>, SpanStyle)> {
    seq![(pad, SpanStyle::Plain), (close, SpanStyle::Punct)] + if more { seq![comma()] } else { Seq::empty() }
}

/// The lines of a value indented by `pad`; `inline` drops the indentation
/// of its first line.
pub open spec fn render(v: JsonValue, pad: Seq<char>, inline: bool) -> Seq<Seq<(Seq<char>, SpanStyle)>>
    decreases v, child_count(v) + 1,
{
    let prefix = if inline { Seq::<char>::empty() } else { pad };
    match v {
        JsonValue::Array(a) => if a@.len() > 0 {
            seq![seq![(prefix, SpanStyle::Plain), ("["@, SpanStyle::Punct)]] + array_items(v, a@.len(), pad + "  "@)
                + seq![seq![(pad, SpanStyle::Plain), ("]"@, SpanStyle::Punct)]]
        } else {
            seq![seq![(prefix, SpanStyle::Plain), value_span(v)]]
        },
        JsonValue::Object(m) => if m@.len() > 0 {
            seq![seq![(prefix, SpanStyle::Plain), ("{"@, SpanStyle::Punct)]] + object_entries(v, m@.len(), pad)
                + seq![seq![(pad, SpanStyle::Plain), ("}"@, SpanStyle::Punct)]]
        } else {
            seq![seq![(prefix, SpanStyle::Plain), value_span(v)]]
        },
        _ => seq![seq![(prefix, SpanStyle::Plain), value_span(v)]],
    }
}

/// The lines of the first `n` items of an array, each but the array's last
/// followed by a comma.
pub open spec fn array_items(v: JsonValue, n: nat, pad: Seq<char>) -> Seq<Seq<(Seq<char>, SpanStyle)>>
    decreases v, n,
{
    match v {
        JsonValue::Array(a) => if n == 0 || n > a@.len() {
            Seq::empty()
        } else {
            proof {
                broadcast use vstd::std_specs::vec::axiom_vec_index_decreases;
                assert(decreases_to!(v => v->Array_0));
                assert(decreases_to!(a => a[n - 1]));
            }
            array_items(v, (n - 1) as nat, pad) + comma_if(render(a[n - 1], pad, false), n < a@.len())
        },
        _ => Seq::empty(),
    }
}

/// The lines of the first `n` members of an object indented by `pad`.
pub open spec fn object_entries(v: JsonValue, n: nat, pad: Seq<char>) -> Seq<Seq<(Seq<char>, SpanStyle)>>
    decreases v, n,
{
    match v {
        JsonValue::Object(m) => if n == 0 || n > m@.len() {
            Seq::empty()
        } else {
            proof {
                broadcast use vstd::std_specs::vec::axiom_vec_index_decreases;
                assert(decreases_to!(v => v->Object_0));
                assert(decreases_to!(m => m[n - 1]));
                assert(decreases_to!(m[n - 1] => m[n - 1].1));
            }
            object_entries(v, (n - 1) as nat, pad) + entry_lines(m[n - 1].0@, m[n - 1].1, pad, n < m@.len())
        },
        _ => Seq::empty(),
    }
}

/// The lines of one member of an object indented by `pad`, with a comma
/// when `more`.
pub open spec fn entry_lines(key: Seq<char>, val: JsonValue, pad: Seq<char>, more: bool) -> Seq<Seq<(Seq<char>, SpanStyle)>>
    decreases val, child_count(val) + 1,
{
    let kp = pad + "  "@;
    if is_simple(val) {
        seq![key_spans(kp, key) + seq![value_span(val)] + if more { seq![comma()] } else { Seq::empty() }]
    } else {
        match val {
            JsonValue::Array(a) => seq![key_spans(kp, key).push(("["@, SpanStyle::Punct))]
                + array_items(val, a@.len(), pad + "    "@) + seq![close_line(kp, "]"@, more)],
            JsonValue::Object(m) => seq![key_spans(kp, key).push(("{"@, SpanStyle::Punct))]
                + inner_entries(val, m@.len(), pad + "    "@) + seq![close_line(kp, "}"@, more)],
            _ => Seq::empty(),
        }
    }
}

/// The lines of the first `n` members of an object nested in a member,
/// indented by `pad`: a member holding a container gets a line of its own,
/// followed by the container laid out from the start of the next line.
pub open spec fn inner_entries(v: JsonValue, n: nat, pad: Seq<char>) -> Seq<Seq<(Seq<char>, SpanStyle)>>
    decreases v, n,
{
    match v {
        JsonValue::Object(m) => if n == 0 || n > m@.len() {
            Seq::empty()
        } else {
            proof {
                broadcast use vstd::std_specs::vec::axiom_vec_index_decreases;
                assert(decreases_to!(v => v->Object_0));
                assert(decreases_to!(m => m[n - 1]));
                assert(decreases_to!(m[n - 1] => m[n - 1].1));
            }
            let key = m[n - 1].0@;
            let iv = m[n - 1].1;
            let more = n < m@.len();
            inner_entries(v, (n - 1) as nat, pad) + if is_simple(iv) {
                seq![key_spans(pad, key) + seq![value_span(iv)] + if more { seq![comma()] } else { Seq::empty() }]
            } else {
                seq![key_spans(pad, key)] + comma_if(render(iv, pad, true), more)
            }
        },
        _ => Seq::empty(),
    }
}

/// A line of one piece.
fn piece(text: &Vec<char>, style: SpanStyle) -> (r: Span)
    ensures
        r.text@ == text@,
        r.style == style,
{
    Span { text: string_of(text), style }
}

/// A piece from a literal.
pub(crate) fn lit(text: &str, style: SpanStyle) -> (r: Span)
    ensures
        r.text@ == text@,
        r.style == style,
{
    Span { text: text.to_owned(), style }
}

/// Appends a piece to a line.
pub(crate) fn push_span(line: &mut Vec<Span>, sp: Span)
    ensures
        final(line)@.map_values(|s: Span| (s.text@, s.style)) == old(line)@.map_values(|s: Span| (s.text@, s.style)).push((sp.text@, sp.style)),
{
    let ghost before = line@;
    line.push(sp);
    assert(line@.map_values(|s: Span| (s.text@, s.style)) =~= before.map_values(|s: Span| (s.text@, s.style)).push((sp.text@, sp.style)));
}

/// A line of two pieces.
fn two_pieces(a: Span, b: Span) -> (r: Vec<Span>)
    ensures
        r@.map_values(|s: Span| (s.text@, s.style)) == seq![(a.text@, a.style), (b.text@, b.style)],
{
    let mut r: Vec<Span> = Vec::new();
    push_span(&mut r, a);
    push_span(&mut r, b);
    assert(r@.map_values(|s: Span| (s.text@, s.style)) =~= seq![(a.text@, a.style), (b.text@, b.style)]);
    r
}

/// Appends a line.
pub(crate) fn push_line(lines: &mut Vec<Line>, spans: Vec<Span>)
    ensures
        lines_view(final(lines)@) == lines_view(old(lines)@).push(spans@.map_values(|s: Span| (s.text@, s.style))),
{
    let ghost before = lines@;
    let l = Line { spans };
    lines.push(l);
    assert(lines_view(lines@) =~= lines_view(before).push(line_view(l)));
}

/// Adds a comma to the last line.
fn add_comma(lines: &mut Vec<Line>)
    requires
        old(lines)@.len() > 0,
    ensures
        lines_view(final(lines)@) == comma_if(lines_view(old(lines)@), true),
{
    let ghost before = lines@;
    let mut last = match lines.pop() {
        Some(l) => l,
        None => return,
    };
    assert(lines@ =~= before.drop_last());
    let ghost lv = line_view(last);
    push_span(&mut last.spans, lit(",", SpanStyle::Punct));
    let ghost mid = lines@;
    lines.push(last);
    assert(lines_view(lines@) =~= lines_view(before).update(before.len() - 1, lv.push(comma())));
}

/// A string with newlines and carriage returns written as escapes.
fn escape_text(s: &str) -> (r: Vec<char>)
    ensures
        r@ == escaped(s@),
{
    let cs = chars_of(s);
    let mut out: Vec<char> = Vec::new();
    let mut i: usize = 0;
    while i < cs.len()
        invariant
            cs@ == s@,
            i <= cs@.len(),
            out@ == escaped(cs@.take(i as int)),
        decreases cs.len() - i,
    {
        let c = cs[i];
        assert(cs@.take(i + 1).drop_last() =~= cs@.take(i as int));
        if c == '\n' {
            out.push('\\');
            out.push('n');
        } else if c == '\r' {
            out.push('\\');
            out.push('r');
        } else {
            out.push(c);
        }
        assert(out@ =~= escaped(cs@.take(i + 1)));
        i = i + 1;
    }
    assert(cs@.take(cs@.len() as int) =~= cs@);
    out
}

/// The piece showing a scalar or an empty container.
fn value_piece(v: &JsonValue) -> (r: Span)
    ensures
        (r.text@, r.style) == value_span(*v),
{
    match v {
        JsonValue::Null => lit("null", SpanStyle::Null),
        JsonValue::Bool(b) => if *b { lit("true", SpanStyle::Boolean) } else { lit("false", SpanStyle::Boolean) },
        JsonValue::Number(JsonNumber::PosInt(n)) => {
            let mut t: Vec<char> = Vec::new();
            push_dec(&mut t, *n);
            piece(&t, SpanStyle::Number)
        },
        JsonValue::Number(JsonNumber::NegInt(n)) => {
            let mut t: Vec<char> = Vec::new();
            push_idec(&mut t, *n);
            piece(&t, SpanStyle::Number)
        },
        JsonValue::Number(JsonNumber::Float(t)) => Span { text: t.clone(), style: SpanStyle::Number },
        JsonValue::String(t) => {
            let mut q: Vec<char> = Vec::new();
            q.push('"');
            push_chars(&mut q, &escape_text(t.as_str()));
            q.push('"');
            assert(q@ =~= quoted(escaped(t@)));
            piece(&q, SpanStyle::Text)
        },
        JsonValue::Array(_) => lit("[]", SpanStyle::Punct),
        JsonValue::Object(_) => lit("{}", SpanStyle::Punct),
    }
}

/// Whether a value is a scalar or an empty container.
fn simple(v: &JsonValue) -> (r: bool)
    ensures
        r == is_simple(*v),
{
    match v {
        JsonValue::Array(a) => a.len() == 0,
        JsonValue::Object(m) => m.len() == 0,
        _ => true,
    }
}

/// `pad` with `n` more spaces.
fn deeper(pad: &Vec<char>, n: usize) -> (r: Vec<char>)
    requires
        n == 2 || n == 4,
    ensures
        r@ == pad@ + if n == 2 { "  "@ } else { "    "@ },
{
    let mut r: Vec<char> = Vec::new();
    push_chars(&mut r, pad);
    if n == 2 {
        push_str(&mut r, "  ");
    } else {
        push_str(&mut r, "    ");
    }
    assert(r@ =~= pad@ + if n == 2 { "  "@ } else { "    "@ });
    r
}

/// The pieces that start a member's line.
fn key_pieces(pad: &Vec<char>, key: &String) -> (r: Vec<Span>)
    ensures
        r@.map_values(|s: Span| (s.text@, s.style)) == key_spans(pad@, key@),
{
    let mut r: Vec<Span> = Vec::new();
    push_span(&mut r, piece(pad, SpanStyle::Plain));
    let mut q: Vec<char> = Vec::new();
    q.push('"');
    push_str(&mut q, key.as_str());
    q.push('"');
    assert(q@ =~= quoted(key@));
    push_span(&mut r, piece(&q, SpanStyle::Key));
    push_span(&mut r, lit(": ", SpanStyle::Punct));
    assert(r@.map_values(|s: Span| (s.text@, s.style)) =~= key_spans(pad@, key@));
    r
}

/// The closing line of a container.
fn close_pieces(pad: &Vec<char>, close: &str, more: bool) -> (r: Vec<Span>)
    ensures
        r@.map_values(|s: Span| (s.text@, s.style)) == close_line(pad@, close@, more),
{
    let mut r: Vec<Span> = Vec::new();
    push_span(&mut r, piece(pad, SpanStyle::Plain));
    push_span(&mut r, lit(close, SpanStyle::Punct));
    if more {
        push_span(&mut r, lit(",", SpanStyle::Punct));
    }
    assert(r@.map_values(|s: Span| (s.text@, s.style)) =~= close_line(pad@, close@, more));
    r
}

/// Appends the lines of the items of an array, indented by `pad`.
fn push_items(v: &JsonValue, a: &Vec<JsonValue>, pad: &Vec<char>, lines: &mut Vec<Line>)
    requires
        *v == JsonValue::Array(*a),
    ensures
        lines_view(final(lines)@) == lines_view(old(lines)@) + array_items(*v, a@.len(), pad@),
    decreases v, 0nat,
{
    let ghost base = lines_view(lines@);
    let mut i: usize = 0;
    while i < a.len()
        invariant
            *v == JsonValue::Array(*a),
            i <= a@.len(),
            lines_view(lines@) == base + array_items(*v, i as nat, pad@),
        decreases a.len() - i,
    {
        proof {
            broadcast use vstd::std_specs::vec::axiom_vec_index_decreases;
            assert(decreases_to!(*v => (*v)->Array_0));
            assert(decreases_to!(*a => a[i as int]));
            assert(decreases_to!(*v => a[i as int]));
        }
        let ghost before = lines_view(lines@);
        render_into(&a[i], pad, false, lines);
        let ghost block = render(a@[i as int], pad@, false);
        assert(block.len() > 0);
        assert(lines@.len() == lines_view(lines@).len());
        if i + 1 < a.len() {
            add_comma(lines);
            assert((before + block).update(before.len() + block.len() - 1, (before + block).last().push(comma()))
                =~= before + comma_if(block, true));
        }
        assert(lines_view(lines@) =~= base + array_items(*v, (i + 1) as nat, pad@));
        i = i + 1;
    }
}

/// Appends the lines of a value indented by `pad`; `inline` drops the
/// indentation of its first line.
fn render_into(v: &JsonValue, pad: &Vec<char>, inline: bool, lines: &mut Vec<Line>)
    ensures
        lines_view(final(lines)@) == lines_view(old(lines)@) + render(*v, pad@, inline),
    decreases v, 2nat,
{
    let prefix: Vec<char> = if inline { Vec::new() } else { chars_of(string_of(pad).as_str()) };
    let ghost base = lines_view(lines@);
    match v {
        JsonValue::Array(a) => {
            if a.len() > 0 {
                let first = two_pieces(piece(&prefix, SpanStyle::Plain), lit("[", SpanStyle::Punct));
                push_line(lines, first);
                let pad2 = deeper(pad, 2);
                let ghost mid = lines_view(lines@);
                push_items(v, a, &pad2, lines);
                let last = two_pieces(piece(pad, SpanStyle::Plain), lit("]", SpanStyle::Punct));
                push_line(lines, last);
                assert(lines_view(lines@) =~= base + render(*v, pad@, inline));
                return;
            }
        },
        JsonValue::Object(m) => {
            if m.len() > 0 {
                let first = two_pieces(piece(&prefix, SpanStyle::Plain), lit("{", SpanStyle::Punct));
                push_line(lines, first);
                let ghost b1 = lines_view(lines@);
                let mut i: usize = 0;
                while i < m.len()
                    invariant
                        *v == JsonValue::Object(*m),
                        i <= m@.len(),
                        lines_view(lines@) == b1 + object_entries(*v, i as nat, pad@),
                    decreases m.len() - i,
                {
                    proof {
                        broadcast use vstd::std_specs::vec::axiom_vec_index_decreases;
                        assert(decreases_to!(*v => (*v)->Object_0));
                        assert(decreases_to!(*m => m[i as int]));
                        assert(decreases_to!(m[i as int] => m[i as int].1));
                        assert(decreases_to!(*v => m[i as int].1));
                    }
                    let ghost before = lines_view(lines@);
                    entry_into(&m[i].0, &m[i].1, pad, i + 1 < m.len(), lines);
                    assert(lines_view(lines@) =~= b1 + object_entries(*v, (i + 1) as nat, pad@));
                    i = i + 1;
                }
                let last = two_pieces(piece(pad, SpanStyle::Plain), lit("}", SpanStyle::Punct));
                push_line(lines, last);
                assert(lines_view(lines@) =~= base + render(*v, pad@, inline));
                return;
            }
        },
        _ => {},
    }
    let only = two_pieces(piece(&prefix, SpanStyle::Plain), value_piece(v));
    push_line(lines, only);
    assert(lines_view(lines@) =~= base + render(*v, pad@, inline));
}

/// Appends the lines of one member of an object indented by `pad`.
fn entry_into(key: &String, val: &JsonValue, pad: &Vec<char>, more: bool, lines: &mut Vec<Line>)
    ensures
        lines_view(final(lines)@) == lines_view(old(lines)@) + entry_lines(key@, *val, pad@, more),
    decreases val, 3nat,
{
    let ghost base = lines_view(lines@);
    let kp = deeper(pad, 2);
    let mut first = key_pieces(&kp, key);
    if simple(val) {
        push_span(&mut first, value_piece(val));
        if more {
            push_span(&mut first, lit(",", SpanStyle::Punct));
        }
        assert(first@.map_values(|s: Span| (s.text@, s.style)) =~= key_spans(kp@, key@) + seq![value_span(*val)]
            + if more { seq![comma()] } else { Seq::empty() });
        push_line(lines, first);
        assert(lines_view(lines@) =~= base + entry_lines(key@, *val, pad@, more));
        return;
    }
    let pad4 = deeper(pad, 4);
    match val {
        JsonValue::Array(a) => {
            push_span(&mut first, lit("[", SpanStyle::Punct));
            push_line(lines, first);
            push_items(val, a, &pad4, lines);
            push_line(lines, close_pieces(&kp, "]", more));
            assert(lines_view(lines@) =~= base + entry_lines(key@, *val, pad@, more));
        },
        JsonValue::Object(m) => {
            push_span(&mut first, lit("{", SpanStyle::Punct));
            push_line(lines, first);
            let ghost b1 = lines_view(lines@);
            let mut j: usize = 0;
            while j < m.len()
                invariant
                    *val == JsonValue::Object(*m),
                    j <= m@.len(),
                    pad4@ == pad@ + "    "@,
                    lines_view(lines@) == b1 + inner_entries(*val, j as nat, pad4@),
                decreases m.len() - j,
            {
                proof {
                    broadcast use vstd::std_specs::vec::axiom_vec_index_decreases;
                    assert(decreases_to!(*val => (*val)->Object_0));
                    assert(decreases_to!(*m => m[j as int]));
                    assert(decreases_to!(m[j as int] => m[j as int].1));
                    assert(decreases_to!(*val => m[j as int].1));
                }
                let ghost before = lines_view(lines@);
                let iv = &m[j].1;
                let more_j = j + 1 < m.len();
                let mut kl = key_pieces(&pad4, &m[j].0);
                let ghost kv = kl@.map_values(|s: Span| (s.text@, s.style));
                if simple(iv) {
                    push_span(&mut kl, value_piece(iv));
                    if more_j {
                        push_span(&mut kl, lit(",", SpanStyle::Punct));
                    }
                    assert(kl@.map_values(|s: Span| (s.text@, s.style)) =~= kv + seq![value_span(*iv)]
                        + if more_j { seq![comma()] } else { Seq::empty() });
                    push_line(lines, kl);
                    assert(lines_view(lines@) =~= before + seq![kv + seq![value_span(*iv)]
                        + if more_j { seq![comma()] } else { Seq::empty() }]);
                } else {
                    push_line(lines, kl);
                    let ghost b2 = lines_view(lines@);
                    render_into(iv, &pad4, true, lines);
                    let ghost block = render(*iv, pad4@, true);
                    assert(block.len() > 0);
                    assert(lines@.len() == lines_view(lines@).len());
                    if more_j {
                        add_comma(lines);
                        assert((b2 + block).update(b2.len() + block.len() - 1, (b2 + block).last().push(comma()))
                            =~= b2 + comma_if(block, true));
                    }
                    assert(b2 == before.push(kv));
                    assert(lines_view(lines@) =~= before + (seq![kv] + comma_if(block, more_j)));
                }
                assert(m@[j as int].0@ == m[j as int].0@);
                assert(lines_view(lines@) =~= b1 + inner_entries(*val, (j + 1) as nat, pad4@));
                j = j + 1;
            }
            push_line(lines, close_pieces(&kp, "}", more));
            assert(lines_view(lines@) =~= base + entry_lines(key@, *val, pad@, more));
        },
        _ => {},
    }
}

/// The lines showing a JSON value.
pub fn json_to_lines(v: &JsonValue) -> (r: Vec<Line>)
    ensures
        lines_view(r@) == render(*v, Seq::empty(), false),
{
    let mut lines: Vec<Line> = Vec::new();
    let pad: Vec<char> = Vec::new();
    render_into(v, &pad, false, &mut lines);
    assert(lines_view(lines@) =~= lines_view(Seq::<Line>::empty()) + render(*v, pad@, false));
    lines
}

/// The text of a line.
pub open spec fn line_text(l: Seq<(Seq<char>, SpanStyle)>) -> Seq<char>
    decreases l.len(),
{
    if l.len() == 0 {
        Seq::empty()
    } else {
        line_text(l.drop_last()) + l.last().0
    }
}

/// The characters of a line, each with the style of its piece.
pub open spec fn styled_chars(l: Seq<(Seq<char>, SpanStyle)>) -> Seq<(char, SpanStyle)>
    decreases l.len(),
{
    if l.len() == 0 {
        Seq::empty()
    } else {
        styled_chars(l.drop_last()) + l.last().0.map_values(|c: char| (c, l.last().1))
    }
}

/// Position `i` of `t` lies within an occurrence of `q`.
pub open spec fn covered(t: Seq<char>, q: Seq<char>, i: int) -> bool {
    exists|s: int| s <= i < s + q.len() && #[trigger] occurs_at(t, q, s)
}

/// Two neighbouring characters belong to one piece: both highlighted, or
/// both not and of one style.
pub open spec fn same_group(p: (char, SpanStyle, bool), x: (char, SpanStyle, bool)) -> bool {
    p.2 == x.2 && (x.2 || p.1 == x.1)
}

/// The pieces that marked characters form: runs of characters of one
/// group, highlighted runs styled as highlights.
pub open spec fn regroup(cs: Seq<(char, SpanStyle, bool)>) -> Seq<(Seq<char>, SpanStyle)>
    decreases cs.len(),
{
    if cs.len() == 0 {
        Seq::empty()
    } else {
        let g = regroup(cs.drop_last());
        let x = cs.last();
        if cs.len() >= 2 && same_group(cs[cs.len() - 2], x) {
            g.update(g.len() - 1, (g.last().0.push(x.0), g.last().1))
        } else {
            g.push((seq![x.0], if x.2 { SpanStyle::Highlight } else { x.1 }))
        }
    }
}

/// The characters of a line marked with whether a match of `q` (in the
/// line's lower-cased text) covers them.
pub open spec fn marked(l: Seq<(Seq<char>, SpanStyle)>, q: Seq<char>) -> Seq<(char, SpanStyle, bool)> {
    let cs = styled_chars(l);
    let low = lower_of(line_text(l));
    Seq::new(cs.len(), |i: int| (cs[i].0, cs[i].1, covered(low, q, i)))
}

/// A line matches a (lower-cased) query when its lower-cased text holds it.
pub open spec fn line_matches(l: Seq<(Seq<char>, SpanStyle)>, q: Seq<char>) -> bool {
    contains_seq(lower_of(line_text(l)), q)
}

/// The line shown for a search: its matches highlighted when it matches,
/// else as it was.
pub open spec fn highlighted_line(l: Seq<(Seq<char>, SpanStyle)>, q: Seq<char>) -> Seq<(Seq<char>, SpanStyle)> {
    if line_matches(l, q) { regroup(marked(l, q)) } else { l }
}

/// The positions of the lines that match.
pub open spec fn matching_lines(ls: Seq<Seq<(Seq<char>, SpanStyle)>>, q: Seq<char>) -> Seq<usize>
    decreases ls.len(),
{
    if ls.len() == 0 {
        Seq::empty()
    } else {
        matching_lines(ls.drop_last(), q) + if line_matches(ls.last(), q) { seq![(ls.len() - 1) as usize] } else { Seq::empty() }
    }
}

/// A copy of a line.
pub(crate) fn copy_line(l: &Line) -> (r: Line)
    ensures
        line_view(r) == line_view(*l),
{
    let mut spans: Vec<Span> = Vec::new();
    let mut i: usize = 0;
    while i < l.spans.len()
        invariant
            i <= l.spans@.len(),
            spans@.map_values(|s: Span| (s.text@, s.style)) == line_view(*l).take(i as int),
        decreases l.spans.len() - i,
    {
        let sp = Span { text: l.spans[i].text.clone(), style: l.spans[i].style };
        push_span(&mut spans, sp);
        assert(line_view(*l).take(i + 1) =~= line_view(*l).take(i as int).push((l.spans@[i as int].text@, l.spans@[i as int].style)));
        i = i + 1;
    }
    assert(line_view(*l).take(l.spans@.len() as int) =~= line_view(*l));
    Line { spans }
}

/// The text of a line and its characters with their styles.
fn text_and_styles(l: &Line) -> (r: (Vec<char>, Vec<(char, SpanStyle)>))
    ensures
        r.0@ == line_text(line_view(*l)),
        r.1@ == styled_chars(line_view(*l)),
{
    let ghost lv = line_view(*l);
    let mut text: Vec<char> = Vec::new();
    let mut styled: Vec<(char, SpanStyle)> = Vec::new();
    let mut i: usize = 0;
    while i < l.spans.len()
        invariant
            lv == line_view(*l),
            i <= l.spans@.len(),
            text@ == line_text(lv.take(i as int)),
            styled@ == styled_chars(lv.take(i as int)),
        decreases l.spans.len() - i,
    {
        let cs = chars_of(l.spans[i].text.as_str());
        let st = l.spans[i].style;
        let ghost t0 = text@;
        let ghost s0 = styled@;
        let mut k: usize = 0;
        while k < cs.len()
            invariant
                k <= cs@.len(),
                text@ == t0 + cs@.take(k as int),
                styled@ == s0 + cs@.take(k as int).map_values(|c: char| (c, st)),
            decreases cs.len() - k,
        {
            text.push(cs[k]);
            styled.push((cs[k], st));
            assert(cs@.take(k + 1) =~= cs@.take(k as int).push(cs@[k as int]));
            assert(text@ =~= t0 + cs@.take(k + 1));
            assert(styled@ =~= s0 + cs@.take(k + 1).map_values(|c: char| (c, st)));
            k = k + 1;
        }
        assert(cs@.take(cs@.len() as int) =~= cs@);
        assert(lv.take(i + 1).drop_last() =~= lv.take(i as int));
        assert(lv.take(i + 1).last() == (cs@, st));
        i = i + 1;
    }
    assert(lv.take(l.spans@.len() as int) =~= lv);
    (text, styled)
}

/// Marks the positions below `n` that a match of `q` in `t` covers.
pub(crate) fn cover_marks(t: &Vec<char>, q: &Vec<char>, n: usize) -> (r: Vec<bool>)
    ensures
        r@.len() == n,
        forall|i: int| 0 <= i < n ==> r@[i] == covered(t@, q@, i),
{
    let mut r: Vec<bool> = Vec::new();
    let mut i: usize = 0;
    while i < n
        invariant
            i <= n,
            r@.len() == i,
            forall|k: int| 0 <= k < i ==> !r@[k],
        decreases n - i,
    {
        r.push(false);
        i = i + 1;
    }
    let mut s: usize = 0;
    while s < t.len()
        invariant
            r@.len() == n,
            s <= t@.len(),
            forall|i: int| 0 <= i < n ==> r@[i] == exists|s2: int| s2 < s && s2 <= i < s2 + q@.len() && #[trigger] occurs_at(t@, q@, s2),
        decreases t.len() - s,
    {
        let hit = occurs_at_exec(t, q, s);
        if hit && s < n {
            let end: usize = if q.len() <= n - s { s + q.len() } else { n };
            let mut k: usize = s;
            while k < end
                invariant
                    r@.len() == n,
                    s <= k <= end,
                    end <= n,
                    forall|i: int| 0 <= i < n ==> r@[i] == ((exists|s2: int| s2 < s && s2 <= i < s2 + q@.len() && #[trigger] occurs_at(t@, q@, s2))
                        || (s <= i < k)),
                decreases end - k,
            {
                r.set(k, true);
                k = k + 1;
            }
        }
        assert forall|i: int| 0 <= i < n implies r@[i] == exists|s2: int| s2 < s + 1 && s2 <= i < s2 + q@.len() && #[trigger] occurs_at(t@, q@, s2) by {
            let old_p = exists|s2: int| s2 < s && s2 <= i < s2 + q@.len() && #[trigger] occurs_at(t@, q@, s2);
            let new_p = exists|s2: int| s2 < s + 1 && s2 <= i < s2 + q@.len() && #[trigger] occurs_at(t@, q@, s2);
            if hit && s <= i < s + q@.len() {
                assert(occurs_at(t@, q@, s as int));
                assert(new_p);
            }
            if new_p && !old_p {
                let s2 = choose|s2: int| s2 < s + 1 && s2 <= i < s2 + q@.len() && #[trigger] occurs_at(t@, q@, s2);
                assert(s2 == s);
                assert(hit);
            }
            if old_p {
                let s2 = choose|s2: int| s2 < s && s2 <= i < s2 + q@.len() && #[trigger] occurs_at(t@, q@, s2);
                assert(s2 < s + 1);
            }
        }
        s = s + 1;
    }
    assert forall|i: int| 0 <= i < n implies r@[i] == covered(t@, q@, i) by {
        if covered(t@, q@, i) {
            let s2 = choose|s2: int| s2 <= i < s2 + q@.len() && #[trigger] occurs_at(t@, q@, s2);
            assert(s2 < t@.len() || q@.len() == 0);
        }
    }
    r
}

/// The pieces that marked characters form.
pub(crate) fn regroup_exec(cs: &Vec<(char, SpanStyle)>, hl: &Vec<bool>) -> (r: Vec<Span>)
    requires
        cs@.len() == hl@.len(),
    ensures
        r@.map_values(|s: Span| (s.text@, s.style)) == regroup(Seq::new(cs@.len(), |i: int| (cs@[i].0, cs@[i].1, hl@[i]))),
{
    let ghost all = Seq::new(cs@.len(), |i: int| (cs@[i].0, cs@[i].1, hl@[i]));
    let mut done: Vec<Span> = Vec::new();
    let mut cur: Vec<char> = Vec::new();
    let mut cur_style = SpanStyle::Plain;
    let mut i: usize = 0;
    while i < cs.len()
        invariant
            cs@.len() == hl@.len(),
            all == Seq::new(cs@.len(), |i: int| (cs@[i].0, cs@[i].1, hl@[i])),
            i <= cs@.len(),
            i == 0 <==> cur@.len() == 0,
            i == 0 ==> done@.len() == 0,
            i > 0 ==> done@.map_values(|s: Span| (s.text@, s.style)).push((cur@, cur_style)) == regroup(all.take(i as int)),
        decreases cs.len() - i,
    {
        let (c, st) = cs[i];
        let h = hl[i];
        let ghost t = all.take(i + 1);
        assert(t.drop_last() =~= all.take(i as int));
        assert(t.last() == (c, st, h));
        if i > 0 && (h == hl[i - 1] && (h || st == cs[i - 1].1)) {
            let ghost before = done@.map_values(|s: Span| (s.text@, s.style)).push((cur@, cur_style));
            cur.push(c);
            assert(t[t.len() - 2] == all[i - 1]);
            assert(done@.map_values(|s: Span| (s.text@, s.style)).push((cur@, cur_style))
                =~= before.update(before.len() - 1, (before.last().0.push(c), before.last().1)));
        } else {
            if i > 0 {
                let w = Span { text: string_of(&cur), style: cur_style };
                push_span(&mut done, w);
                assert(t[t.len() - 2] == all[i - 1]);
                assert(!same_group(t[t.len() - 2], t.last()));
            }
            assert(done@.map_values(|s: Span| (s.text@, s.style)) =~= regroup(t.drop_last()));
            cur = Vec::new();
            cur.push(c);
            cur_style = if h { SpanStyle::Highlight } else { st };
            assert(cur@ =~= seq![c]);
            assert(regroup(t) == regroup(t.drop_last()).push((seq![c], cur_style)));
            assert(done@.map_values(|s: Span| (s.text@, s.style)).push((cur@, cur_style)) =~= regroup(t));
        }
        i = i + 1;
    }
    assert(all.take(cs@.len() as int) =~= all);
    if i > 0 {
        let w = Span { text: string_of(&cur), style: cur_style };
        push_span(&mut done, w);
    }
    done
}

/// Highlights the matches of a search in lines, ignoring case, and gives
/// the positions of the lines that match. An empty query matches nothing
/// and leaves the lines as they are.
pub fn highlight_search_matches(lines: &Vec<Line>, query: &str) -> (r: (Vec<Line>, Vec<usize>))
    ensures
        query@.len() == 0 ==> lines_view(r.0@) == lines_view(lines@) && r.1@.len() == 0,
        query@.len() > 0 ==> lines_view(r.0@) == lines_view(lines@).map_values(|l: Seq<(Seq<char>, SpanStyle)>| highlighted_line(l, lower_of(query@)))
            && r.1@ == matching_lines(lines_view(lines@), lower_of(query@)),
{
    let ghost lv = lines_view(lines@);
    let mut out: Vec<Line> = Vec::new();
    let mut idx: Vec<usize> = Vec::new();
    if query.is_empty() {
        let mut i: usize = 0;
        while i < lines.len()
            invariant
                lv == lines_view(lines@),
                i <= lines@.len(),
                lines_view(out@) == lv.take(i as int),
            decreases lines.len() - i,
        {
            let l = copy_line(&lines[i]);
            let ghost before = out@;
            out.push(l);
            assert(lines_view(out@) =~= lines_view(before).push(line_view(l)));
            assert(lv.take(i + 1) =~= lv.take(i as int).push(lv[i as int]));
            i = i + 1;
        }
        assert(lv.take(lines@.len() as int) =~= lv);
        return (out, idx);
    }
    let q = chars_of(to_lower(query).as_str());
    let ghost qv = lower_of(query@);
    let mut i: usize = 0;
    while i < lines.len()
        invariant
            lv == lines_view(lines@),
            q@ == qv,
            qv == lower_of(query@),
            i <= lines@.len(),
            lines_view(out@) == lv.take(i as int).map_values(|l: Seq<(Seq<char>, SpanStyle)>| highlighted_line(l, qv)),
            idx@ == matching_lines(lv.take(i as int), qv),
        decreases lines.len() - i,
    {
        let line = &lines[i];
        let ghost li = line_view(*line);
        assert(lv[i as int] == li);
        let (text, styled) = text_and_styles(line);
        let low = chars_of(to_lower(string_of(&text).as_str()).as_str());
        let ghost before_out = out@;
        let ghost t = lv.take(i + 1);
        assert(t.drop_last() =~= lv.take(i as int));
        assert(t.last() == li);
        if contains(&low, &q) {
            let hl = cover_marks(&low, &q, styled.len());
            let spans = regroup_exec(&styled, &hl);
            proof {
                assert(Seq::new(styled@.len(), |k: int| (styled@[k].0, styled@[k].1, hl@[k])) =~= marked(li, qv));
            }
            let nl = Line { spans };
            out.push(nl);
            idx.push(i);
        } else {
            let nl = copy_line(line);
            out.push(nl);
        }
        assert(lines_view(out@) =~= lines_view(before_out).push(highlighted_line(li, qv)));
        assert(lv.take(i + 1).map_values(|l: Seq<(Seq<char>, SpanStyle)>| highlighted_line(l, qv))
            =~= lv.take(i as int).map_values(|l: Seq<(Seq<char>, SpanStyle)>| highlighted_line(l, qv)).push(highlighted_line(li, qv)));
        i = i + 1;
    }
    assert(lv.take(lines@.len() as int) =~= lv);
    (out, idx)
}

} // verus!
