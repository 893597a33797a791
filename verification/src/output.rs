//! Choosing the output format, and laying out a JSON value as indented
//! `key: value` lines for people.

use vstd::prelude::*;

verus! {

/// Output format: aligned tables for people, JSON for programs.
#[derive(PartialEq, Eq, Structural, Clone, Copy, Debug)]
pub enum Format {
    Human,
    Json,
}

/// The format to print in: the one asked for; otherwise human output on a terminal
/// and JSON when the output is piped.
pub fn resolve_format(format: Option<Format>, stdout_is_terminal: bool) -> (r: Format)
    ensures
        r == match format {
            Some(f) => f,
            None => if stdout_is_terminal {
                Format::Human
            } else {
                Format::Json
            },
        },
{
    match format {
        Some(f) => f,
        None => if stdout_is_terminal {
            Format::Human
        } else {
            Format::Json
        },
    }
}


/// A JSON value as it is laid out for people. Numbers keep the text that JSON
/// writes for them; a list also carries its compact JSON text, which is what is
/// shown when it stands on its own.
pub enum JsonValue {
    Null,
    Bool(bool),
    Number(String),
    Str(String),
    Array(Vec<JsonValue>, String),
    Object(Vec<(String, JsonValue)>),
}

/// One line of the human layout; `pad` is the indentation in front of it.
pub enum HumanLine {
    /// `{pad}{key}:`, followed by the lines of a nested object or list.
    Heading { pad: String, key: String },
    /// `{pad}{key}: {value}`.
    Field { pad: String, key: String, value: String },
    /// `{pad}  ---`, after each item of a list.
    Separator { pad: String },
    /// `{pad}{text}`.
    Text { pad: String, text: String },
}

/// A line of the human layout, as texts.
pub enum LineView {
    Heading(Seq<char>, Seq<char>),
    Field(Seq<char>, Seq<char>, Seq<char>),
    Separator(Seq<char>),
    Text(Seq<char>, Seq<char>),
}

/// The texts of a line.
pub open spec fn line_view(l: HumanLine) -> LineView {
    match l {
        HumanLine::Heading { pad, key } => LineView::Heading(pad@, key@),
        HumanLine::Field { pad, key, value } => LineView::Field(pad@, key@, value@),
        HumanLine::Separator { pad } => LineView::Separator(pad@),
        HumanLine::Text { pad, text } => LineView::Text(pad@, text@),
    }
}

/// The texts of several lines.
pub open spec fn line_views(ls: Seq<HumanLine>) -> Seq<LineView> {
    ls.map_values(|l: HumanLine| line_view(l))
}

/// How a value that is not an object or a string is written on one line: `null`,
/// `true` or `false`, a number's text, a list's compact JSON.
pub open spec fn scalar_text(v: JsonValue) -> Seq<char> {
    match v {
        JsonValue::Null => "null"@,
        JsonValue::Bool(b) => if b { "true"@ } else { "false"@ },
        JsonValue::Number(t) => t@,
        JsonValue::Str(s) => s@,
        JsonValue::Array(_, t) => t@,
        JsonValue::Object(_) => Seq::empty(),
    }
}

/// The indentation of one nesting level.
pub open spec fn indent_step() -> Seq<char> {
    "  "@
}

/// The lines of a value at indentation `pad`: an object gives the lines of its
/// fields; a string is written as it is; anything else as `scalar_text`.
pub open spec fn value_lines(v: JsonValue, pad: Seq<char>) -> Seq<LineView>
    decreases v,
{
    match v {
        JsonValue::Object(fields) => entry_lines(fields@, pad),
        JsonValue::Str(s) => seq![LineView::Text(pad, s@)],
        _ => seq![LineView::Text(pad, scalar_text(v))],
    }
}

/// The lines of an object's fields, in order. A null field is left out; an object
/// field gives a heading and its fields one level deeper; a list field gives a
/// heading and its items; any other field gives `key: value`.
pub open spec fn entry_lines(fs: Seq<(String, JsonValue)>, pad: Seq<char>) -> Seq<LineView>
    decreases fs,
{
    if fs.len() == 0 {
        Seq::empty()
    } else {
        let before = entry_lines(fs.subrange(0, fs.len() - 1), pad);
        let key = fs[fs.len() - 1].0@;
        match fs[fs.len() - 1].1 {
            JsonValue::Null => before,
            JsonValue::Object(o) => before + seq![LineView::Heading(pad, key)] + entry_lines(
                o@,
                pad + indent_step(),
            ),
            JsonValue::Array(items, _) => before + seq![LineView::Heading(pad, key)] + item_lines(
                items@,
                pad,
            ),
            JsonValue::Str(s) => before + seq![LineView::Field(pad, key, s@)],
            other => before + seq![LineView::Field(pad, key, scalar_text(other))],
        }
    }
}

/// The lines of a list field's items: each item one level deeper than `pad`,
/// followed by a separator at `pad`.
pub open spec fn item_lines(items: Seq<JsonValue>, pad: Seq<char>) -> Seq<LineView>
    decreases items,
{
    if items.len() == 0 {
        Seq::empty()
    } else {
        item_lines(items.subrange(0, items.len() - 1), pad) + value_lines(
            items[items.len() - 1],
            pad + indent_step(),
        ) + seq![LineView::Separator(pad)]
    }
}

/// The indentation one level deeper than `pad`.
fn deeper(pad: &str) -> (r: String)
    ensures
        r@ == pad@ + indent_step(),
{
    let mut p = String::from_str(pad);
    p.append("  ");
    proof {
        reveal_strlit("  ");
    }
    p
}

/// Writes `null`, `true`/`false`, a number or a list on one line.
fn scalar_string(v: &JsonValue) -> (r: String)
    ensures
        r@ == scalar_text(*v),
{
    proof {
        reveal_strlit("null");
        reveal_strlit("true");
        reveal_strlit("false");
    }
    match v {
        JsonValue::Null => String::from_str("null"),
        JsonValue::Bool(b) => if *b {
            String::from_str("true")
        } else {
            String::from_str("false")
        },
        JsonValue::Number(t) => t.clone(),
        JsonValue::Str(s) => s.clone(),
        JsonValue::Array(_, t) => t.clone(),
        JsonValue::Object(_) => String::new(),
    }
}

/// Appends the lines of a value.
fn push_value_lines(v: &JsonValue, pad: &str, out: &mut Vec<HumanLine>)
    ensures
        line_views(final(out)@) == line_views(old(out)@) + value_lines(*v, pad@),
    decreases v,
{
    match v {
        JsonValue::Object(fields) => {
            push_entry_lines(fields, pad, out);
        },
        JsonValue::Str(s) => {
            let ghost before = out@;
            out.push(HumanLine::Text { pad: String::from_str(pad), text: s.clone() });
            assert(line_views(out@) =~= line_views(before) + value_lines(*v, pad@));
        },
        _ => {
            let ghost before = out@;
            let text = scalar_string(v);
            out.push(HumanLine::Text { pad: String::from_str(pad), text });
            assert(line_views(out@) =~= line_views(before) + value_lines(*v, pad@));
        },
    }
}

/// Appends the lines of an object's fields.
fn push_entry_lines(fs: &Vec<(String, JsonValue)>, pad: &str, out: &mut Vec<HumanLine>)
    ensures
        line_views(final(out)@) == line_views(old(out)@) + entry_lines(fs@, pad@),
    decreases fs,
{
    let ghost start = line_views(out@);
    let n = fs.len();
    let mut i: usize = 0;
    assert(fs@.subrange(0, 0) =~= Seq::<(String, JsonValue)>::empty());
    while i < n
        invariant
            n == fs@.len(),
            i <= n,
            line_views(out@) == start + entry_lines(fs@.subrange(0, i as int), pad@),
        decreases n - i,
    {
        let ghost sub = fs@.subrange(0, i + 1);
        assert(sub.subrange(0, sub.len() - 1) =~= fs@.subrange(0, i as int));
        assert(sub[sub.len() - 1] == fs@[i as int]);
        let key = &fs[i].0;
        let ghost before = line_views(out@);
        match &fs[i].1 {
            JsonValue::Null => {},
            JsonValue::Object(o) => {
                out.push(HumanLine::Heading { pad: String::from_str(pad), key: key.clone() });
                assert(line_views(out@) =~= before + seq![LineView::Heading(pad@, key@)]);
                let inner = deeper(pad);
                proof {
                    assert(decreases_to!(fs => fs@[i as int].1));
                }
                push_entry_lines(o, inner.as_str(), out);
            },
            JsonValue::Array(items, _) => {
                out.push(HumanLine::Heading { pad: String::from_str(pad), key: key.clone() });
                assert(line_views(out@) =~= before + seq![LineView::Heading(pad@, key@)]);
                proof {
                    assert(decreases_to!(fs => fs@[i as int].1));
                }
                push_item_lines(items, pad, out);
            },
            JsonValue::Str(s) => {
                out.push(HumanLine::Field { pad: String::from_str(pad), key: key.clone(), value: s.clone() });
                assert(line_views(out@) =~= before + seq![LineView::Field(pad@, key@, s@)]);
            },
            other => {
                let value = scalar_string(other);
                out.push(HumanLine::Field { pad: String::from_str(pad), key: key.clone(), value });
                assert(line_views(out@) =~= before + seq![LineView::Field(pad@, key@, scalar_text(*other))]);
            },
        }
        i = i + 1;
    }
    assert(fs@.subrange(0, n as int) =~= fs@);
}

/// Appends the lines of a list field's items.
fn push_item_lines(items: &Vec<JsonValue>, pad: &str, out: &mut Vec<HumanLine>)
    ensures
        line_views(final(out)@) == line_views(old(out)@) + item_lines(items@, pad@),
    decreases items,
{
    let ghost start = line_views(out@);
    let inner = deeper(pad);
    let n = items.len();
    let mut j: usize = 0;
    assert(items@.subrange(0, 0) =~= Seq::<JsonValue>::empty());
    while j < n
        invariant
            n == items@.len(),
            j <= n,
            inner@ == pad@ + indent_step(),
            line_views(out@) == start + item_lines(items@.subrange(0, j as int), pad@),
        decreases n - j,
    {
        let ghost sub = items@.subrange(0, j + 1);
        assert(sub.subrange(0, sub.len() - 1) =~= items@.subrange(0, j as int));
        assert(sub[sub.len() - 1] == items@[j as int]);
        push_value_lines(&items[j], inner.as_str(), out);
        let ghost before = line_views(out@);
        out.push(HumanLine::Separator { pad: String::from_str(pad) });
        assert(line_views(out@) =~= before + seq![LineView::Separator(pad@)]);
        j = j + 1;
    }
    assert(items@.subrange(0, n as int) =~= items@);
}

/// The human layout of a value at indentation `pad` (empty at the top level):
/// exactly the lines of `value_lines`.
pub fn human_lines(v: &JsonValue, pad: &str) -> (r: Vec<HumanLine>)
    ensures
        line_views(r@) == value_lines(*v, pad@),
{
    let mut out: Vec<HumanLine> = Vec::new();
    assert(line_views(out@) =~= Seq::<LineView>::empty());
    push_value_lines(v, pad, &mut out);
    assert(line_views(out@) =~= value_lines(*v, pad@));
    out
}

/// The indentation a line is printed with.
pub open spec fn line_pad(l: LineView) -> Seq<char> {
    match l {
        LineView::Heading(p, _) => p,
        LineView::Field(p, _, _) => p,
        LineView::Separator(p) => p,
        LineView::Text(p, _) => p,
    }
}

/// Whether `x` starts with `p`.
pub open spec fn starts_with(x: Seq<char>, p: Seq<char>) -> bool {
    p.len() <= x.len() && x.subrange(0, p.len() as int) == p
}

/// Starting with `p + s` means starting with `p`.
proof fn lemma_starts_with_longer(x: Seq<char>, p: Seq<char>, s: Seq<char>)
    requires
        starts_with(x, p + s),
    ensures
        starts_with(x, p),
{
    assert(x.subrange(0, p.len() as int) =~= (p + s).subrange(0, p.len() as int));
    assert((p + s).subrange(0, p.len() as int) =~= p);
}

/// Every line of a value starts with its pad.
proof fn lemma_value_pads(v: JsonValue, pad: Seq<char>)
    ensures
        forall|i: int| 0 <= i < value_lines(v, pad).len() ==> starts_with(
            line_pad(#[trigger] value_lines(v, pad)[i]),
            pad,
        ),
    decreases v,
{
    assert(pad.subrange(0, pad.len() as int) =~= pad);
    match v {
        JsonValue::Object(fields) => {
            lemma_entry_pads(fields@, pad);
            assert(value_lines(v, pad) == entry_lines(fields@, pad));
        },
        _ => {
            assert(value_lines(v, pad).len() == 1);
            assert(line_pad(value_lines(v, pad)[0]) == pad);
        },
    }
}

/// Every line of an object's fields starts with its pad.
proof fn lemma_entry_pads(fs: Seq<(String, JsonValue)>, pad: Seq<char>)
    ensures
        forall|i: int| 0 <= i < entry_lines(fs, pad).len() ==> starts_with(
            line_pad(#[trigger] entry_lines(fs, pad)[i]),
            pad,
        ),
    decreases fs,
{
    assert(pad.subrange(0, pad.len() as int) =~= pad);
    if fs.len() > 0 {
        let before = entry_lines(fs.subrange(0, fs.len() - 1), pad);
        lemma_entry_pads(fs.subrange(0, fs.len() - 1), pad);
        let key = fs[fs.len() - 1].0@;
        let all = entry_lines(fs, pad);
        match fs[fs.len() - 1].1 {
            JsonValue::Object(o) => {
                let deep = pad + indent_step();
                let inner = entry_lines(o@, deep);
                lemma_entry_pads(o@, deep);
                assert(all == before + seq![LineView::Heading(pad, key)] + inner);
                assert forall|i: int| 0 <= i < all.len() implies starts_with(line_pad(#[trigger] all[i]), pad) by {
                    if i < before.len() {
                        assert(all[i] == before[i]);
                    } else if i == before.len() {
                    } else {
                        assert(all[i] == inner[i - before.len() - 1]);
                        lemma_starts_with_longer(line_pad(inner[i - before.len() - 1]), pad, indent_step());
                    }
                }
            },
            JsonValue::Array(items, _) => {
                let inner = item_lines(items@, pad);
                lemma_item_pads(items@, pad);
                assert(all == before + seq![LineView::Heading(pad, key)] + inner);
                assert forall|i: int| 0 <= i < all.len() implies starts_with(line_pad(#[trigger] all[i]), pad) by {
                    if i < before.len() {
                        assert(all[i] == before[i]);
                    } else if i == before.len() {
                    } else {
                        assert(all[i] == inner[i - before.len() - 1]);
                    }
                }
            },
            _ => {
                assert forall|i: int| 0 <= i < all.len() implies starts_with(line_pad(#[trigger] all[i]), pad) by {
                    if i < before.len() {
                        assert(all[i] == before[i]);
                    }
                }
            },
        }
    }
}

/// Every line of a list field's items starts with its pad.
proof fn lemma_item_pads(items: Seq<JsonValue>, pad: Seq<char>)
    ensures
        forall|i: int| 0 <= i < item_lines(items, pad).len() ==> starts_with(
            line_pad(#[trigger] item_lines(items, pad)[i]),
            pad,
        ),
    decreases items,
{
    assert(pad.subrange(0, pad.len() as int) =~= pad);
    if items.len() > 0 {
        let before = item_lines(items.subrange(0, items.len() - 1), pad);
        lemma_item_pads(items.subrange(0, items.len() - 1), pad);
        let deep = pad + indent_step();
        let inner = value_lines(items[items.len() - 1], deep);
        lemma_value_pads(items[items.len() - 1], deep);
        let all = item_lines(items, pad);
        assert(all == before + inner + seq![LineView::Separator(pad)]);
        assert forall|i: int| 0 <= i < all.len() implies starts_with(line_pad(#[trigger] all[i]), pad) by {
            if i < before.len() {
                assert(all[i] == before[i]);
            } else if i < before.len() + inner.len() {
                assert(all[i] == inner[i - before.len()]);
                lemma_starts_with_longer(line_pad(inner[i - before.len()]), pad, indent_step());
            }
        }
    }
}

/// Law: nothing is printed to the left of where a value starts: every line of a
/// value laid out at `pad` is indented by `pad` at least.
pub proof fn law_lines_keep_the_indentation(v: JsonValue, pad: Seq<char>)
    ensures
        forall|i: int| 0 <= i < value_lines(v, pad).len() ==> starts_with(
            line_pad(#[trigger] value_lines(v, pad)[i]),
            pad,
        ),
{
    lemma_value_pads(v, pad);
}

/// Law: an object nested in a field is laid out one step (two spaces) deeper than
/// the object that holds it, whatever the depth: the field gives a heading at the
/// outer indentation, then the nested object's own lines at the outer indentation
/// plus two spaces.
pub proof fn law_nested_object_one_step_deeper(
    fields: Vec<(String, JsonValue)>,
    key: String,
    inner: Vec<(String, JsonValue)>,
    pad: Seq<char>,
)
    requires
        fields@ == seq![(key, JsonValue::Object(inner))],
    ensures
        value_lines(JsonValue::Object(fields), pad) == seq![LineView::Heading(pad, key@)]
            + value_lines(JsonValue::Object(inner), pad + "  "@),
{
    reveal_strlit("  ");
    assert(fields@.subrange(0, 0) =~= Seq::<(String, JsonValue)>::empty());
    assert(entry_lines(fields@.subrange(0, 0), pad) =~= Seq::<LineView>::empty());
    assert(seq![LineView::Heading(pad, key@)] =~= Seq::<LineView>::empty() + seq![LineView::Heading(pad, key@)]);
}

} // verus!
