//! Showing a trace in short: the limits of the preview and the small texts
//! it is made of.

use crate::json::{append_decimal, decimal};
use crate::config::strings_view;
use crate::json::append_decimal_wide;
use crate::text::{
    after_last, after_last_char, chars_of, ends_with, first_index_of, first_piece,
    first_piece_of, has_prefix, has_suffix, index_of_char, last_piece, last_piece_of, replace_text,
    replaced, slice_of, starts_with, string_of,
};
use crate::trace_data::{CallNode, CallTree};
use vstd::prelude::*;
use vstd::string::StringExecFns;

verus! {

/// The limits of a preview.
#[derive(Debug, Clone, Copy, PartialEq, Eq, Structural)]
pub struct DisplayConfig {
    /// How many records are shown at most.
    pub max_entries: usize,
    /// How deep a call tree is shown at most.
    pub max_depth: usize,
    /// How many children of a node are shown at most.
    pub max_children_per_node: usize,
    /// Whether inputs and outputs are shown.
    pub show_values: bool,
    /// How long a shown value is at most.
    pub max_value_length: usize,
}

impl Default for DisplayConfig {
    fn default() -> (config: DisplayConfig)
        ensures
            config == (DisplayConfig {
                max_entries: 30,
                max_depth: 10,
                max_children_per_node: 10,
                show_values: true,
                max_value_length: 200,
            }),
    {
        DisplayConfig {
            max_entries: 30,
            max_depth: 10,
            max_children_per_node: 10,
            show_values: true,
            max_value_length: 200,
        }
    }
}

/// A place in the source as the preview shows it: the file's name and the
/// line, in parentheses.
pub open spec fn location_text(file: Seq<char>, line: u32) -> Seq<char> {
    "("@ + after_last(file, '/') + ":"@ + decimal(line as nat) + ")"@
}

/// A place in the source as the preview shows it.
pub fn format_location(file: &str, line: u32) -> (text: String)
    ensures
        text@ == location_text(file@, line),
{
    let letters = chars_of(file);
    let segment = string_of(&after_last_char(&letters, '/'));
    let mut text = "(".to_owned();
    text.append(segment.as_str());
    text.append(":");
    append_decimal(&mut text, line as u64);
    text.append(")");
    text
}

/// The time of day in a timestamp: the first eight characters behind the
/// first `T`, where that many stand there before the next `T` or `+`; else
/// the whole timestamp.
pub open spec fn time_of(timestamp: Seq<char>) -> Seq<char> {
    let t = first_index_of(timestamp, 'T');
    if t >= timestamp.len() {
        timestamp
    } else {
        let rest = timestamp.skip(t + 1);
        let part = rest.take(first_index_of(rest, 'T'));
        let clock = part.take(first_index_of(part, '+'));
        if clock.len() >= 8 {
            clock.take(8)
        } else {
            timestamp
        }
    }
}

/// The time of day in a timestamp.
pub fn extract_time_from_timestamp(timestamp: &str) -> (time: String)
    ensures
        time@ == time_of(timestamp@),
{
    let letters = chars_of(timestamp);
    let n = letters.len();
    let t = index_of_char(&letters, 'T');
    if t >= n {
        return timestamp.to_owned();
    }
    let rest = slice_of(&letters, t + 1, n);
    assert(letters@.subrange(t + 1, n as int) =~= letters@.skip(t + 1));
    let next = index_of_char(&rest, 'T');
    let part = slice_of(&rest, 0, next);
    assert(rest@.subrange(0, next as int) =~= rest@.take(next as int));
    let plus = index_of_char(&part, '+');
    let clock = slice_of(&part, 0, plus);
    assert(part@.subrange(0, plus as int) =~= part@.take(plus as int));
    if clock.len() >= 8 {
        let time = slice_of(&clock, 0, 8);
        assert(clock@.subrange(0, 8) =~= clock@.take(8));
        string_of(&time)
    } else {
        timestamp.to_owned()
    }
}

/// The name of a type without the paths of the types that everyone knows.
pub open spec fn shortened(name: Seq<char>) -> Seq<char> {
    let a = replaced(name, "alloc::string::String"@, "String"@);
    let b = replaced(a, "alloc::vec::Vec"@, "Vec"@);
    let c = replaced(b, "std::collections::hash::map::HashMap"@, "HashMap"@);
    let d = replaced(c, "core::result::Result"@, "Result"@);
    let e = replaced(d, "core::option::Option"@, "Option"@);
    let f = replaced(e, "alloc::rc::Rc"@, "Rc"@);
    replaced(f, "std::sync::"@, ""@)
}

/// The name of a type as the preview shows it: shortened, and where that
/// still takes more than thirty bytes, its last path segment only.
pub open spec fn simple_type(name: Seq<char>) -> Seq<char> {
    let short = shortened(name);
    if vstd::utf8::encode_utf8(short).len() > 30 {
        last_piece(short, "::"@)
    } else {
        short
    }
}

fn simplify_chars(name: &Vec<char>) -> (simple: Vec<char>)
    ensures
        simple@ == simple_type(name@),
{
    let a = replace_text(name, "alloc::string::String", "String");
    let b = replace_text(&a, "alloc::vec::Vec", "Vec");
    let c = replace_text(&b, "std::collections::hash::map::HashMap", "HashMap");
    let d = replace_text(&c, "core::result::Result", "Result");
    let e = replace_text(&d, "core::option::Option", "Option");
    let f = replace_text(&e, "alloc::rc::Rc", "Rc");
    let short = replace_text(&f, "std::sync::", "");
    let text = string_of(&short);
    if text.as_str().as_bytes().len() > 30 {
        last_piece_of(&short, "::")
    } else {
        short
    }
}

/// The name of a type as the preview shows it.
pub fn simplify_type_name(name: &str) -> (simple: String)
    ensures
        simple@ == simple_type(name@),
{
    string_of(&simplify_chars(&chars_of(name)))
}

/// A placeholder as the preview shows it: the simplified type between
/// angle brackets, where the placeholder names one.
pub open spec fn placeholder_type(placeholder: Seq<char>) -> Seq<char> {
    if starts_with(placeholder, "<unserializable:"@) {
        let rest = placeholder.skip("<unserializable: "@.len() as int);
        if starts_with(placeholder, "<unserializable: "@) && ends_with(rest, ">"@) {
            "<"@ + simple_type(rest.drop_last()) + ">"@
        } else {
            "<unserializable>"@
        }
    } else if starts_with(placeholder, "<debug:"@) {
        if starts_with(placeholder, "<debug: "@) {
            "<"@ + simple_type(first_piece(placeholder.skip("<debug: "@.len() as int), " = "@))
                + ">"@
        } else {
            "<debug>"@
        }
    } else {
        placeholder
    }
}

fn placeholder_chars(v: &Vec<char>) -> (shown: Vec<char>)
    ensures
        shown@ == placeholder_type(v@),
{
    let n = v.len();
    if has_prefix(v, "<unserializable:") {
        let prefix = chars_of("<unserializable: ");
        let m = prefix.len();
        if crate::text::has_match_at(v, &prefix, 0) {
            let rest = slice_of(v, m, n);
            assert(v@.subrange(m as int, n as int) =~= v@.skip(m as int));
            if has_suffix(&rest, ">") {
                proof {
                    reveal_strlit(">");
                }
                let k = rest.len();
                assert(k >= 1);
                let inner = slice_of(&rest, 0, k - 1);
                assert(rest@.subrange(0, k - 1) =~= rest@.drop_last());
                let simple = simplify_chars(&inner);
                let mut shown = chars_of("<");
                let ghost head = shown@;
                append_chars(&mut shown, &simple);
                append_chars(&mut shown, &chars_of(">"));
                return shown;
            }
        }
        chars_of("<unserializable>")
    } else if has_prefix(v, "<debug:") {
        let prefix = chars_of("<debug: ");
        let m = prefix.len();
        if crate::text::has_match_at(v, &prefix, 0) {
            let rest = slice_of(v, m, n);
            assert(v@.subrange(m as int, n as int) =~= v@.skip(m as int));
            let simple = simplify_chars(&first_piece_of(&rest, " = "));
            let mut shown = chars_of("<");
            append_chars(&mut shown, &simple);
            append_chars(&mut shown, &chars_of(">"));
            shown
        } else {
            chars_of("<debug>")
        }
    } else {
        let shown = slice_of(v, 0, n);
        assert(v@.subrange(0, n as int) =~= v@);
        shown
    }
}

fn append_chars(out: &mut Vec<char>, more: &Vec<char>)
    ensures
        final(out)@ == old(out)@ + more@,
{
    let mut i: usize = 0;
    assert(out@ =~= old(out)@ + more@.take(0));
    while i < more.len()
        invariant
            i <= more.len(),
            out@ == old(out)@ + more@.take(i as int),
        decreases more.len() - i,
    {
        out.push(more[i]);
        assert(out@ =~= old(out)@ + more@.take(i + 1));
        i += 1;
    }
    assert(more@.take(more.len() as int) =~= more@);
}

/// A placeholder as the preview shows it.
pub fn extract_type_from_placeholder(placeholder: &str) -> (shown: String)
    ensures
        shown@ == placeholder_type(placeholder@),
{
    string_of(&placeholder_chars(&chars_of(placeholder)))
}

/// What the preview needs to know of a JSON value.
#[derive(Debug)]
pub enum ValueShape {
    /// The value `null`.
    Null,
    /// A string.
    Text(String),
    /// An object, by its keys in the order in which it holds them.
    Object(Vec<String>),
    /// An array, by the number of its items.
    Array(usize),
    /// Any other value, by its compact JSON text.
    Other(String),
}

/// The mathematical value of a [`ValueShape`].
pub ghost enum ShapeView {
    Null,
    Text(Seq<char>),
    Object(Seq<Seq<char>>),
    Array(usize),
    Other(Seq<char>),
}

impl View for ValueShape {
    type V = ShapeView;

    open spec fn view(&self) -> ShapeView {
        match self {
            ValueShape::Null => ShapeView::Null,
            ValueShape::Text(s) => ShapeView::Text(s@),
            ValueShape::Object(keys) => ShapeView::Object(strings_view(keys@)),
            ValueShape::Array(n) => ShapeView::Array(*n),
            ValueShape::Other(s) => ShapeView::Other(s@),
        }
    }
}

/// What a JSON value holds at its top: nothing, for `null`; a string's
/// text; an object's keys, in the order in which it holds them; the number
/// of an array's items; for a truth value or a number, that it is another
/// value, without a text.
pub uninterp spec fn json_contents(value: serde_json::Value) -> ShapeView;

/// The compact JSON text of a value.
pub uninterp spec fn compact_json(value: serde_json::Value) -> Seq<char>;

/// What the preview needs to know of a JSON value: what it holds at its
/// top, and for a truth value or a number its compact text.
pub open spec fn shape_of(value: serde_json::Value) -> ShapeView {
    match json_contents(value) {
        ShapeView::Other(_) => ShapeView::Other(compact_json(value)),
        contents => contents,
    }
}

/// Tells the variants of a `serde_json::Value` apart and hands out what
/// each holds: a string's text, an object's keys by `Map::keys`, an
/// array's length by `Vec::len`.
#[verifier::external_body]
fn classify(value: &serde_json::Value) -> (shape: ValueShape)
    ensures
        shape@ == json_contents(*value),
{
    match value {
        serde_json::Value::Null => ValueShape::Null,
        serde_json::Value::String(s) => ValueShape::Text(s.clone()),
        serde_json::Value::Object(map) => ValueShape::Object(map.keys().cloned().collect()),
        serde_json::Value::Array(items) => ValueShape::Array(items.len()),
        _ => ValueShape::Other(String::new()),
    }
}

/// The compact JSON text of a value, as the `Display` impl of
/// `serde_json::Value` writes it.
#[verifier::external_body]
fn compact_text(value: &serde_json::Value) -> (text: String)
    ensures
        text@ == compact_json(*value),
{
    value.to_string()
}

/// What the preview needs to know of a JSON value.
pub fn value_shape(value: &serde_json::Value) -> (shape: ValueShape)
    ensures
        shape@ == shape_of(*value),
{
    match classify(value) {
        ValueShape::Other(_) => ValueShape::Other(compact_text(value)),
        shape => shape,
    }
}

/// The first `count` keys of an object, commas between them.
pub open spec fn keys_text(keys: Seq<Seq<char>>, count: int) -> Seq<char>
    decreases count,
{
    if count <= 0 || count > keys.len() {
        Seq::empty()
    } else if count == 1 {
        keys[0]
    } else {
        keys_text(keys, count - 1) + ", "@ + keys[count - 1]
    }
}

/// A value in short: a string between quotes, or as the placeholder it
/// is; an object by its first three keys; an array by its length; any
/// other value as its JSON text.
pub open spec fn short_value(shape: ShapeView) -> Seq<char> {
    match shape {
        ShapeView::Null => "null"@,
        ShapeView::Text(s) => if starts_with(s, "<unserializable:"@) || starts_with(
            s,
            "<debug:"@,
        ) {
            placeholder_type(s)
        } else {
            "\""@ + s + "\""@
        },
        ShapeView::Object(keys) => if keys.len() == 0 {
            "{}"@
        } else if keys.len() <= 3 {
            "{"@ + keys_text(keys, keys.len() as int) + "}"@
        } else {
            "{"@ + keys_text(keys, 3) + ", ...}"@
        },
        ShapeView::Array(n) => if n == 0 {
            "[]"@
        } else {
            "["@ + decimal(n as nat) + " items]"@
        },
        ShapeView::Other(s) => s,
    }
}

/// A text cut down to a length: as it is where it is no longer; else its
/// first characters, three fewer than the length, and three dots.
pub open spec fn cut_to(text: Seq<char>, max_length: usize) -> Seq<char> {
    if text.len() > max_length {
        text.take(
            if max_length >= 3 {
                max_length - 3
            } else {
                0
            },
        ) + "..."@
    } else {
        text
    }
}

fn short_chars(shape: &ValueShape) -> (text: Vec<char>)
    ensures
        text@ == short_value(shape@),
{
    match shape {
        ValueShape::Null => chars_of("null"),
        ValueShape::Text(s) => {
            let letters = chars_of(s.as_str());
            if has_prefix(&letters, "<unserializable:") || has_prefix(&letters, "<debug:") {
                placeholder_chars(&letters)
            } else {
                let mut text = chars_of("\"");
                append_chars(&mut text, &letters);
                append_chars(&mut text, &chars_of("\""));
                text
            }
        },
        ValueShape::Object(keys) => {
            let n = keys.len();
            if n == 0 {
                return chars_of("{}");
            }
            let ghost all = strings_view(keys@);
            let shown: usize = if n <= 3 {
                n
            } else {
                3
            };
            let mut text = chars_of("{");
            let ghost head = text@;
            let mut i: usize = 0;
            assert(text@ =~= head + keys_text(all, 0));
            while i < shown
                invariant
                    i <= shown <= n,
                    n == keys.len(),
                    all == strings_view(keys@),
                    text@ == head + keys_text(all, i as int),
                decreases shown - i,
            {
                if i > 0 {
                    append_chars(&mut text, &chars_of(", "));
                }
                append_chars(&mut text, &chars_of(keys[i].as_str()));
                i += 1;
                assert(text@ =~= head + keys_text(all, i as int));
            }
            if n <= 3 {
                append_chars(&mut text, &chars_of("}"));
            } else {
                append_chars(&mut text, &chars_of(", ...}"));
            }
            text
        },
        ValueShape::Array(n) => {
            if *n == 0 {
                chars_of("[]")
            } else {
                let mut s = "[".to_owned();
                append_decimal_wide(&mut s, *n as u128);
                s.append(" items]");
                chars_of(s.as_str())
            }
        },
        ValueShape::Other(s) => chars_of(s.as_str()),
    }
}

/// A value as the preview shows it: in short, and cut to the length given.
pub fn format_value(shape: &ValueShape, max_length: usize) -> (text: String)
    ensures
        text@ == cut_to(short_value(shape@), max_length),
{
    let short = short_chars(shape);
    if short.len() > max_length {
        let keep = if max_length >= 3 {
            max_length - 3
        } else {
            0
        };
        let mut text = slice_of(&short, 0, keep);
        assert(short@.subrange(0, keep as int) =~= short@.take(keep as int));
        append_chars(&mut text, &chars_of("..."));
        string_of(&text)
    } else {
        string_of(&short)
    }
}

/// Whether a value is an object without keys.
pub fn is_empty_object(shape: &ValueShape) -> (b: bool)
    ensures
        b == (shape@ matches ShapeView::Object(keys) && keys.len() == 0),
{
    match shape {
        ValueShape::Object(keys) => keys.len() == 0,
        _ => false,
    }
}

/// The lines that show the inputs and the output of a call: the inputs
/// unless they are `null` or an empty object, the output unless it is
/// `null`.
pub open spec fn values_text(
    inputs: ShapeView,
    output: ShapeView,
    max_length: usize,
    prefix: Seq<char>,
) -> Seq<char> {
    (if inputs is Null || (inputs matches ShapeView::Object(keys) && keys.len() == 0) {
        Seq::<char>::empty()
    } else {
        prefix + "in:  "@ + cut_to(short_value(inputs), max_length) + "\n"@
    }) + (if output is Null {
        Seq::<char>::empty()
    } else {
        prefix + "out: "@ + cut_to(short_value(output), max_length) + "\n"@
    })
}

/// The lines that show the inputs and the output of a call.
pub fn display_values(
    inputs: &ValueShape,
    output: &ValueShape,
    config: &DisplayConfig,
    prefix: &str,
) -> (text: String)
    ensures
        text@ == values_text(inputs@, output@, config.max_value_length, prefix@),
{
    let mut text = String::new();
    let is_null = match inputs {
        ValueShape::Null => true,
        _ => false,
    };
    if !is_null && !is_empty_object(inputs) {
        text.append(prefix);
        text.append("in:  ");
        text.append(format_value(inputs, config.max_value_length).as_str());
        text.append("\n");
    }
    let ghost first = text@;
    let output_null = match output {
        ValueShape::Null => true,
        _ => false,
    };
    if !output_null {
        text.append(prefix);
        text.append("out: ");
        text.append(format_value(output, config.max_value_length).as_str());
        text.append("\n");
    }
    assert(text@ =~= values_text(inputs@, output@, config.max_value_length, prefix@));
    text
}

/// How many children of a node are shown.
pub open spec fn shown_children(node: CallTree, config: DisplayConfig) -> int {
    if config.max_children_per_node <= node.children.len() {
        config.max_children_per_node as int
    } else {
        node.children.len() as int
    }
}

/// Whether the child at `index` closes the list of a node's children: it
/// is the last one shown, and none is left out.
pub open spec fn closes_list(node: CallTree, config: DisplayConfig, index: int) -> bool {
    index == shown_children(node, config) - 1 && shown_children(node, config)
        == node.children.len()
}

/// The row of one child in a tree: behind the prefix its mark, its name
/// and its place.
pub open spec fn child_row(prefix: Seq<char>, last: bool, child: CallTree) -> Seq<char> {
    prefix + (if last {
        "└─"@
    } else {
        "├─"@
    }) + " "@ + child.name + " "@ + location_text(child.file, child.line) + "\n"@
}

/// The calls made inside a call, as a tree of lines behind `prefix`, as
/// many levels deep as `levels` says.
pub open spec fn tree_text(node: CallTree, config: DisplayConfig, levels: nat, prefix: Seq<char>) -> Seq<
    char,
>
    decreases node, node.children.len() + 1,
{
    if levels == 0 {
        prefix + "└─ ... (max depth reached)\n"@
    } else {
        let shown = shown_children(node, config);
        child_rows(node, config, levels, prefix, shown) + (if node.children.len() > shown {
            prefix + "└─ ... ("@ + decimal((node.children.len() - shown) as nat)
                + " more children omitted)\n"@
        } else {
            Seq::<char>::empty()
        })
    }
}

/// The rows of the first `count` children of a call, each with the tree of
/// its own children behind it.
pub open spec fn child_rows(
    node: CallTree,
    config: DisplayConfig,
    levels: nat,
    prefix: Seq<char>,
    count: int,
) -> Seq<char>
    decreases node, count,
{
    if count <= 0 || count > node.children.len() || levels == 0 {
        Seq::empty()
    } else {
        let child = node.children[count - 1];
        let last = closes_list(node, config, count - 1);
        child_rows(node, config, levels, prefix, count - 1) + child_row(prefix, last, child) + (
        if child.children.len() > 0 {
            tree_text(
                child,
                config,
                (levels - 1) as nat,
                prefix + (if last {
                    "   "@
                } else {
                    "│  "@
                }),
            )
        } else {
            Seq::<char>::empty()
        })
    }
}

fn append_child_row(out: &mut String, prefix: &str, last: bool, child: &CallNode)
    ensures
        final(out)@ == old(out)@ + child_row(prefix@, last, child@),
{
    let mut row = prefix.to_owned();
    if last {
        row.append("└─");
    } else {
        row.append("├─");
    }
    row.append(" ");
    row.append(child.name.as_str());
    row.append(" ");
    row.append(format_location(child.file.as_str(), child.line).as_str());
    row.append("\n");
    out.append(row.as_str());
}

/// Appends the tree of the calls made inside a call.
pub fn display_call_tree(
    node: &CallNode,
    config: &DisplayConfig,
    levels: usize,
    prefix: &str,
    out: &mut String,
)
    ensures
        final(out)@ == old(out)@ + tree_text(node@, *config, levels as nat, prefix@),
    decreases node,
{
    let ghost tree = node@;
    if levels == 0 {
        let mut line = prefix.to_owned();
        line.append("└─ ... (max depth reached)\n");
        assert(line@ == tree_text(tree, *config, 0, prefix@));
        out.append(line.as_str());
        return ;
    }
    let n = node.children.len();
    let shown: usize = if config.max_children_per_node <= n {
        config.max_children_per_node
    } else {
        n
    };
    let mut rows = String::new();
    let mut i: usize = 0;
    assert(rows@ =~= child_rows(tree, *config, levels as nat, prefix@, 0));
    while i < shown
        invariant
            i <= shown <= n,
            n == node.children.len(),
            tree == node@,
            levels > 0,
            shown == shown_children(tree, *config),
            rows@ == child_rows(tree, *config, levels as nat, prefix@, i as int),
        decreases shown - i,
    {
        let ghost before = rows@;
        let child = &node.children[i];
        assert(tree.children[i as int] == child@);
        let last = i == shown - 1 && shown == n;
        let mut row = String::new();
        append_child_row(&mut row, prefix, last, child);
        assert(row@ =~= child_row(prefix@, last, child@));
        let mut nested = String::new();
        let ghost next_prefix = prefix@ + (if last {
            "   "@
        } else {
            "│  "@
        });
        if child.children.len() > 0 {
            let mut next = prefix.to_owned();
            if last {
                next.append("   ");
            } else {
                next.append("│  ");
            }
            display_call_tree(child, config, levels - 1, next.as_str(), &mut nested);
            assert(nested@ =~= tree_text(child@, *config, (levels - 1) as nat, next_prefix));
        }
        rows.append(row.as_str());
        rows.append(nested.as_str());
        proof {
            let step = child_rows(tree, *config, levels as nat, prefix@, i + 1);
            assert(tree.children.len() == n);
            assert(last == closes_list(tree, *config, i as int));
            assert(before == child_rows(tree, *config, levels as nat, prefix@, (i + 1) - 1));
            assert(tree.children[(i + 1) - 1] == child@);
            assert(step == before + child_row(prefix@, last, child@) + (if child@.children.len()
                > 0 {
                tree_text(child@, *config, (levels - 1) as nat, next_prefix)
            } else {
                Seq::<char>::empty()
            }));
            assert(nested@ =~= (if child@.children.len() > 0 {
                tree_text(child@, *config, (levels - 1) as nat, next_prefix)
            } else {
                Seq::<char>::empty()
            }));
        }
        i += 1;
    }
    let mut tail = String::new();
    if n > shown {
        tail.append(prefix);
        tail.append("└─ ... (");
        append_decimal_wide(&mut tail, (n - shown) as u128);
        tail.append(" more children omitted)\n");
    }
    assert(tree.children.len() == n);
    assert(tail@ =~= (if tree.children.len() > shown {
        prefix@ + "└─ ... ("@ + decimal((tree.children.len() - shown) as nat)
            + " more children omitted)\n"@
    } else {
        Seq::<char>::empty()
    }));
    assert(rows@ + tail@ == tree_text(tree, *config, levels as nat, prefix@));
    out.append(rows.as_str());
    out.append(tail.as_str());
    assert(out@ =~= old(out)@ + (rows@ + tail@));
}

/// A record as the preview takes it.
#[derive(Debug)]
pub struct PreviewCall {
    pub timestamp_utc: String,
    pub thread_id: String,
    pub root_node: CallNode,
    pub inputs: ValueShape,
    pub output: ValueShape,
}

/// The mathematical value of a [`PreviewCall`].
pub ghost struct PreviewView {
    pub timestamp_utc: Seq<char>,
    pub thread_id: Seq<char>,
    pub root_node: CallTree,
    pub inputs: ShapeView,
    pub output: ShapeView,
}

impl View for PreviewCall {
    type V = PreviewView;

    open spec fn view(&self) -> PreviewView {
        PreviewView {
            timestamp_utc: self.timestamp_utc@,
            thread_id: self.thread_id@,
            root_node: self.root_node@,
            inputs: self.inputs@,
            output: self.output@,
        }
    }
}

/// The values of a row of records.
pub open spec fn previews_view(calls: Seq<PreviewCall>) -> Seq<PreviewView> {
    Seq::new(calls.len(), |i: int| calls[i]@)
}

/// The first line of a record in the preview: its call with place and time.
pub open spec fn call_head(call: PreviewView, prefix: Seq<char>) -> Seq<char> {
    prefix + call.root_node.name + " "@ + location_text(call.root_node.file, call.root_node.line)
        + " ["@ + time_of(call.timestamp_utc) + "]\n"@
}

/// What the preview shows of one record: its call with place and time,
/// its values where they are asked for, and the tree of the calls made
/// inside the call.
pub open spec fn call_text(call: PreviewView, config: DisplayConfig, prefix: Seq<char>) -> Seq<
    char,
> {
    call_head(call, prefix) + (if config.show_values {
        values_text(call.inputs, call.output, config.max_value_length, prefix + "  "@)
    } else {
        Seq::<char>::empty()
    }) + (if call.root_node.children.len() > 0 {
        tree_text(call.root_node, config, config.max_depth as nat, prefix + "  "@)
    } else {
        Seq::<char>::empty()
    })
}

/// Appends what the preview shows of one record.
pub fn display_single_call(call: &PreviewCall, config: &DisplayConfig, prefix: &str, out: &mut String)
    ensures
        final(out)@ == old(out)@ + call_text(call@, *config, prefix@),
{
    let mut inner = prefix.to_owned();
    inner.append("  ");
    let mut head = prefix.to_owned();
    head.append(call.root_node.name.as_str());
    head.append(" ");
    head.append(format_location(call.root_node.file.as_str(), call.root_node.line).as_str());
    head.append(" [");
    head.append(extract_time_from_timestamp(call.timestamp_utc.as_str()).as_str());
    head.append("]\n");
    assert(head@ == call_head(call@, prefix@));
    let mut text = head;
    let ghost h = text@;
    if config.show_values {
        text.append(display_values(&call.inputs, &call.output, config, inner.as_str()).as_str());
    } else {
        assert(text@ =~= h + Seq::<char>::empty());
    }
    let ghost v = text@;
    if call.root_node.children.len() > 0 {
        display_call_tree(&call.root_node, config, config.max_depth, inner.as_str(), &mut text);
    } else {
        assert(text@ =~= v + Seq::<char>::empty());
    }
    assert(text@ == call_text(call@, *config, prefix@));
    out.append(text.as_str());
}

/// The threads of the first `count` records, each once, in the order in
/// which they first come.
pub open spec fn thread_names(calls: Seq<PreviewView>, count: int) -> Seq<Seq<char>>
    decreases count,
{
    if count <= 0 || count > calls.len() {
        Seq::empty()
    } else {
        crate::instrument::with_name(thread_names(calls, count - 1), calls[count - 1].thread_id)
    }
}

/// How many of the first `count` records are of a thread.
pub open spec fn thread_size(calls: Seq<PreviewView>, thread: Seq<char>, count: int) -> nat
    decreases count,
{
    if count <= 0 || count > calls.len() {
        0
    } else if calls[count - 1].thread_id == thread {
        thread_size(calls, thread, count - 1) + 1
    } else {
        thread_size(calls, thread, count - 1)
    }
}

/// What the preview shows of the records of a thread among the first
/// `count` of the first `limit` records. A thread with one record shows it
/// as it is; a thread with more shows them as a list.
pub open spec fn thread_rows(
    calls: Seq<PreviewView>,
    config: DisplayConfig,
    thread: Seq<char>,
    limit: int,
    count: int,
) -> Seq<char>
    decreases count,
{
    if count <= 0 || count > calls.len() {
        Seq::empty()
    } else if calls[count - 1].thread_id == thread {
        let size = thread_size(calls, thread, limit);
        let prefix = if size == 1 {
            Seq::<char>::empty()
        } else if thread_size(calls, thread, count) == size {
            "  └─"@
        } else {
            "  ├─"@
        };
        thread_rows(calls, config, thread, limit, count - 1) + call_text(
            calls[count - 1],
            config,
            prefix,
        )
    } else {
        thread_rows(calls, config, thread, limit, count - 1)
    }
}

/// What the preview shows of a thread: its heading where it has more than
/// one record, and its records.
pub open spec fn thread_text(
    calls: Seq<PreviewView>,
    config: DisplayConfig,
    thread: Seq<char>,
    limit: int,
) -> Seq<char> {
    (if thread_size(calls, thread, limit) == 1 {
        Seq::<char>::empty()
    } else {
        "Thread "@ + thread + " ("@ + decimal(thread_size(calls, thread, limit)) + " calls)\n"@
    }) + thread_rows(calls, config, thread, limit, limit)
}

/// What the preview shows of the first `count` threads.
pub open spec fn threads_text(
    calls: Seq<PreviewView>,
    config: DisplayConfig,
    threads: Seq<Seq<char>>,
    limit: int,
    count: int,
) -> Seq<char>
    decreases count,
{
    if count <= 0 || count > threads.len() {
        Seq::empty()
    } else {
        threads_text(calls, config, threads, limit, count - 1) + thread_text(
            calls,
            config,
            threads[count - 1],
            limit,
        )
    }
}

/// How many records the preview shows.
pub open spec fn shown_entries(calls: Seq<PreviewView>, config: DisplayConfig) -> int {
    if config.max_entries <= calls.len() {
        config.max_entries as int
    } else {
        calls.len() as int
    }
}

/// The preview of a trace: a heading, the records shown thread by thread,
/// the threads in the order in which they first come, and a note on the
/// records left out.
pub open spec fn preview_text(calls: Seq<PreviewView>, config: DisplayConfig) -> Seq<char> {
    if calls.len() == 0 {
        "Trace Preview: No trace data found\n"@
    } else {
        let limit = shown_entries(calls, config);
        let threads = thread_names(calls, limit);
        "Trace Preview ("@ + decimal(calls.len()) + " entries, showing first "@ + decimal(
            limit as nat,
        ) + ")\n"@ + threads_text(calls, config, threads, limit, threads.len() as int) + (
        if calls.len() > limit {
            "... "@ + decimal((calls.len() - limit) as nat) + " more entries omitted\n"@
        } else {
            Seq::<char>::empty()
        })
    }
}

fn threads_of(calls: &Vec<PreviewCall>, limit: usize) -> (threads: Vec<String>)
    requires
        limit <= calls.len(),
    ensures
        strings_view(threads@) == thread_names(previews_view(calls@), limit as int),
{
    let ghost all = previews_view(calls@);
    let mut threads: Vec<String> = Vec::new();
    let mut i: usize = 0;
    assert(strings_view(threads@) =~= thread_names(all, 0));
    while i < limit
        invariant
            i <= limit <= calls.len(),
            all == previews_view(calls@),
            strings_view(threads@) == thread_names(all, i as int),
        decreases limit - i,
    {
        assert(all[i as int] == calls@[i as int]@);
        let ghost before = strings_view(threads@);
        let known = crate::instrument::holds_name(&threads, calls[i].thread_id.as_str());
        if !known {
            threads.push(calls[i].thread_id.clone());
            assert(strings_view(threads@) =~= before.push(calls@[i as int].thread_id@));
        }
        i += 1;
    }
    threads
}

fn size_of_thread(calls: &Vec<PreviewCall>, thread: &str, limit: usize) -> (size: usize)
    requires
        limit <= calls.len(),
    ensures
        size == thread_size(previews_view(calls@), thread@, limit as int),
        size <= limit,
{
    let ghost all = previews_view(calls@);
    let mut size: usize = 0;
    let mut i: usize = 0;
    while i < limit
        invariant
            i <= limit <= calls.len(),
            all == previews_view(calls@),
            size == thread_size(all, thread@, i as int),
            size <= i,
        decreases limit - i,
    {
        assert(all[i as int] == calls@[i as int]@);
        if crate::text::same_text(calls[i].thread_id.as_str(), thread) {
            size += 1;
        }
        i += 1;
    }
    size
}

fn append_thread(
    out: &mut String,
    calls: &Vec<PreviewCall>,
    config: &DisplayConfig,
    thread: &str,
    limit: usize,
)
    requires
        limit <= calls.len(),
    ensures
        final(out)@ == old(out)@ + thread_text(
            previews_view(calls@),
            *config,
            thread@,
            limit as int,
        ),
{
    let ghost all = previews_view(calls@);
    let size = size_of_thread(calls, thread, limit);
    if size != 1 {
        out.append("Thread ");
        out.append(thread);
        out.append(" (");
        append_decimal_wide(out, size as u128);
        out.append(" calls)\n");
    }
    let ghost head = out@;
    let mut seen: usize = 0;
    let mut i: usize = 0;
    assert(out@ =~= head + thread_rows(all, *config, thread@, limit as int, 0));
    while i < limit
        invariant
            i <= limit <= calls.len(),
            all == previews_view(calls@),
            size == thread_size(all, thread@, limit as int),
            seen == thread_size(all, thread@, i as int),
            seen <= i,
            out@ == head + thread_rows(all, *config, thread@, limit as int, i as int),
        decreases limit - i,
    {
        assert(all[i as int] == calls@[i as int]@);
        if crate::text::same_text(calls[i].thread_id.as_str(), thread) {
            seen += 1;
            if size == 1 {
                let empty = String::new();
                assert(empty@ =~= Seq::<char>::empty());
                display_single_call(&calls[i], config, empty.as_str(), out);
            } else if seen == size {
                display_single_call(&calls[i], config, "  └─", out);
            } else {
                display_single_call(&calls[i], config, "  ├─", out);
            }
        }
        i += 1;
        assert(out@ =~= head + thread_rows(all, *config, thread@, limit as int, i as int));
    }
    assert(out@ =~= old(out)@ + thread_text(all, *config, thread@, limit as int));
}

/// The preview of a trace.
pub fn display_trace_preview(calls: &Vec<PreviewCall>, config: &DisplayConfig) -> (text: String)
    ensures
        text@ == preview_text(previews_view(calls@), *config),
{
    let ghost all = previews_view(calls@);
    let total = calls.len();
    if total == 0 {
        return "Trace Preview: No trace data found\n".to_owned();
    }
    let limit: usize = if config.max_entries <= total {
        config.max_entries
    } else {
        total
    };
    let mut text = "Trace Preview (".to_owned();
    append_decimal_wide(&mut text, total as u128);
    text.append(" entries, showing first ");
    append_decimal_wide(&mut text, limit as u128);
    text.append(")\n");
    let ghost head = text@;
    let threads = threads_of(calls, limit);
    let ghost names = strings_view(threads@);
    let mut i: usize = 0;
    assert(text@ =~= head + threads_text(all, *config, names, limit as int, 0));
    while i < threads.len()
        invariant
            i <= threads.len(),
            limit <= calls.len(),
            all == previews_view(calls@),
            names == strings_view(threads@),
            text@ == head + threads_text(all, *config, names, limit as int, i as int),
        decreases threads.len() - i,
    {
        assert(names[i as int] == threads@[i as int]@);
        append_thread(&mut text, calls, config, threads[i].as_str(), limit);
        i += 1;
        assert(text@ =~= head + threads_text(all, *config, names, limit as int, i as int));
    }
    if total > limit {
        text.append("... ");
        append_decimal_wide(&mut text, (total - limit) as u128);
        text.append(" more entries omitted\n");
    }
    assert(text@ =~= preview_text(all, *config));
    text
}

} // verus!
