//! The text of the trace file: call nodes and records as pretty-printed
//! JSON, two spaces to a level.

use crate::trace_data::{CallData, CallNode, CallTree, Encoded, RecordView};
use crate::tracer::{ErrorView, TraceError};
use crate::text::{joined_with, push_char};
use vstd::prelude::*;
use vstd::string::StringExecFns;

verus! {

/// `serde_json::Value`: a JSON value, carried through as it is.
#[verifier::external_type_specification]
#[verifier::external_body]
pub struct ExJsonValue(serde_json::Value);

/// `serde_json::Error`: what the encoder gives when it fails.
#[verifier::external_type_specification]
#[verifier::external_body]
pub struct ExJsonError(serde_json::Error);

/// The lower-case hexadecimal digit for a number below sixteen.
pub open spec fn hex_digit(d: int) -> char {
    if d == 0 {
        '0'
    } else if d == 1 {
        '1'
    } else if d == 2 {
        '2'
    } else if d == 3 {
        '3'
    } else if d == 4 {
        '4'
    } else if d == 5 {
        '5'
    } else if d == 6 {
        '6'
    } else if d == 7 {
        '7'
    } else if d == 8 {
        '8'
    } else if d == 9 {
        '9'
    } else if d == 10 {
        'a'
    } else if d == 11 {
        'b'
    } else if d == 12 {
        'c'
    } else if d == 13 {
        'd'
    } else if d == 14 {
        'e'
    } else {
        'f'
    }
}

/// How one character stands inside a JSON string: the quote, the backslash
/// and the control characters are escaped, every other character stands for
/// itself.
pub open spec fn escaped_char(c: char) -> Seq<char> {
    if c == '"' {
        seq!['\\', '"']
    } else if c == '\\' {
        seq!['\\', '\\']
    } else if c == '\u{8}' {
        seq!['\\', 'b']
    } else if c == '\t' {
        seq!['\\', 't']
    } else if c == '\n' {
        seq!['\\', 'n']
    } else if c == '\u{c}' {
        seq!['\\', 'f']
    } else if c == '\r' {
        seq!['\\', 'r']
    } else if (c as int) < 32 {
        seq!['\\', 'u', '0', '0', hex_digit((c as int) / 16), hex_digit((c as int) % 16)]
    } else {
        seq![c]
    }
}

/// The escaped characters of a string, one after the other.
pub open spec fn escaped(s: Seq<char>) -> Seq<char>
    decreases s.len(),
{
    if s.len() == 0 {
        Seq::empty()
    } else {
        escaped(s.drop_last()) + escaped_char(s.last())
    }
}

/// A string as a JSON string literal.
pub open spec fn json_string(s: Seq<char>) -> Seq<char> {
    seq!['"'] + escaped(s) + seq!['"']
}

fn hex_digit_of(d: u32) -> (c: char)
    requires
        d < 16,
    ensures
        c == hex_digit(d as int),
{
    if d == 0 {
        '0'
    } else if d == 1 {
        '1'
    } else if d == 2 {
        '2'
    } else if d == 3 {
        '3'
    } else if d == 4 {
        '4'
    } else if d == 5 {
        '5'
    } else if d == 6 {
        '6'
    } else if d == 7 {
        '7'
    } else if d == 8 {
        '8'
    } else if d == 9 {
        '9'
    } else if d == 10 {
        'a'
    } else if d == 11 {
        'b'
    } else if d == 12 {
        'c'
    } else if d == 13 {
        'd'
    } else if d == 14 {
        'e'
    } else {
        'f'
    }
}

fn append_escaped_char(out: &mut String, c: char)
    ensures
        final(out)@ == old(out)@ + escaped_char(c),
{
    let n = c as u32;
    if c == '"' {
        push_char(out, '\\');
        push_char(out, '"');
    } else if c == '\\' {
        push_char(out, '\\');
        push_char(out, '\\');
    } else if n == 8 {
        push_char(out, '\\');
        push_char(out, 'b');
    } else if n == 9 {
        push_char(out, '\\');
        push_char(out, 't');
    } else if n == 10 {
        push_char(out, '\\');
        push_char(out, 'n');
    } else if n == 12 {
        push_char(out, '\\');
        push_char(out, 'f');
    } else if n == 13 {
        push_char(out, '\\');
        push_char(out, 'r');
    } else if n < 32 {
        push_char(out, '\\');
        push_char(out, 'u');
        push_char(out, '0');
        push_char(out, '0');
        push_char(out, hex_digit_of(n / 16));
        push_char(out, hex_digit_of(n % 16));
    } else {
        push_char(out, c);
    }
    assert(out@ =~= old(out)@ + escaped_char(c));
}

/// Appends a string as a JSON string literal.
pub fn append_json_string(out: &mut String, s: &str)
    ensures
        final(out)@ == old(out)@ + json_string(s@),
{
    push_char(out, '"');
    let ghost start = out@;
    assert(s@.take(0) =~= Seq::<char>::empty());
    assert(out@ =~= start + escaped(s@.take(0)));
    for c in it: s.chars()
        invariant
            it.seq() == s@,
            start == old(out)@.push('"'),
            out@ == start + escaped(s@.take(it.index() as int)),
    {
        let ghost k = it.index() as int;
        let ghost before = out@;
        append_escaped_char(out, c);
        proof {
            let head = s@.take(k + 1);
            assert(head.drop_last() =~= s@.take(k));
            assert(head.last() == c);
            assert(out@ =~= start + escaped(head));
        }
    }
    assert(s@.take(s@.len() as int) =~= s@);
    push_char(out, '"');
    assert(out@ =~= old(out)@ + json_string(s@));
}

/// What the encoder makes of a JSON value: its pretty-printed text, an
/// item of an array or an entry of an object to a line, two spaces to a
/// level; or the encoder's error.
pub uninterp spec fn pretty_json(value: serde_json::Value) -> Result<Seq<char>, serde_json::Error>;

/// The message of an encoder's error.
pub uninterp spec fn encoder_message(e: serde_json::Error) -> Seq<char>;

/// A JSON value as a record holds it: its pretty-printed text, or the
/// encoder's message where the encoder gives no text.
pub open spec fn encoded_text(value: serde_json::Value) -> Result<Seq<char>, Seq<char>> {
    match pretty_json(value) {
        Ok(text) => Ok(text),
        Err(e) => Err(encoder_message(e)),
    }
}

/// `serde_json::to_string_pretty` on a JSON value: its pretty-printed text,
/// or the encoder's error. What comes back goes by the value alone.
#[verifier::external_body]
pub(crate) fn encode_value(value: &serde_json::Value) -> (r: Result<String, serde_json::Error>)
    ensures
        match r {
            Ok(text) => pretty_json(*value) == Ok::<Seq<char>, serde_json::Error>(text@),
            Err(e) => pretty_json(*value) == Err::<Seq<char>, serde_json::Error>(e),
        },
{
    serde_json::to_string_pretty(value)
}

/// The message of a `serde_json::Error`, as its `Display` impl writes it.
#[verifier::external_body]
pub(crate) fn error_text(e: &serde_json::Error) -> (message: String)
    ensures
        message@ == encoder_message(*e),
{
    e.to_string()
}

/// The JSON text of a value, or the encoder's message where it has none.
pub fn encode(value: &serde_json::Value) -> (encoded: Encoded)
    ensures
        encoded@ == encoded_text(*value),
{
    match encode_value(value) {
        Ok(text) => Encoded::Text(text),
        Err(e) => Encoded::Failed(error_text(&e)),
    }
}

/// The decimal digit for a number below ten.
pub open spec fn digit_char(d: int) -> char {
    hex_digit(if 0 <= d < 10 { d } else { 0 })
}

/// A natural number in decimal, without leading zeros.
pub open spec fn decimal(n: nat) -> Seq<char>
    decreases n,
{
    if n < 10 {
        seq![digit_char(n as int)]
    } else {
        decimal(n / 10).push(digit_char((n % 10) as int))
    }
}

fn digit_of(d: u64) -> (c: char)
    requires
        d < 10,
    ensures
        c == digit_char(d as int),
{
    if d == 0 {
        '0'
    } else if d == 1 {
        '1'
    } else if d == 2 {
        '2'
    } else if d == 3 {
        '3'
    } else if d == 4 {
        '4'
    } else if d == 5 {
        '5'
    } else if d == 6 {
        '6'
    } else if d == 7 {
        '7'
    } else if d == 8 {
        '8'
    } else {
        '9'
    }
}

/// Appends a number in decimal.
pub fn append_decimal(out: &mut String, n: u64)
    ensures
        final(out)@ == old(out)@ + decimal(n as nat),
{
    append_decimal_wide(out, n as u128);
}

/// Appends a number of any size in decimal.
pub fn append_decimal_wide(out: &mut String, n: u128)
    ensures
        final(out)@ == old(out)@ + decimal(n as nat),
    decreases n,
{
    if n >= 10 {
        append_decimal_wide(out, n / 10);
    }
    push_char(out, digit_of((n % 10) as u64));
    assert(out@ =~= old(out)@ + decimal(n as nat));
}

/// A text with `indent` put behind each of its line breaks: the text of a
/// nested value, moved to the right.
pub open spec fn indented(text: Seq<char>, indent: Seq<char>) -> Seq<char>
    decreases text.len(),
{
    if text.len() == 0 {
        Seq::empty()
    } else if text.last() == '\n' {
        indented(text.drop_last(), indent).push('\n') + indent
    } else {
        indented(text.drop_last(), indent).push(text.last())
    }
}

/// Appends `text`, with `indent` behind each of its line breaks.
pub fn append_indented(out: &mut String, text: &str, indent: &str)
    ensures
        final(out)@ == old(out)@ + indented(text@, indent@),
{
    for c in it: text.chars()
        invariant
            it.seq() == text@,
            out@ == old(out)@ + indented(text@.take(it.index() as int), indent@),
    {
        let ghost before = out@;
        let ghost k = it.index() as int;
        push_char(out, c);
        if c == '\n' {
            out.append(indent);
        }
        proof {
            let head = text@.take(k + 1);
            assert(head.drop_last() =~= text@.take(k));
            assert(head.last() == c);
            assert(out@ =~= old(out)@ + indented(head, indent@));
        }
    }
    assert(text@.take(text@.len() as int) =~= text@);
}

/// The opening of a node's text, up to the place of its children: the
/// brace and the fields `name`, `file` and `line`, each behind `inner`.
pub open spec fn node_open_json(t: CallTree, inner: Seq<char>) -> Seq<char> {
    "{\n"@ + inner + "\"name\": "@ + json_string(t.name) + ",\n"@ + inner + "\"file\": "@
        + json_string(t.file) + ",\n"@ + inner + "\"line\": "@ + decimal(t.line as nat) + ",\n"@
        + inner + "\"children\": "@
}

/// The text of a call node whose opening brace stands behind `indent`.
pub open spec fn node_json(t: CallTree, indent: Seq<char>) -> Seq<char>
    decreases t, t.children.len() + 2,
{
    node_open_json(t, indent + "  "@) + children_json(t, indent + "  "@) + "\n"@ + indent + "}"@
}

/// The text of a node's children: an array, empty or one child to a line.
pub open spec fn children_json(t: CallTree, indent: Seq<char>) -> Seq<char>
    decreases t, t.children.len() + 1,
{
    if t.children.len() == 0 {
        "[]"@
    } else {
        "["@ + child_items_json(t, indent, t.children.len()) + "\n"@ + indent + "]"@
    }
}

/// The first `count` children of a node as array items, each on a line of
/// its own, a comma behind all but the last.
pub open spec fn child_items_json(t: CallTree, indent: Seq<char>, count: nat) -> Seq<char>
    decreases t, count,
{
    if count == 0 || count > t.children.len() {
        Seq::empty()
    } else {
        child_items_json(t, indent, (count - 1) as nat) + (if count == 1 {
            "\n"@
        } else {
            ",\n"@
        }) + (indent + "  "@) + node_json(t.children[count - 1], indent + "  "@)
    }
}

/// Whether both values of a record have JSON text.
pub open spec fn encodable(r: RecordView) -> bool {
    r.inputs is Ok && r.output is Ok
}

/// The opening of a record's text, up to the place of its root node.
pub open spec fn record_open_json(r: RecordView, inner: Seq<char>) -> Seq<char> {
    "{\n"@ + inner + "\"timestamp_utc\": "@ + json_string(r.timestamp_utc) + ",\n"@ + inner
        + "\"thread_id\": "@ + json_string(r.thread_id) + ",\n"@ + inner + "\"root_node\": "@
}

/// The message with which a record is refused that cannot be written: that
/// of its inputs, else that of its output.
pub open spec fn refusal(r: RecordView) -> Option<Seq<char>> {
    match r.inputs {
        Err(m) => Some(m),
        Ok(_) => match r.output {
            Err(m) => Some(m),
            Ok(_) => None,
        },
    }
}

/// The text of a record whose opening brace stands behind `indent`: the
/// fields `timestamp_utc`, `thread_id`, `root_node`, `inputs` and `output`,
/// in this order, the two values moved to the right by their nesting.
#[verifier::opaque]
pub open spec fn record_json(r: RecordView, indent: Seq<char>) -> Seq<char>
    recommends
        encodable(r),
{
    let inner = indent + "  "@;
    record_open_json(r, inner) + node_json(r.root_node, inner) + ",\n"@ + inner + "\"inputs\": "@
        + indented(r.inputs->Ok_0, inner) + ",\n"@ + inner + "\"output\": "@ + indented(
        r.output->Ok_0,
        inner,
    ) + "\n"@ + indent + "}"@
}

/// The first `count` records as array items, each indented by one level, a
/// comma behind all but the last.
pub open spec fn record_items_json(records: Seq<RecordView>, count: nat) -> Seq<char>
    decreases count,
{
    if count == 0 || count > records.len() {
        Seq::empty()
    } else {
        record_items_json(records, (count - 1) as nat) + (if count == 1 {
            "\n"@
        } else {
            ",\n"@
        }) + "  "@ + record_json(records[count - 1], "  "@)
    }
}

/// The text of a whole buffer: a JSON array of its records.
pub open spec fn records_json(records: Seq<RecordView>) -> Seq<char> {
    if records.len() == 0 {
        "[]"@
    } else {
        "["@ + record_items_json(records, records.len()) + "\n]"@
    }
}

/// Whether every record of a buffer can be written.
pub open spec fn all_encodable(records: Seq<RecordView>) -> bool {
    forall|i: int| 0 <= i < records.len() ==> encodable(#[trigger] records[i])
}

/// Appends `piece` to a text that is known to be `base` followed by `done`.
fn put(out: &mut String, piece: &str, Ghost(base): Ghost<Seq<char>>, Ghost(done): Ghost<Seq<char>>)
    requires
        old(out)@ == base + done,
    ensures
        final(out)@ == base + (done + piece@),
{
    out.append(piece);
    assert(out@ =~= base + (done + piece@));
}

/// Appends a string literal to a text that is known to be `base` followed
/// by `done`.
fn put_json_string(
    out: &mut String,
    s: &str,
    Ghost(base): Ghost<Seq<char>>,
    Ghost(done): Ghost<Seq<char>>,
)
    requires
        old(out)@ == base + done,
    ensures
        final(out)@ == base + (done + json_string(s@)),
{
    append_json_string(out, s);
    assert(out@ =~= base + (done + json_string(s@)));
}

/// Appends a number to a text that is known to be `base` followed by `done`.
fn put_decimal(out: &mut String, n: u64, Ghost(base): Ghost<Seq<char>>, Ghost(done): Ghost<Seq<char>>)
    requires
        old(out)@ == base + done,
    ensures
        final(out)@ == base + (done + decimal(n as nat)),
{
    append_decimal(out, n);
    assert(out@ =~= base + (done + decimal(n as nat)));
}

/// Appends the opening of a node's text.
fn render_node_open(node: &CallNode, inner: &str, out: &mut String)
    ensures
        final(out)@ == old(out)@ + node_open_json(node@, inner@),
{
    let ghost base = out@;
    out.append("{\n");
    let ghost d0 = "{\n"@;
    put(out, inner, Ghost(base), Ghost(d0));
    let ghost d1 = d0 + inner@;
    put(out, "\"name\": ", Ghost(base), Ghost(d1));
    let ghost d2 = d1 + "\"name\": "@;
    put_json_string(out, node.name.as_str(), Ghost(base), Ghost(d2));
    let ghost d3 = d2 + json_string(node.name@);
    put(out, ",\n", Ghost(base), Ghost(d3));
    let ghost d4 = d3 + ",\n"@;
    put(out, inner, Ghost(base), Ghost(d4));
    let ghost d5 = d4 + inner@;
    put(out, "\"file\": ", Ghost(base), Ghost(d5));
    let ghost d6 = d5 + "\"file\": "@;
    put_json_string(out, node.file.as_str(), Ghost(base), Ghost(d6));
    let ghost d7 = d6 + json_string(node.file@);
    put(out, ",\n", Ghost(base), Ghost(d7));
    let ghost d8 = d7 + ",\n"@;
    put(out, inner, Ghost(base), Ghost(d8));
    let ghost d9 = d8 + inner@;
    put(out, "\"line\": ", Ghost(base), Ghost(d9));
    let ghost d10 = d9 + "\"line\": "@;
    put_decimal(out, node.line as u64, Ghost(base), Ghost(d10));
    let ghost d11 = d10 + decimal(node.line as nat);
    put(out, ",\n", Ghost(base), Ghost(d11));
    let ghost d12 = d11 + ",\n"@;
    put(out, inner, Ghost(base), Ghost(d12));
    let ghost d13 = d12 + inner@;
    put(out, "\"children\": ", Ghost(base), Ghost(d13));
}

/// Appends the text of a node.
pub fn render_node(node: &CallNode, indent: &str, out: &mut String)
    ensures
        final(out)@ == old(out)@ + node_json(node@, indent@),
    decreases node,
{
    let mut inner = indent.to_owned();
    inner.append("  ");
    let ghost base = out@;
    render_node_open(node, inner.as_str(), out);
    let ghost d0 = node_open_json(node@, inner@);
    let ghost d1;
    if node.children.len() == 0 {
        put(out, "[]", Ghost(base), Ghost(d0));
        proof {
            d1 = d0 + children_json(node@, inner@);
        }
    } else {
        let mut deeper = inner.clone();
        deeper.append("  ");
        put(out, "[", Ghost(base), Ghost(d0));
        let ghost open = d0 + "["@;
        let mut k: usize = 0;
        while k < node.children.len()
            invariant
                k <= node.children.len(),
                deeper@ == inner@ + "  "@,
                out@ == base + (open + child_items_json(node@, inner@, k as nat)),
            decreases node.children.len() - k,
        {
            let ghost items = open + child_items_json(node@, inner@, k as nat);
            let ghost sep = if k == 0 { "\n"@ } else { ",\n"@ };
            if k == 0 {
                put(out, "\n", Ghost(base), Ghost(items));
            } else {
                put(out, ",\n", Ghost(base), Ghost(items));
            }
            put(out, deeper.as_str(), Ghost(base), Ghost(items + sep));
            let ghost before = out@;
            render_node(&node.children[k], deeper.as_str(), out);
            k += 1;
            proof {
                let child = node_json(node@.children[k - 1], deeper@);
                assert(node@.children[k - 1] == node.children@[k - 1]@);
                assert(out@ == before + child);
                assert(child_items_json(node@, inner@, k as nat) == child_items_json(
                    node@,
                    inner@,
                    (k - 1) as nat,
                ) + sep + deeper@ + child);
                assert(out@ =~= base + (open + child_items_json(node@, inner@, k as nat)));
            }
        }
        let ghost items = open + child_items_json(node@, inner@, k as nat);
        put(out, "\n", Ghost(base), Ghost(items));
        put(out, inner.as_str(), Ghost(base), Ghost(items + "\n"@));
        put(out, "]", Ghost(base), Ghost(items + "\n"@ + inner@));
        proof {
            d1 = d0 + children_json(node@, inner@);
            assert(items + "\n"@ + inner@ + "]"@ =~= d1);
        }
    }
    assert(out@ == base + d1);
    put(out, "\n", Ghost(base), Ghost(d1));
    put(out, indent, Ghost(base), Ghost(d1 + "\n"@));
    put(out, "}", Ghost(base), Ghost(d1 + "\n"@ + indent@));
}

/// Appends an indented text to a text that is known to be `base` followed by `done`.
fn put_indented(
    out: &mut String,
    text: &str,
    indent: &str,
    Ghost(base): Ghost<Seq<char>>,
    Ghost(done): Ghost<Seq<char>>,
)
    requires
        old(out)@ == base + done,
    ensures
        final(out)@ == base + (done + indented(text@, indent@)),
{
    append_indented(out, text, indent);
    assert(out@ =~= base + (done + indented(text@, indent@)));
}

/// Appends the opening of a record's text.
fn render_record_open(rec: &CallData, inner: &str, out: &mut String)
    ensures
        final(out)@ == old(out)@ + record_open_json(rec@, inner@),
{
    let ghost base = out@;
    out.append("{\n");
    let ghost d0 = "{\n"@;
    put(out, inner, Ghost(base), Ghost(d0));
    let ghost d1 = d0 + inner@;
    put(out, "\"timestamp_utc\": ", Ghost(base), Ghost(d1));
    let ghost d2 = d1 + "\"timestamp_utc\": "@;
    put_json_string(out, rec.timestamp_utc.as_str(), Ghost(base), Ghost(d2));
    let ghost d3 = d2 + json_string(rec.timestamp_utc@);
    put(out, ",\n", Ghost(base), Ghost(d3));
    let ghost d4 = d3 + ",\n"@;
    put(out, inner, Ghost(base), Ghost(d4));
    let ghost d5 = d4 + inner@;
    put(out, "\"thread_id\": ", Ghost(base), Ghost(d5));
    let ghost d6 = d5 + "\"thread_id\": "@;
    put_json_string(out, rec.thread_id.as_str(), Ghost(base), Ghost(d6));
    let ghost d7 = d6 + json_string(rec.thread_id@);
    put(out, ",\n", Ghost(base), Ghost(d7));
    let ghost d8 = d7 + ",\n"@;
    put(out, inner, Ghost(base), Ghost(d8));
    let ghost d9 = d8 + inner@;
    put(out, "\"root_node\": ", Ghost(base), Ghost(d9));
}

/// Appends the text of a record. A record with a value that has no JSON
/// text is refused with that value's message, and `out` stays as it was.
pub fn render_record(rec: &CallData, indent: &str, out: &mut String) -> (r: Result<(), TraceError>)
    ensures
        match refusal(rec@) {
            None => r is Ok && final(out)@ == old(out)@ + record_json(rec@, indent@),
            Some(m) => final(out)@ == old(out)@ && (r matches Err(e) && e@
                == ErrorView::Serialization(m)),
        },
{
    let inputs = match &rec.inputs {
        Encoded::Text(t) => t,
        Encoded::Failed(m) => { return Err(TraceError::Serialization(m.clone())); },
    };
    let output = match &rec.output {
        Encoded::Text(t) => t,
        Encoded::Failed(m) => { return Err(TraceError::Serialization(m.clone())); },
    };
    proof {
        reveal(record_json);
    }
    let mut inner = indent.to_owned();
    inner.append("  ");
    let ghost base = out@;
    render_record_open(rec, inner.as_str(), out);
    let ghost d0 = record_open_json(rec@, inner@);
    render_node(&rec.root_node, inner.as_str(), out);
    let ghost d1 = d0 + node_json(rec@.root_node, inner@);
    assert(out@ =~= base + d1);
    put(out, ",\n", Ghost(base), Ghost(d1));
    let ghost d2 = d1 + ",\n"@;
    put(out, inner.as_str(), Ghost(base), Ghost(d2));
    let ghost d3 = d2 + inner@;
    put(out, "\"inputs\": ", Ghost(base), Ghost(d3));
    let ghost d4 = d3 + "\"inputs\": "@;
    put_indented(out, inputs.as_str(), inner.as_str(), Ghost(base), Ghost(d4));
    let ghost d5 = d4 + indented(inputs@, inner@);
    put(out, ",\n", Ghost(base), Ghost(d5));
    let ghost d6 = d5 + ",\n"@;
    put(out, inner.as_str(), Ghost(base), Ghost(d6));
    let ghost d7 = d6 + inner@;
    put(out, "\"output\": ", Ghost(base), Ghost(d7));
    let ghost d8 = d7 + "\"output\": "@;
    put_indented(out, output.as_str(), inner.as_str(), Ghost(base), Ghost(d8));
    let ghost d9 = d8 + indented(output@, inner@);
    put(out, "\n", Ghost(base), Ghost(d9));
    let ghost d10 = d9 + "\n"@;
    put(out, indent, Ghost(base), Ghost(d10));
    let ghost d11 = d10 + indent@;
    put(out, "}", Ghost(base), Ghost(d11));
    Ok(())
}

/// The message with which a buffer is refused: that of the first record,
/// at or behind `from`, that cannot be written. `None` where all can.
pub open spec fn first_refusal(records: Seq<RecordView>, from: int) -> Option<Seq<char>>
    decreases records.len() - from,
{
    if from < 0 || from >= records.len() {
        None
    } else {
        match refusal(records[from]) {
            Some(m) => Some(m),
            None => first_refusal(records, from + 1),
        }
    }
}

/// A buffer is refused if and only if one of its records cannot be
/// written.
pub proof fn lemma_refused_means_unencodable(records: Seq<RecordView>, from: int)
    requires
        0 <= from <= records.len(),
    ensures
        first_refusal(records, from) is None <==> forall|i: int|
            from <= i < records.len() ==> encodable(#[trigger] records[i]),
        from == 0 ==> (first_refusal(records, 0) is None <==> all_encodable(records)),
    decreases records.len() - from,
{
    if from < records.len() {
        lemma_refused_means_unencodable(records, from + 1);
        if first_refusal(records, from) is None {
            assert forall|i: int| from <= i < records.len() implies encodable(
                #[trigger] records[i],
            ) by {
                if i > from {
                }
            }
        } else if refusal(records[from]) is Some {
            assert(!encodable(records[from]));
        }
    }
}

/// The text of a whole buffer. A buffer with a record that cannot be
/// written is refused with the message of the first such record.
pub fn render_records(records: &Vec<CallData>) -> (r: Result<String, TraceError>)
    ensures
        match first_refusal(crate::trace_data::records_view(records@), 0) {
            None => r matches Ok(text) && text@ == records_json(
                crate::trace_data::records_view(records@),
            ),
            Some(m) => r matches Err(e) && e@ == ErrorView::Serialization(m),
        },
{
    let ghost views = crate::trace_data::records_view(records@);
    let mut out = String::new();
    if records.len() == 0 {
        out.append("[]");
        assert(out@ =~= "[]"@);
        return Ok(out);
    }
    out.append("[");
    let ghost base = out@;
    assert(base =~= "["@);
    assert(out@ =~= base + record_items_json(views, 0));
    let mut k: usize = 0;
    while k < records.len()
        invariant
            k <= records.len(),
            views == crate::trace_data::records_view(records@),
            base == "["@,
            out@ == base + record_items_json(views, k as nat),
            first_refusal(views, 0) == first_refusal(views, k as int),
        decreases records.len() - k,
    {
        let ghost items = record_items_json(views, k as nat);
        let ghost sep = if k == 0 { "\n"@ } else { ",\n"@ };
        if k == 0 {
            put(&mut out, "\n", Ghost(base), Ghost(items));
        } else {
            put(&mut out, ",\n", Ghost(base), Ghost(items));
        }
        put(&mut out, "  ", Ghost(base), Ghost(items + sep));
        let ghost before = out@;
        assert(views[k as int] == records@[k as int]@);
        match render_record(&records[k], "  ", &mut out) {
            Ok(()) => {},
            Err(e) => { return Err(e); },
        }
        k += 1;
        proof {
            let item = record_json(views[k - 1], "  "@);
            assert(out@ == before + item);
            assert(record_items_json(views, k as nat) == items + sep + "  "@ + item);
            assert(out@ =~= base + record_items_json(views, k as nat));
        }
    }
    out.append("\n]");
    assert(out@ =~= records_json(views));
    Ok(out)
}

/// What opens a streamed trace file.
pub open spec fn stream_header() -> Seq<char> {
    "[\n"@
}

/// What closes a streamed trace file.
pub open spec fn stream_trailer() -> Seq<char> {
    "\n]\n"@
}

/// What is appended to a streamed file for a record that comes behind
/// `count` others: a separating comma unless it is the first, then the text
/// of the record.
pub open spec fn stream_chunk(count: nat, r: RecordView) -> Seq<char>
    recommends
        encodable(r),
{
    (if count == 0 {
        Seq::<char>::empty()
    } else {
        ",\n"@
    }) + record_json(r, Seq::empty())
}

/// The contents of a streamed file that is still open, given the records
/// written to it so far.
pub open spec fn stream_contents(written: Seq<RecordView>) -> Seq<char>
    decreases written.len(),
{
    if written.len() == 0 {
        stream_header()
    } else {
        stream_contents(written.drop_last()) + stream_chunk(
            (written.len() - 1) as nat,
            written.last(),
        )
    }
}

/// The text to append for one more record of a stream that holds `count`.
/// A record that cannot be written is refused with its message.
pub fn render_stream_chunk(count: usize, rec: &CallData) -> (r: Result<String, TraceError>)
    ensures
        match refusal(rec@) {
            None => r matches Ok(text) && text@ == stream_chunk(count as nat, rec@),
            Some(m) => r matches Err(e) && e@ == ErrorView::Serialization(m),
        },
{
    let mut out = String::new();
    if count > 0 {
        out.append(",\n");
    }
    let ghost sep = out@;
    assert(sep =~= if count == 0 { Seq::<char>::empty() } else { ",\n"@ });
    let empty = String::new();
    match render_record(rec, empty.as_str(), &mut out) {
        Ok(()) => {},
        Err(e) => { return Err(e); },
    }
    assert(empty@ =~= Seq::<char>::empty());
    Ok(out)
}

/// The contents of a streamed file once it is closed: what it held open,
/// then the trailer.
pub open spec fn closed_stream_contents(written: Seq<RecordView>) -> Seq<char> {
    stream_contents(written) + stream_trailer()
}

/// Each record that is appended to a streamed file makes the file's
/// contents longer by its chunk: the separator, unless it is the first
/// record, and the record's text.
pub proof fn lemma_stream_grows_by_chunk(written: Seq<RecordView>, r: RecordView)
    ensures
        stream_contents(written.push(r)) == stream_contents(written) + stream_chunk(
            written.len(),
            r,
        ),
{
    assert(written.push(r).drop_last() =~= written);
}

/// A streamed file that holds no record yet holds the header alone, and
/// its first record follows the header without a separator. Closed, a
/// file holds what it held open and the trailer.
pub proof fn lemma_first_streamed_record(r: RecordView)
    ensures
        stream_contents(Seq::empty()) == stream_header(),
        stream_contents(seq![r]) == stream_header() + record_json(r, Seq::empty()),
        closed_stream_contents(Seq::empty()) == stream_header() + stream_trailer(),
        closed_stream_contents(seq![r]) == stream_header() + record_json(r, Seq::empty())
            + stream_trailer(),
{
    lemma_stream_grows_by_chunk(Seq::empty(), r);
    assert(Seq::<RecordView>::empty().push(r) =~= seq![r]);
    assert(Seq::<char>::empty() + record_json(r, Seq::empty()) =~= record_json(r, Seq::empty()));
}

/// The texts of the records of a streamed file, in the order in which
/// they were written.
pub open spec fn streamed_items(written: Seq<RecordView>) -> Seq<Seq<char>> {
    Seq::new(written.len(), |i: int| record_json(written[i], Seq::empty()))
}

/// A streamed file is an array of the records written to it and of
/// nothing else: the opening bracket, then the text of each record, in
/// order, with a comma between each two; once the file is closed, the
/// closing bracket. After N records it holds N items.
pub proof fn lemma_stream_is_an_array(written: Seq<RecordView>)
    ensures
        streamed_items(written).len() == written.len(),
        stream_contents(written) == "[\n"@ + joined_with(streamed_items(written), ",\n"@),
        closed_stream_contents(written) == "[\n"@ + joined_with(
            streamed_items(written),
            ",\n"@,
        ) + "\n]\n"@,
    decreases written.len(),
{
    let items = streamed_items(written);
    if written.len() == 0 {
        assert("[\n"@ + joined_with(items, ",\n"@) =~= "[\n"@);
    } else {
        let earlier = written.drop_last();
        lemma_stream_is_an_array(earlier);
        assert(items.drop_last() =~= streamed_items(earlier));
        assert(items.last() == record_json(written.last(), Seq::empty()));
        if written.len() == 1 {
            assert(joined_with(streamed_items(earlier), ",\n"@) =~= Seq::<char>::empty());
            assert("[\n"@ + joined_with(items, ",\n"@) =~= "[\n"@ + joined_with(
                streamed_items(earlier),
                ",\n"@,
            ) + (Seq::<char>::empty() + items.last()));
        } else {
            assert("[\n"@ + joined_with(items, ",\n"@) =~= "[\n"@ + joined_with(
                streamed_items(earlier),
                ",\n"@,
            ) + (",\n"@ + items.last()));
        }
    }
}

} // verus!
