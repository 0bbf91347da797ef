//! What instrumented code and the tracer share: a plain record of one
//! call, and the placeholders that stand for values without JSON text.

use crate::text::{all_digits, chars_of, digit_value, first_index_of, index_of_char};
use vstd::prelude::*;
use vstd::string::StringExecFns;

verus! {

/// Whether a character is a decimal digit.
pub open spec fn is_digit(c: char) -> bool {
    digit_value(c) is Some
}

/// A year as a timestamp writes it: four digits; a year past 9999 with a
/// plus sign before its digits.
pub open spec fn is_year_text(s: Seq<char>) -> bool {
    ||| s.len() == 4 && all_digits(s)
    ||| s.len() >= 6 && s[0] == '+' && all_digits(s.skip(1))
}

/// What stands behind the year: month, day and time of day by two digits
/// each, as in `-03-09T07:05:01`.
pub open spec fn is_clock_text(s: Seq<char>) -> bool {
    &&& s.len() == 15
    &&& s[0] == '-' && is_digit(s[1]) && is_digit(s[2])
    &&& s[3] == '-' && is_digit(s[4]) && is_digit(s[5])
    &&& s[6] == 'T' && is_digit(s[7]) && is_digit(s[8])
    &&& s[9] == ':' && is_digit(s[10]) && is_digit(s[11])
    &&& s[12] == ':' && is_digit(s[13]) && is_digit(s[14])
}

/// The fraction of a second: nothing, or a point and three, six or nine
/// digits.
pub open spec fn is_fraction_text(s: Seq<char>) -> bool {
    ||| s.len() == 0
    ||| (s.len() == 4 || s.len() == 7 || s.len() == 10) && s[0] == '.' && all_digits(s.skip(1))
}

/// Whether a text has the shape of an RFC 3339 timestamp in UTC with a
/// numeric offset, as in `2024-03-09T07:05:01.250+00:00`: year, month,
/// day, `T`, time of day, an optional fraction of a second, `+00:00`.
pub open spec fn is_utc_timestamp(s: Seq<char>) -> bool {
    let year = first_index_of(s, '-');
    &&& year + 21 <= s.len()
    &&& is_year_text(s.subrange(0, year))
    &&& is_clock_text(s.subrange(year, year + 15))
    &&& is_fraction_text(s.subrange(year + 15, s.len() - 6))
    &&& s.subrange(s.len() - 6, s.len() as int) == "+00:00"@
}

/// Whether the characters from `from` up to `to` are digits.
fn digits_between(v: &Vec<char>, from: usize, to: usize) -> (b: bool)
    requires
        from <= to <= v.len(),
    ensures
        b == all_digits(v@.subrange(from as int, to as int)),
{
    let mut i: usize = from;
    while i < to
        invariant
            from <= i <= to <= v.len(),
            forall|k: int| from <= k < i ==> is_digit(#[trigger] v@[k]),
        decreases to - i,
    {
        let c: char = v[i];
        if !('0' <= c && c <= '9') {
            assert(!is_digit(v@.subrange(from as int, to as int)[i - from]));
            return false;
        }
        i += 1;
    }
    assert forall|k: int| 0 <= k < to - from implies is_digit(
        #[trigger] v@.subrange(from as int, to as int)[k],
    ) by {
        assert(is_digit(v@[from + k]));
    }
    true
}

/// Whether the characters before `to` are a year.
fn year_between(v: &Vec<char>, to: usize) -> (b: bool)
    requires
        to <= v.len(),
    ensures
        b == is_year_text(v@.subrange(0, to as int)),
{
    let ghost s = v@.subrange(0, to as int);
    if to == 4 {
        digits_between(v, 0, to)
    } else if to >= 6 && v[0] == '+' {
        assert(s.skip(1) =~= v@.subrange(1, to as int));
        digits_between(v, 1, to)
    } else {
        false
    }
}

/// Whether the fifteen characters from `from` on are month, day and time
/// of day.
fn clock_at(v: &Vec<char>, from: usize) -> (b: bool)
    requires
        from + 15 <= v.len(),
    ensures
        b == is_clock_text(v@.subrange(from as int, from + 15)),
{
    let ghost s = v@.subrange(from as int, from + 15);
    assert(forall|k: int| 0 <= k < 15 ==> s[k] == v@[from + k]);
    let marks = v[from] == '-' && v[from + 3] == '-' && v[from + 6] == 'T' && v[from + 9] == ':'
        && v[from + 12] == ':';
    let pairs = digits_between(v, from + 1, from + 3) && digits_between(v, from + 4, from + 6)
        && digits_between(v, from + 7, from + 9) && digits_between(v, from + 10, from + 12)
        && digits_between(v, from + 13, from + 15);
    proof {
        lemma_pair(v@, from + 1);
        lemma_pair(v@, from + 4);
        lemma_pair(v@, from + 7);
        lemma_pair(v@, from + 10);
        lemma_pair(v@, from + 13);
    }
    marks && pairs
}

/// Two characters are digits where each of them is.
proof fn lemma_pair(s: Seq<char>, at: int)
    requires
        0 <= at,
        at + 2 <= s.len(),
    ensures
        all_digits(s.subrange(at, at + 2)) == (is_digit(s[at]) && is_digit(s[at + 1])),
{
    let pair = s.subrange(at, at + 2);
    assert(pair[0] == s[at] && pair[1] == s[at + 1]);
}

/// Whether the characters from `from` up to `to` are a fraction of a
/// second.
fn fraction_between(v: &Vec<char>, from: usize, to: usize) -> (b: bool)
    requires
        from <= to <= v.len(),
    ensures
        b == is_fraction_text(v@.subrange(from as int, to as int)),
{
    let ghost s = v@.subrange(from as int, to as int);
    let n: usize = to - from;
    if n == 0 {
        true
    } else if (n == 4 || n == 7 || n == 10) && v[from] == '.' {
        assert(s.skip(1) =~= v@.subrange(from + 1, to as int));
        assert(s[0] == v@[from as int]);
        digits_between(v, from + 1, to)
    } else {
        assert(s[0] == v@[from as int]);
        false
    }
}

/// Whether the last six characters are the offset of UTC.
fn ends_in_utc_offset(v: &Vec<char>) -> (b: bool)
    requires
        v.len() >= 6,
    ensures
        b == (v@.subrange(v.len() - 6, v.len() as int) == "+00:00"@),
{
    let n: usize = v.len();
    let ghost s = v@.subrange(n - 6, n as int);
    proof {
        reveal_strlit("+00:00");
        assert(forall|k: int| 0 <= k < 6 ==> s[k] == v@[n - 6 + k]);
    }
    let b = v[n - 6] == '+' && v[n - 5] == '0' && v[n - 4] == '0' && v[n - 3] == ':' && v[n - 2]
        == '0' && v[n - 1] == '0';
    proof {
        let offset = "+00:00"@;
        assert(offset.len() == 6);
        assert(offset[0] == '+' && offset[1] == '0' && offset[2] == '0' && offset[3] == ':'
            && offset[4] == '0' && offset[5] == '0');
        assert(s[0] == v@[n - 6] && s[1] == v@[n - 5] && s[2] == v@[n - 4] && s[3] == v@[n - 3]
            && s[4] == v@[n - 2] && s[5] == v@[n - 1]);
        if b {
            assert(s =~= offset);
        }
    }
    b
}

/// Whether a text has the shape of an RFC 3339 timestamp in UTC.
pub fn is_utc_timestamp_text(text: &str) -> (b: bool)
    ensures
        b == is_utc_timestamp(text@),
{
    let v = chars_of(text);
    let year = index_of_char(&v, '-');
    if v.len() < 21 || year > v.len() - 21 {
        return false;
    }
    year_between(&v, year) && clock_at(&v, year) && fraction_between(&v, year + 15, v.len() - 6)
        && ends_in_utc_offset(&v)
}

/// The present moment in UTC as an RFC 3339 string, from
/// `chrono::Utc::now` and `DateTime::to_rfc3339`. Which moment it is goes
/// by the clock; the string has the shape that `to_rfc3339` writes for
/// UTC. The call does not return where the clock stands before 1970.
#[verifier::external_body]
pub(crate) fn utc_now_rfc3339() -> (stamp: String)
    ensures
        is_utc_timestamp(stamp@),
{
    chrono::Utc::now().to_rfc3339()
}

/// One traced call, as instrumented code may keep it for itself.
#[derive(Debug)]
pub struct TraceData {
    /// When the record was made: UTC, as an RFC 3339 string.
    pub timestamp: String,
    /// The name of the function.
    pub function_name: String,
    /// The arguments of the call.
    pub args: serde_json::Value,
    /// What the call gave back, once that is known.
    pub result: Option<serde_json::Value>,
}

impl TraceData {
    /// A record made now, without a result yet.
    pub fn new(function_name: &str, args: serde_json::Value) -> (data: TraceData)
        ensures
            is_utc_timestamp(data.timestamp@),
            data.function_name@ == function_name@,
            data.args == args,
            data.result is None,
    {
        TraceData {
            timestamp: utc_now_rfc3339(),
            function_name: function_name.to_owned(),
            args,
            result: None,
        }
    }

    /// The same record with a result.
    pub fn with_result(self, result: serde_json::Value) -> (data: TraceData)
        ensures
            data.timestamp == self.timestamp,
            data.function_name == self.function_name,
            data.args == self.args,
            data.result == Some(result),
    {
        let mut data = self;
        data.result = Some(result);
        data
    }

    /// Puts a result into the record.
    pub fn set_result(&mut self, result: serde_json::Value)
        ensures
            final(self).timestamp == old(self).timestamp,
            final(self).function_name == old(self).function_name,
            final(self).args == old(self).args,
            final(self).result == Some(result),
    {
        self.result = Some(result);
    }
}

/// What stands for a value of a type that has no JSON text.
pub fn placeholder_text(kind: &str) -> (text: String)
    ensures
        text@ == "<unserializable: "@ + kind@ + ">"@,
{
    let mut text = "<unserializable: ".to_owned();
    text.append(kind);
    text.append(">");
    text
}

/// What stands for a value that has no JSON text but can be shown for
/// debugging: its type and how it shows.
pub fn debug_placeholder_text(kind: &str, shown: &str) -> (text: String)
    ensures
        text@ == "<debug: "@ + kind@ + " = "@ + shown@ + ">"@,
{
    let mut text = "<debug: ".to_owned();
    text.append(kind);
    text.append(" = ");
    text.append(shown);
    text.append(">");
    text
}

/// What stands for a value whose encoding failed: its type and the
/// encoder's message.
pub fn serialization_failure_text(kind: &str, error: &str) -> (text: String)
    ensures
        text@ == "<serialization_failed: "@ + kind@ + " - "@ + error@ + ">"@,
{
    let mut text = "<serialization_failed: ".to_owned();
    text.append(kind);
    text.append(" - ");
    text.append(error);
    text.append(">");
    text
}

/// The entries of a JSON object, each value under its key; `None` for a
/// value that is no object.
pub uninterp spec fn object_entries(value: serde_json::Value) -> Option<
    Map<Seq<char>, serde_json::Value>,
>;

/// An object without entries: `serde_json::Map::new` in
/// `serde_json::Value::Object`.
#[verifier::external_body]
fn new_object() -> (object: serde_json::Value)
    ensures
        object_entries(object) == Some(Map::<Seq<char>, serde_json::Value>::empty()),
{
    serde_json::Value::Object(serde_json::Map::new())
}

/// Puts an entry into an object, by `serde_json::Map::insert`: the object
/// has the entries it had and the new one. An entry that was there under
/// the key gives way.
#[verifier::external_body]
fn insert_entry(object: &mut serde_json::Value, key: String, value: serde_json::Value)
    requires
        object_entries(*old(object)) is Some,
    ensures
        object_entries(*final(object)) == Some(
            object_entries(*old(object))->Some_0.insert(key@, value),
        ),
{
    if let serde_json::Value::Object(map) = object {
        map.insert(key, value);
    }
}

/// The first `count` entries as a map: each value under its name, a later
/// value in place of an earlier one under the same name.
pub open spec fn entries_map(entries: Seq<(String, serde_json::Value)>, count: int) -> Map<
    Seq<char>,
    serde_json::Value,
>
    decreases count,
{
    if count <= 0 || count > entries.len() {
        Map::empty()
    } else {
        entries_map(entries, count - 1).insert(entries[count - 1].0@, entries[count - 1].1)
    }
}

/// The arguments of a call as one JSON object: an entry for each name,
/// the last value under a name where a name comes twice.
pub fn args_json(entries: Vec<(String, serde_json::Value)>) -> (object: serde_json::Value)
    ensures
        object_entries(object) == Some(entries_map(entries@, entries.len() as int)),
{
    let ghost all = entries@;
    let n = entries.len();
    let mut rest = entries;
    let mut turned: Vec<(String, serde_json::Value)> = Vec::new();
    while rest.len() > 0
        invariant
            rest.len() + turned.len() == n,
            n == all.len(),
            forall|k: int| 0 <= k < rest.len() ==> rest[k] == all[k],
            forall|k: int| 0 <= k < turned.len() ==> turned[k] == all[n - 1 - k],
        decreases rest.len(),
    {
        let last = rest.pop().unwrap();
        turned.push(last);
    }
    let mut object = new_object();
    let mut done: usize = 0;
    while turned.len() > 0
        invariant
            done + turned.len() == n,
            n == all.len(),
            forall|k: int| 0 <= k < turned.len() ==> turned[k] == all[n - 1 - k],
            object_entries(object) == Some(entries_map(all, done as int)),
        decreases turned.len(),
    {
        let entry = turned.pop().unwrap();
        assert(entry == all[done as int]);
        insert_entry(&mut object, entry.0, entry.1);
        done += 1;
    }
    object
}

} // verus!
