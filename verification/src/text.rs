//! Texts as sequences of characters: searching, trimming, splitting into
//! lines and joining.

use vstd::prelude::*;

verus! {

/// Appends one character to a string, as `String::push` does.
#[verifier::external_body]
pub(crate) fn push_char(s: &mut String, c: char)
    ensures
        final(s)@ == old(s)@.push(c),
{
    s.push(c);
}

/// The value of an optional text.
pub open spec fn text_view(o: Option<String>) -> Option<Seq<char>> {
    match o {
        Some(t) => Some(t@),
        None => None,
    }
}

/// Whether two strings are the same, letter for letter.
pub fn same_text(a: &str, b: &str) -> (same: bool)
    ensures
        same == (a@ == b@),
{
    let x = a.to_owned();
    let y = b.to_owned();
    x == y
}

/// The characters of a string, in order.
pub fn chars_of(s: &str) -> (v: Vec<char>)
    ensures
        v@ == s@,
{
    let mut v: Vec<char> = Vec::new();
    for c in it: s.chars()
        invariant
            v@ == it.seq().take(it.index() as int),
            it.seq() == s@,
    {
        v.push(c);
    }
    v
}

/// The string made of the given characters.
pub fn string_of(v: &Vec<char>) -> (s: String)
    ensures
        s@ == v@,
{
    let mut s = String::new();
    let mut i: usize = 0;
    while i < v.len()
        invariant
            i <= v.len(),
            s@ == v@.take(i as int),
        decreases v.len() - i,
    {
        push_char(&mut s, v[i]);
        i += 1;
    }
    s
}

/// Whether a character is white space: the Unicode property `White_Space`.
pub open spec fn is_space(c: char) -> bool {
    let n = c as int;
    ||| 9 <= n <= 13
    ||| n == 32
    ||| n == 0x85
    ||| n == 0xA0
    ||| n == 0x1680
    ||| 0x2000 <= n <= 0x200A
    ||| n == 0x2028
    ||| n == 0x2029
    ||| n == 0x202F
    ||| n == 0x205F
    ||| n == 0x3000
}

/// Whether a character is white space.
pub fn is_space_char(c: char) -> (b: bool)
    ensures
        b == is_space(c),
{
    let n = c as u32;
    (9 <= n && n <= 13) || n == 32 || n == 0x85 || n == 0xA0 || n == 0x1680 || (0x2000 <= n && n
        <= 0x200A) || n == 0x2028 || n == 0x2029 || n == 0x202F || n == 0x205F || n == 0x3000
}

/// A text without the white space that it starts with.
pub open spec fn skip_leading(s: Seq<char>) -> Seq<char>
    decreases s.len(),
{
    if s.len() > 0 && is_space(s[0]) {
        skip_leading(s.drop_first())
    } else {
        s
    }
}

/// A text without the white space that it ends with.
pub open spec fn skip_trailing(s: Seq<char>) -> Seq<char>
    decreases s.len(),
{
    if s.len() > 0 && is_space(s.last()) {
        skip_trailing(s.drop_last())
    } else {
        s
    }
}

/// A text without the white space at either end.
pub open spec fn trimmed(s: Seq<char>) -> Seq<char> {
    skip_trailing(skip_leading(s))
}

/// Whether a text is white space only, or empty.
pub open spec fn is_blank(s: Seq<char>) -> bool {
    trimmed(s).len() == 0
}

/// A text without the white space at either end.
pub fn trim(v: &Vec<char>) -> (t: Vec<char>)
    ensures
        t@ == trimmed(v@),
{
    let n = v.len();
    let mut lo: usize = 0;
    assert(v@.skip(0) =~= v@);
    while lo < n && is_space_char(v[lo])
        invariant
            lo <= n,
            n == v.len(),
            skip_leading(v@) == skip_leading(v@.skip(lo as int)),
        decreases n - lo,
    {
        assert(v@.skip(lo as int).drop_first() =~= v@.skip(lo as int + 1));
        lo += 1;
    }
    assert(skip_leading(v@) == v@.skip(lo as int));
    let mut hi: usize = n;
    assert(v@.subrange(lo as int, n as int) =~= v@.skip(lo as int));
    while hi > lo && is_space_char(v[hi - 1])
        invariant
            lo <= hi <= n,
            n == v.len(),
            trimmed(v@) == skip_trailing(v@.subrange(lo as int, hi as int)),
        decreases hi,
    {
        assert(v@.subrange(lo as int, hi as int).drop_last() =~= v@.subrange(
            lo as int,
            hi as int - 1,
        ));
        hi -= 1;
    }
    let mut t: Vec<char> = Vec::new();
    let mut i: usize = lo;
    while i < hi
        invariant
            lo <= i <= hi <= v.len(),
            t@ == v@.subrange(lo as int, i as int),
        decreases hi - i,
    {
        t.push(v[i]);
        assert(v@.subrange(lo as int, i as int).push(v@[i as int]) =~= v@.subrange(
            lo as int,
            i as int + 1,
        ));
        i += 1;
    }
    t
}

/// Whether `pattern` stands in `s` at position `at`.
pub open spec fn matches_at(s: Seq<char>, pattern: Seq<char>, at: int) -> bool {
    0 <= at && at + pattern.len() <= s.len() && s.subrange(at, at + pattern.len()) == pattern
}

/// Whether a text begins with `pattern`.
pub open spec fn starts_with(s: Seq<char>, pattern: Seq<char>) -> bool {
    matches_at(s, pattern, 0)
}

/// Whether a text ends with `pattern`.
pub open spec fn ends_with(s: Seq<char>, pattern: Seq<char>) -> bool {
    matches_at(s, pattern, s.len() - pattern.len())
}

/// Whether `pattern` stands somewhere in a text.
pub open spec fn contains(s: Seq<char>, pattern: Seq<char>) -> bool {
    exists|at: int| matches_at(s, pattern, at)
}

/// Whether `at` is the first place at or behind `from` where `pattern`
/// stands in a text.
pub open spec fn is_first_match(s: Seq<char>, pattern: Seq<char>, from: int, at: int) -> bool {
    &&& from <= at
    &&& matches_at(s, pattern, at)
    &&& forall|k: int| from <= k < at ==> !matches_at(s, pattern, k)
}

/// Whether `at` is the last place where `pattern` stands in a text.
pub open spec fn is_last_match(s: Seq<char>, pattern: Seq<char>, at: int) -> bool {
    &&& matches_at(s, pattern, at)
    &&& forall|k: int| at < k ==> !matches_at(s, pattern, k)
}

/// Whether `pattern` stands in `v` at position `at`.
pub fn has_match_at(v: &Vec<char>, pattern: &Vec<char>, at: usize) -> (b: bool)
    ensures
        b == matches_at(v@, pattern@, at as int),
{
    let m = pattern.len();
    if at > v.len() || m > v.len() - at {
        return false;
    }
    let mut k: usize = 0;
    while k < m
        invariant
            k <= m,
            m == pattern.len(),
            at + m <= v.len(),
            forall|j: int| 0 <= j < k ==> v@[at + j] == pattern@[j],
        decreases m - k,
    {
        if v[at + k] != pattern[k] {
            assert(v@.subrange(at as int, at + m)[k as int] != pattern@[k as int]);
            return false;
        }
        k += 1;
    }
    assert(v@.subrange(at as int, at + m) =~= pattern@);
    true
}

/// Whether a text begins with `pattern`.
pub fn has_prefix(v: &Vec<char>, pattern: &str) -> (b: bool)
    ensures
        b == starts_with(v@, pattern@),
{
    let p = chars_of(pattern);
    has_match_at(v, &p, 0)
}

/// Whether a text ends with `pattern`.
pub fn has_suffix(v: &Vec<char>, pattern: &str) -> (b: bool)
    ensures
        b == ends_with(v@, pattern@),
{
    let p = chars_of(pattern);
    if p.len() > v.len() {
        return false;
    }
    has_match_at(v, &p, v.len() - p.len())
}

/// The first place at or behind `from` where `pattern` stands in a text.
pub fn find_from(v: &Vec<char>, pattern: &Vec<char>, from: usize) -> (r: Option<usize>)
    ensures
        match r {
            Some(at) => is_first_match(v@, pattern@, from as int, at as int),
            None => forall|k: int| from <= k ==> !matches_at(v@, pattern@, k),
        },
{
    let n = v.len();
    let mut i: usize = from;
    while i <= n
        invariant
            from <= i,
            n == v.len(),
            forall|k: int| from <= k < i ==> !matches_at(v@, pattern@, k),
        decreases n + 1 - i,
    {
        if has_match_at(v, pattern, i) {
            return Some(i);
        }
        if i == n {
            return None;
        }
        i += 1;
    }
    None
}

/// The first place where `pattern` stands in a text.
pub fn find_text(v: &Vec<char>, pattern: &str) -> (r: Option<usize>)
    ensures
        match r {
            Some(at) => is_first_match(v@, pattern@, 0, at as int),
            None => !contains(v@, pattern@),
        },
{
    let p = chars_of(pattern);
    find_from(v, &p, 0)
}

/// The last place where `pattern` stands in a text.
pub fn rfind_text(v: &Vec<char>, pattern: &str) -> (r: Option<usize>)
    ensures
        match r {
            Some(at) => is_last_match(v@, pattern@, at as int),
            None => !contains(v@, pattern@),
        },
{
    let p = chars_of(pattern);
    let n = v.len();
    if p.len() > n {
        return None;
    }
    let mut i: usize = n - p.len();
    loop
        invariant
            i + p.len() <= n,
            n == v.len(),
            p@ == pattern@,
            forall|k: int| i < k ==> !matches_at(v@, p@, k),
        decreases i,
    {
        if has_match_at(v, &p, i) {
            return Some(i);
        }
        if i == 0 {
            return None;
        }
        i -= 1;
    }
}

/// Whether `pattern` stands somewhere in a text.
pub fn contains_text(v: &Vec<char>, pattern: &str) -> (b: bool)
    ensures
        b == contains(v@, pattern@),
{
    match find_text(v, pattern) {
        Some(at) => true,
        None => false,
    }
}

/// Whether two texts are the same.
pub fn equals_text(v: &Vec<char>, other: &str) -> (b: bool)
    ensures
        b == (v@ == other@),
{
    let p = chars_of(other);
    if p.len() != v.len() {
        return false;
    }
    let b = has_match_at(v, &p, 0);
    assert(v@.subrange(0, v@.len() as int) =~= v@);
    b
}

/// A part of a text, from `from` up to `to`.
pub fn slice_of(v: &Vec<char>, from: usize, to: usize) -> (part: Vec<char>)
    requires
        from <= to <= v.len(),
    ensures
        part@ == v@.subrange(from as int, to as int),
{
    let mut part: Vec<char> = Vec::new();
    let mut i: usize = from;
    while i < to
        invariant
            from <= i <= to <= v.len(),
            part@ == v@.subrange(from as int, i as int),
        decreases to - i,
    {
        part.push(v[i]);
        assert(v@.subrange(from as int, i as int).push(v@[i as int]) =~= v@.subrange(
            from as int,
            i as int + 1,
        ));
        i += 1;
    }
    part
}

/// A line without the carriage return that it may end with.
pub open spec fn without_cr(line: Seq<char>) -> Seq<char> {
    if line.len() > 0 && line.last() == '\r' {
        line.drop_last()
    } else {
        line
    }
}

/// A text read up to its end: the lines that a line feed has closed, and
/// what stands behind the last line feed.
pub open spec fn scanned(s: Seq<char>) -> (Seq<Seq<char>>, Seq<char>)
    decreases s.len(),
{
    if s.len() == 0 {
        (Seq::empty(), Seq::empty())
    } else {
        let (closed, rest) = scanned(s.drop_last());
        if s.last() == '\n' {
            (closed.push(without_cr(rest)), Seq::empty())
        } else {
            (closed, rest.push(s.last()))
        }
    }
}

/// The lines of a text. A line ends with a line feed, or with a carriage
/// return and a line feed; neither belongs to the line. What stands behind
/// the last line feed is a line too, unless it is empty.
pub open spec fn lines_of(s: Seq<char>) -> Seq<Seq<char>> {
    let (closed, rest) = scanned(s);
    if rest.len() > 0 {
        closed.push(rest)
    } else {
        closed
    }
}

/// The value of a row of texts.
pub open spec fn texts_view(lines: Seq<Vec<char>>) -> Seq<Seq<char>> {
    Seq::new(lines.len(), |i: int| lines[i]@)
}

/// The lines of a text.
pub fn split_lines(v: &Vec<char>) -> (lines: Vec<Vec<char>>)
    ensures
        texts_view(lines@) == lines_of(v@),
{
    let mut lines: Vec<Vec<char>> = Vec::new();
    let mut current: Vec<char> = Vec::new();
    let mut i: usize = 0;
    assert(texts_view(lines@) =~= scanned(v@.take(0)).0);
    while i < v.len()
        invariant
            i <= v.len(),
            texts_view(lines@) == scanned(v@.take(i as int)).0,
            current@ == scanned(v@.take(i as int)).1,
        decreases v.len() - i,
    {
        let c = v[i];
        proof {
            assert(v@.take(i as int + 1).drop_last() =~= v@.take(i as int));
            assert(v@.take(i as int + 1).last() == c);
        }
        if c == '\n' {
            let n = current.len();
            if n > 0 && current[n - 1] == '\r' {
                current.pop();
            }
            let ghost before = texts_view(lines@);
            let ghost line = current@;
            lines.push(current);
            assert(texts_view(lines@) =~= before.push(line));
            current = Vec::new();
        } else {
            current.push(c);
        }
        i += 1;
    }
    assert(v@.take(v.len() as int) =~= v@);
    if current.len() > 0 {
        let ghost before = texts_view(lines@);
        let ghost line = current@;
        lines.push(current);
        assert(texts_view(lines@) =~= before.push(line));
    }
    lines
}

/// A row of texts as one text, `separator` between each two.
pub open spec fn joined_with(lines: Seq<Seq<char>>, separator: Seq<char>) -> Seq<char>
    decreases lines.len(),
{
    if lines.len() == 0 {
        Seq::empty()
    } else if lines.len() == 1 {
        lines[0]
    } else {
        joined_with(lines.drop_last(), separator) + separator + lines.last()
    }
}

/// A row of texts as one text, `separator` between each two.
pub fn join_with(lines: &Vec<Vec<char>>, separator: &str) -> (text: String)
    ensures
        text@ == joined_with(texts_view(lines@), separator@),
{
    let mut text = String::new();
    let ghost all = texts_view(lines@);
    let mut i: usize = 0;
    while i < lines.len()
        invariant
            i <= lines.len(),
            all == texts_view(lines@),
            text@ == joined_with(all.take(i as int), separator@),
        decreases lines.len() - i,
    {
        let ghost before = text@;
        if i > 0 {
            vstd::string::StringExecFns::append(&mut text, separator);
        }
        let line = string_of(&lines[i]);
        vstd::string::StringExecFns::append(&mut text, line.as_str());
        proof {
            let head = all.take(i as int + 1);
            assert(head.drop_last() =~= all.take(i as int));
            assert(head.last() == lines@[i as int]@);
            if i == 0 {
                assert(before =~= Seq::<char>::empty());
                assert(text@ =~= head[0]);
            }
        }
        i += 1;
    }
    assert(all.take(lines.len() as int) =~= all);
    text
}

/// The part of a text behind the last `c` in it; the whole text where it
/// holds none.
pub open spec fn after_last(s: Seq<char>, c: char) -> Seq<char>
    decreases s.len(),
{
    if s.len() == 0 {
        s
    } else if s.last() == c {
        Seq::empty()
    } else {
        after_last(s.drop_last(), c).push(s.last())
    }
}

/// The part of a text behind the last `c` in it.
pub fn after_last_char(v: &Vec<char>, c: char) -> (part: Vec<char>)
    ensures
        part@ == after_last(v@, c),
{
    let mut part: Vec<char> = Vec::new();
    let mut i: usize = 0;
    assert(v@.take(0) =~= Seq::<char>::empty());
    while i < v.len()
        invariant
            i <= v.len(),
            part@ == after_last(v@.take(i as int), c),
        decreases v.len() - i,
    {
        proof {
            assert(v@.take(i as int + 1).drop_last() =~= v@.take(i as int));
        }
        if v[i] == c {
            part = Vec::new();
        } else {
            part.push(v[i]);
        }
        i += 1;
    }
    assert(v@.take(v.len() as int) =~= v@);
    part
}

/// The place of the first `c` in a text; the length of the text where it
/// holds none.
pub open spec fn first_index_of(s: Seq<char>, c: char) -> int
    decreases s.len(),
{
    if s.len() == 0 {
        0
    } else if s[0] == c {
        0
    } else {
        1 + first_index_of(s.drop_first(), c)
    }
}

/// The place of the first `c` in a text.
pub fn index_of_char(v: &Vec<char>, c: char) -> (at: usize)
    ensures
        at == first_index_of(v@, c),
        at <= v.len(),
{
    let mut i: usize = 0;
    assert(v@.skip(0) =~= v@);
    while i < v.len()
        invariant
            i <= v.len(),
            first_index_of(v@, c) == i + first_index_of(v@.skip(i as int), c),
        decreases v.len() - i,
    {
        if v[i] == c {
            return i;
        }
        assert(v@.skip(i as int).drop_first() =~= v@.skip(i as int + 1));
        i += 1;
    }
    i
}

/// A text read up to its end: the parts that a `c` has closed, and what
/// stands behind the last `c`.
pub open spec fn split_scan(s: Seq<char>, c: char) -> (Seq<Seq<char>>, Seq<char>)
    decreases s.len(),
{
    if s.len() == 0 {
        (Seq::empty(), Seq::empty())
    } else {
        let (closed, rest) = split_scan(s.drop_last(), c);
        if s.last() == c {
            (closed.push(rest), Seq::empty())
        } else {
            (closed, rest.push(s.last()))
        }
    }
}

/// The parts of a text between each two `c`, before the first and behind
/// the last: one part more than the text holds `c`.
pub open spec fn parts_of(s: Seq<char>, c: char) -> Seq<Seq<char>> {
    let (closed, rest) = split_scan(s, c);
    closed.push(rest)
}

/// The parts of a text between each two `c`.
pub fn split_char(v: &Vec<char>, c: char) -> (parts: Vec<Vec<char>>)
    ensures
        texts_view(parts@) == parts_of(v@, c),
{
    let mut parts: Vec<Vec<char>> = Vec::new();
    let mut current: Vec<char> = Vec::new();
    let mut i: usize = 0;
    assert(texts_view(parts@) =~= split_scan(v@.take(0), c).0);
    while i < v.len()
        invariant
            i <= v.len(),
            texts_view(parts@) == split_scan(v@.take(i as int), c).0,
            current@ == split_scan(v@.take(i as int), c).1,
        decreases v.len() - i,
    {
        let x = v[i];
        proof {
            assert(v@.take(i as int + 1).drop_last() =~= v@.take(i as int));
            assert(v@.take(i as int + 1).last() == x);
        }
        if x == c {
            let ghost before = texts_view(parts@);
            let ghost part = current@;
            parts.push(current);
            assert(texts_view(parts@) =~= before.push(part));
            current = Vec::new();
        } else {
            current.push(x);
        }
        i += 1;
    }
    assert(v@.take(v.len() as int) =~= v@);
    let ghost before = texts_view(parts@);
    let ghost part = current@;
    parts.push(current);
    assert(texts_view(parts@) =~= before.push(part));
    parts
}

/// The place where `pattern` first stands in a text. It means something
/// only for a text that holds the pattern.
pub open spec fn first_match(s: Seq<char>, pattern: Seq<char>) -> int {
    choose|at: int| is_first_match(s, pattern, 0, at)
}

/// There is one first place only.
pub proof fn lemma_first_match(s: Seq<char>, pattern: Seq<char>, at: int)
    requires
        is_first_match(s, pattern, 0, at),
    ensures
        first_match(s, pattern) == at,
        contains(s, pattern),
{
    let chosen = first_match(s, pattern);
    assert(is_first_match(s, pattern, 0, chosen));
    if chosen < at {
        assert(!matches_at(s, pattern, chosen));
    }
    if at < chosen {
        assert(!matches_at(s, pattern, at));
    }
}

/// The number that a decimal digit stands for; `None` for another
/// character.
pub open spec fn digit_value(c: char) -> Option<nat> {
    if '0' <= c <= '9' {
        Some((c as int - '0' as int) as nat)
    } else {
        None
    }
}

/// Whether a text is made of decimal digits only.
pub open spec fn all_digits(s: Seq<char>) -> bool {
    forall|i: int| 0 <= i < s.len() ==> digit_value(#[trigger] s[i]) is Some
}

/// The number that a row of decimal digits stands for.
pub open spec fn digits_value(s: Seq<char>) -> nat
    decreases s.len(),
{
    if s.len() == 0 {
        0
    } else {
        digits_value(s.drop_last()) * 10 + (match digit_value(s.last()) {
            Some(d) => d,
            None => 0,
        })
    }
}

/// The number that a text stands for, as an unsigned integer is read: a
/// plus sign or none, then one decimal digit or more, and nothing else.
/// `None` for any other text and for a number above `max`.
pub open spec fn number_of(s: Seq<char>, max: nat) -> Option<nat> {
    let digits = if s.len() > 0 && s[0] == '+' {
        s.drop_first()
    } else {
        s
    };
    if digits.len() == 0 || !all_digits(digits) || digits_value(digits) > max {
        None
    } else {
        Some(digits_value(digits))
    }
}

/// More digits never make a number smaller.
proof fn lemma_digits_grow(s: Seq<char>, k: int)
    requires
        0 <= k <= s.len(),
    ensures
        digits_value(s.take(k)) <= digits_value(s),
    decreases s.len() - k,
{
    if k < s.len() {
        lemma_digits_grow(s, k + 1);
        assert(s.take(k + 1).drop_last() =~= s.take(k));
    } else {
        assert(s.take(k) =~= s);
    }
}

/// The number that a text stands for.
pub fn parse_number(v: &Vec<char>, max: u64) -> (r: Option<u64>)
    ensures
        match r {
            Some(n) => number_of(v@, max as nat) == Some(n as nat),
            None => number_of(v@, max as nat) is None,
        },
{
    let n = v.len();
    let start: usize = if n > 0 && v[0] == '+' {
        1
    } else {
        0
    };
    let ghost digits = v@.skip(start as int);
    assert(start == 1 ==> v@.drop_first() =~= digits);
    assert(start == 0 ==> v@ =~= digits);
    if start == n {
        return None;
    }
    let mut acc: u64 = 0;
    let mut i: usize = start;
    assert(digits.take(0) =~= Seq::<char>::empty());
    while i < n
        invariant
            start <= i <= n,
            n == v.len(),
            digits == v@.skip(start as int),
            start == 1 ==> v@.len() > 0 && v@[0] == '+' && digits == v@.drop_first(),
            start == 0 ==> !(v@.len() > 0 && v@[0] == '+') && digits == v@,
            start <= 1,
            acc == digits_value(digits.take(i - start)),
            acc <= max,
            forall|k: int| 0 <= k < i - start ==> digit_value(#[trigger] digits[k]) is Some,
        decreases n - i,
    {
        let c = v[i];
        proof {
            assert(digits.take(i - start + 1).drop_last() =~= digits.take(i - start));
            assert(digits[i - start] == c);
        }
        if c < '0' || c > '9' {
            assert(digit_value(digits[i - start]) is None);
            return None;
        }
        let d: u64 = (c as u64) - ('0' as u64);
        let next: u128 = (acc as u128) * 10 + (d as u128);
        if next > max as u128 {
            proof {
                lemma_digits_grow(digits, i - start + 1);
                assert(digits_value(digits.take(i - start + 1)) == next);
            }
            return None;
        }
        acc = next as u64;
        i += 1;
    }
    assert(digits.take(n - start) =~= digits);
    Some(acc)
}

/// The place where `pattern` last stands in a text. It means something
/// only for a text that holds the pattern.
pub open spec fn last_match(s: Seq<char>, pattern: Seq<char>) -> int {
    choose|at: int| is_last_match(s, pattern, at)
}

/// There is one last place only.
pub proof fn lemma_last_match(s: Seq<char>, pattern: Seq<char>, at: int)
    requires
        is_last_match(s, pattern, at),
    ensures
        last_match(s, pattern) == at,
        contains(s, pattern),
{
    let chosen = last_match(s, pattern);
    assert(is_last_match(s, pattern, chosen));
    if chosen < at {
        assert(!matches_at(s, pattern, at));
    }
    if at < chosen {
        assert(!matches_at(s, pattern, chosen));
    }
}

/// Whether a character is a letter or a number, as Unicode has it.
pub uninterp spec fn is_alphanumeric(c: char) -> bool;

/// Whether a character is a letter or a number: `char::is_alphanumeric`.
#[verifier::external_body]
pub(crate) fn is_alphanumeric_char(c: char) -> (b: bool)
    ensures
        b == is_alphanumeric(c),
{
    c.is_alphanumeric()
}

/// A text with each `from` in it turned into `to`, the text read from
/// left to right and no character used twice. An empty `from` changes
/// nothing.
pub open spec fn replaced(s: Seq<char>, from: Seq<char>, to: Seq<char>) -> Seq<char>
    decreases s.len(),
{
    if s.len() == 0 {
        s
    } else if from.len() > 0 && starts_with(s, from) {
        to + replaced(s.skip(from.len() as int), from, to)
    } else {
        seq![s[0]] + replaced(s.drop_first(), from, to)
    }
}

/// A text with each `from` in it turned into `to`.
pub fn replace_text(v: &Vec<char>, from: &str, to: &str) -> (out: Vec<char>)
    ensures
        out@ == replaced(v@, from@, to@),
{
    let p = chars_of(from);
    let t = chars_of(to);
    let n = v.len();
    let m = p.len();
    let mut out: Vec<char> = Vec::new();
    let mut i: usize = 0;
    assert(v@.skip(0) =~= v@);
    assert(out@ + replaced(v@.skip(0), from@, to@) =~= replaced(v@, from@, to@));
    while i < n
        invariant
            i <= n,
            n == v.len(),
            m == p.len(),
            p@ == from@,
            t@ == to@,
            out@ + replaced(v@.skip(i as int), from@, to@) == replaced(v@, from@, to@),
        decreases n - i,
    {
        let ghost rest = v@.skip(i as int);
        let ghost before = out@;
        if m > 0 && has_match_at(v, &p, i) {
            assert(rest.subrange(0, m as int) =~= v@.subrange(i as int, i + m));
            let mut k: usize = 0;
            while k < t.len()
                invariant
                    k <= t.len(),
                    out@ == before + t@.take(k as int),
                decreases t.len() - k,
            {
                out.push(t[k]);
                assert(t@.take(k as int).push(t@[k as int]) =~= t@.take(k + 1));
                assert(out@ =~= before + t@.take(k + 1));
                k += 1;
            }
            assert(t@.take(t.len() as int) =~= t@);
            assert(rest.skip(m as int) =~= v@.skip(i + m));
            i += m;
            assert(out@ + replaced(v@.skip(i as int), from@, to@) =~= before + (to@ + replaced(
                rest.skip(m as int),
                from@,
                to@,
            )));
        } else {
            proof {
                if m > 0 && starts_with(rest, from@) {
                    assert(i + m <= n);
                    assert(v@.subrange(i as int, i + m) =~= rest.subrange(0, m as int));
                    assert(matches_at(v@, p@, i as int));
                }
            }
            out.push(v[i]);
            assert(rest.drop_first() =~= v@.skip(i + 1));
            i += 1;
            assert(out@ + replaced(v@.skip(i as int), from@, to@) =~= before + (seq![rest[0]]
                + replaced(rest.drop_first(), from@, to@)));
        }
    }
    assert(v@.skip(n as int) =~= Seq::<char>::empty());
    assert(out@ + Seq::<char>::empty() =~= out@);
    out
}

/// What stands behind the last `separator` in a text that is read from
/// left to right, no character used twice; `None` for a text that holds no
/// separator.
pub open spec fn behind_last(s: Seq<char>, separator: Seq<char>) -> Option<Seq<char>>
    decreases s.len(),
{
    if separator.len() > 0 && starts_with(s, separator) {
        let rest = s.skip(separator.len() as int);
        match behind_last(rest, separator) {
            Some(piece) => Some(piece),
            None => Some(rest),
        }
    } else if s.len() == 0 {
        None
    } else {
        behind_last(s.drop_first(), separator)
    }
}

/// The last of the pieces into which `separator` parts a text; the whole
/// text where it holds none.
pub open spec fn last_piece(s: Seq<char>, separator: Seq<char>) -> Seq<char> {
    match behind_last(s, separator) {
        Some(piece) => piece,
        None => s,
    }
}

/// The last of the pieces into which `separator` parts a text.
pub fn last_piece_of(v: &Vec<char>, separator: &str) -> (piece: Vec<char>)
    ensures
        piece@ == last_piece(v@, separator@),
{
    let p = chars_of(separator);
    let n = v.len();
    let m = p.len();
    let mut start: usize = 0;
    let mut i: usize = 0;
    assert(v@.skip(0) =~= v@);
    while i < n
        invariant
            start <= i <= n,
            n == v.len(),
            m == p.len(),
            p@ == separator@,
            last_piece(v@, separator@) == (match behind_last(v@.skip(i as int), separator@) {
                Some(piece) => piece,
                None => v@.skip(start as int),
            }),
        decreases n - i,
    {
        let ghost rest = v@.skip(i as int);
        if m > 0 && has_match_at(v, &p, i) {
            proof {
                assert(rest.subrange(0, m as int) =~= v@.subrange(i as int, i + m));
                assert(rest.skip(m as int) =~= v@.skip(i + m));
            }
            start = i + m;
            i = i + m;
        } else {
            proof {
                if m > 0 && starts_with(rest, p@) {
                    assert(i + m <= n);
                    assert(v@.subrange(i as int, i + m) =~= rest.subrange(0, m as int));
                    assert(matches_at(v@, p@, i as int));
                }
                assert(rest.drop_first() =~= v@.skip(i + 1));
            }
            i += 1;
        }
    }
    assert(v@.skip(n as int).len() == 0);
    let piece = slice_of(v, start, n);
    assert(v@.subrange(start as int, n as int) =~= v@.skip(start as int));
    piece
}

/// What stands before the first `separator` of a text; the whole text
/// where it holds none.
pub open spec fn first_piece(s: Seq<char>, separator: Seq<char>) -> Seq<char> {
    if contains(s, separator) {
        s.take(first_match(s, separator))
    } else {
        s
    }
}

/// What stands before the first `separator` of a text.
pub fn first_piece_of(v: &Vec<char>, separator: &str) -> (piece: Vec<char>)
    ensures
        piece@ == first_piece(v@, separator@),
{
    match find_text(v, separator) {
        Some(at) => {
            proof {
                lemma_first_match(v@, separator@, at as int);
            }
            let piece = slice_of(v, 0, at);
            assert(v@.subrange(0, at as int) =~= v@.take(at as int));
            piece
        },
        None => {
            let piece = slice_of(v, 0, v.len());
            assert(v@.subrange(0, v@.len() as int) =~= v@);
            piece
        },
    }
}

} // verus!
