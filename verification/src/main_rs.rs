//! Bringing the trace set-up into a program's main file: a `mod` line for
//! the configuration module and a call at the start of `main`.

use crate::text::{
    chars_of, contains, contains_text, equals_text, has_prefix, is_blank, join_with,
    joined_with, lines_of, slice_of, split_lines, starts_with, texts_view, trim, trimmed,
};
use vstd::prelude::*;

verus! {

/// Why a main file could not be changed.
#[derive(Debug, Clone, Copy, PartialEq, Eq, Structural)]
pub enum IntegrationError {
    /// No line declares `main`, or no opening brace follows it.
    MainNotModified,
}

impl IntegrationError {
    /// The error as a line of text.
    pub fn message(&self) -> (text: String)
        ensures
            text@
                == "Could not automatically modify main function. Please add trace_config::init_tracing_ignore_errors(); manually at the beginning of main()."@,
    {
        "Could not automatically modify main function. Please add trace_config::init_tracing_ignore_errors(); manually at the beginning of main().".to_owned()
    }
}

/// Whether a file holds the trace set-up already: it names the
/// configuration module and calls into it.
pub open spec fn is_integrated(content: Seq<char>) -> bool {
    contains(content, "mod trace_config"@) && contains(content, "trace_config::init_tracing"@)
}

/// Whether a file holds the trace set-up already.
pub fn is_trace_already_integrated(content: &str) -> (b: bool)
    ensures
        b == is_integrated(content@),
{
    let v = chars_of(content);
    contains_text(&v, "mod trace_config") && contains_text(&v, "trace_config::init_tracing")
}

/// Whether a line declares `main`: white space aside, it names `fn main`
/// and holds an opening parenthesis or starts as an attribute.
pub open spec fn is_main_line(line: Seq<char>) -> bool {
    let t = trimmed(line);
    contains(t, "fn main"@) && (contains(t, "("@) || starts_with(t, "#["@))
}

/// Whether a line declares `main`.
pub fn is_main_function_line(line: &str) -> (b: bool)
    ensures
        b == is_main_line(line@),
{
    let v = chars_of(line);
    is_main_chars(&v)
}

fn is_main_chars(line: &Vec<char>) -> (b: bool)
    ensures
        b == is_main_line(line@),
{
    let t = trim(line);
    contains_text(&t, "fn main") && (contains_text(&t, "(") || has_prefix(&t, "#["))
}

/// Whether a line is a `use` declaration.
pub open spec fn is_use_line(line: Seq<char>) -> bool {
    starts_with(trimmed(line), "use "@)
}

/// Whether a line is the first of an item: neither a `use` declaration nor
/// blank nor a comment.
pub open spec fn is_item_line(line: Seq<char>) -> bool {
    !is_use_line(line) && !is_blank(line) && !starts_with(trimmed(line), "//"@)
}

/// The first line at or behind `from` that starts an item; the number of
/// lines where there is none.
pub open spec fn first_item_from(lines: Seq<Seq<char>>, from: int) -> int
    decreases lines.len() - from,
{
    if from < 0 || from >= lines.len() {
        lines.len() as int
    } else if is_item_line(lines[from]) {
        from
    } else {
        first_item_from(lines, from + 1)
    }
}

/// The last `use` declaration before line `upto`; -1 where there is none.
pub open spec fn last_use_before(lines: Seq<Seq<char>>, upto: int) -> int
    decreases upto,
{
    if upto <= 0 || upto > lines.len() {
        -1
    } else if is_use_line(lines[upto - 1]) {
        upto - 1
    } else {
        last_use_before(lines, upto - 1)
    }
}

/// The line before which the `mod` line belongs: the first line that
/// starts an item; where no line does, the line behind the last `use`
/// declaration; where there is none either, the first line.
pub open spec fn mod_insert_position(lines: Seq<Seq<char>>) -> int {
    let item = first_item_from(lines, 0);
    if item < lines.len() {
        item
    } else {
        last_use_before(lines, lines.len() as int) + 1
    }
}

fn is_use_chars(line: &Vec<char>) -> (b: bool)
    ensures
        b == is_use_line(line@),
{
    let t = trim(line);
    has_prefix(&t, "use ")
}

fn is_item_chars(line: &Vec<char>) -> (b: bool)
    ensures
        b == is_item_line(line@),
{
    let t = trim(line);
    !has_prefix(&t, "use ") && t.len() > 0 && !has_prefix(&t, "//")
}

/// The line before which the `mod` line belongs.
pub fn find_mod_insert_position(lines: &Vec<Vec<char>>) -> (position: usize)
    ensures
        position == mod_insert_position(texts_view(lines@)),
        position <= lines.len(),
{
    let ghost all = texts_view(lines@);
    let n = lines.len();
    let mut i: usize = 0;
    while i < n
        invariant
            i <= n,
            n == lines.len(),
            all == texts_view(lines@),
            first_item_from(all, 0) == first_item_from(all, i as int),
        decreases n - i,
    {
        if is_item_chars(&lines[i]) {
            return i;
        }
        i += 1;
    }
    let mut k: usize = n;
    while k > 0
        invariant
            k <= n,
            n == lines.len(),
            all == texts_view(lines@),
            first_item_from(all, 0) == n,
            last_use_before(all, n as int) == last_use_before(all, k as int),
        decreases k,
    {
        if is_use_chars(&lines[k - 1]) {
            return k;
        }
        k -= 1;
    }
    0
}

/// The first line at or behind `from` that declares `main`; the number of
/// lines where there is none.
pub open spec fn first_main_from(lines: Seq<Seq<char>>, from: int) -> int
    decreases lines.len() - from,
{
    if from < 0 || from >= lines.len() {
        lines.len() as int
    } else if is_main_line(lines[from]) {
        from
    } else {
        first_main_from(lines, from + 1)
    }
}

/// The first line at or behind `from` that holds an opening brace; the
/// number of lines where there is none.
pub open spec fn first_brace_from(lines: Seq<Seq<char>>, from: int) -> int
    decreases lines.len() - from,
{
    if from < 0 || from >= lines.len() {
        lines.len() as int
    } else if contains(lines[from], "{"@) {
        from
    } else {
        first_brace_from(lines, from + 1)
    }
}

/// Whether some line is, white space aside, the `mod` line itself.
pub open spec fn has_mod_line(lines: Seq<Seq<char>>) -> bool {
    exists|i: int| 0 <= i < lines.len() && trimmed(#[trigger] lines[i]) == "mod trace_config;"@
}

/// The lines that start the tracing, put behind the line that opens
/// `main`.
pub open spec fn init_block() -> Seq<Seq<char>> {
    seq![
        "    // Initialize trace system automatically"@,
        "    trace_config::init_tracing_ignore_errors();"@,
        ""@,
    ]
}

/// The `mod` line with the blank line behind it, and one before it where
/// it follows a `use` declaration.
pub open spec fn mod_block(blank_first: bool) -> Seq<Seq<char>> {
    if blank_first {
        seq![""@, "mod trace_config;"@, ""@]
    } else {
        seq!["mod trace_config;"@, ""@]
    }
}

/// The line before which the `mod` block is put; -1 where it goes to the
/// top of the file or is there already. `main` is declared on line `main`
/// and opened on line `brace`; the lines between them are never parted.
pub open spec fn mod_line_index(lines: Seq<Seq<char>>, main: int, brace: int) -> int {
    let position = mod_insert_position(lines);
    if has_mod_line(lines) || position >= lines.len() || main < position <= brace {
        -1
    } else {
        position
    }
}

/// What line `i` of a file becomes: the line itself, the `mod` block
/// before it where that is its place, the lines that start the tracing
/// behind it where it opens `main`.
pub open spec fn integrated_line(lines: Seq<Seq<char>>, main: int, brace: int, i: int) -> Seq<
    Seq<char>,
> {
    (if i == mod_line_index(lines, main, brace) {
        mod_block(i > 0 && is_use_line(lines[i - 1]))
    } else {
        Seq::empty()
    }) + seq![lines[i]] + (if i == brace {
        init_block()
    } else {
        Seq::empty()
    })
}

/// What the first `count` lines of a file become.
pub open spec fn integrated_upto(lines: Seq<Seq<char>>, main: int, brace: int, count: int) -> Seq<
    Seq<char>,
>
    decreases count,
{
    if count <= 0 {
        Seq::empty()
    } else {
        integrated_upto(lines, main, brace, count - 1) + integrated_line(
            lines,
            main,
            brace,
            count - 1,
        )
    }
}

/// The lines of a file with the trace set-up in it. A `mod` block that
/// has no place between the lines, and is not there yet, goes to the top.
pub open spec fn integrated_lines(lines: Seq<Seq<char>>, main: int, brace: int) -> Seq<Seq<char>> {
    (if !has_mod_line(lines) && mod_line_index(lines, main, brace) < 0 {
        mod_block(false)
    } else {
        Seq::empty()
    }) + integrated_upto(lines, main, brace, lines.len() as int)
}

/// A main file with the trace set-up in it: its lines, changed as
/// [`integrated_lines`] says, joined by line feeds. `None` where no line
/// declares `main`, or no line from there on holds an opening brace.
pub open spec fn integration_of(content: Seq<char>) -> Option<Seq<char>> {
    let lines = lines_of(content);
    let main = first_main_from(lines, 0);
    let brace = first_brace_from(lines, main);
    if main >= lines.len() || brace >= lines.len() {
        None
    } else {
        Some(joined_with(integrated_lines(lines, main, brace), "\n"@))
    }
}

fn find_main(lines: &Vec<Vec<char>>) -> (main: usize)
    ensures
        main == first_main_from(texts_view(lines@), 0),
        main <= lines.len(),
{
    let ghost all = texts_view(lines@);
    let mut i: usize = 0;
    while i < lines.len()
        invariant
            i <= lines.len(),
            all == texts_view(lines@),
            first_main_from(all, 0) == first_main_from(all, i as int),
        decreases lines.len() - i,
    {
        if is_main_chars(&lines[i]) {
            return i;
        }
        i += 1;
    }
    i
}

fn find_brace(lines: &Vec<Vec<char>>, from: usize) -> (brace: usize)
    requires
        from <= lines.len(),
    ensures
        brace == first_brace_from(texts_view(lines@), from as int),
        from <= brace <= lines.len(),
{
    let ghost all = texts_view(lines@);
    let mut i: usize = from;
    while i < lines.len()
        invariant
            from <= i <= lines.len(),
            all == texts_view(lines@),
            first_brace_from(all, from as int) == first_brace_from(all, i as int),
        decreases lines.len() - i,
    {
        if contains_text(&lines[i], "{") {
            return i;
        }
        i += 1;
    }
    i
}

fn mod_line_exists(lines: &Vec<Vec<char>>) -> (b: bool)
    ensures
        b == has_mod_line(texts_view(lines@)),
{
    let ghost all = texts_view(lines@);
    let mut i: usize = 0;
    while i < lines.len()
        invariant
            i <= lines.len(),
            all == texts_view(lines@),
            forall|k: int| 0 <= k < i ==> trimmed(#[trigger] all[k]) != "mod trace_config;"@,
        decreases lines.len() - i,
    {
        let t = trim(&lines[i]);
        if equals_text(&t, "mod trace_config;") {
            assert(trimmed(all[i as int]) == "mod trace_config;"@);
            return true;
        }
        i += 1;
    }
    false
}

fn push_line(out: &mut Vec<Vec<char>>, line: &str)
    ensures
        texts_view(final(out)@) == texts_view(old(out)@).push(line@),
{
    out.push(chars_of(line));
    assert(texts_view(out@) =~= texts_view(old(out)@).push(line@));
}

fn push_mod_block(out: &mut Vec<Vec<char>>, blank_first: bool)
    ensures
        texts_view(final(out)@) == texts_view(old(out)@) + mod_block(blank_first),
{
    if blank_first {
        push_line(out, "");
    }
    push_line(out, "mod trace_config;");
    push_line(out, "");
    assert(texts_view(out@) =~= texts_view(old(out)@) + mod_block(blank_first));
}

fn push_init_block(out: &mut Vec<Vec<char>>)
    ensures
        texts_view(final(out)@) == texts_view(old(out)@) + init_block(),
{
    push_line(out, "    // Initialize trace system automatically");
    push_line(out, "    trace_config::init_tracing_ignore_errors();");
    push_line(out, "");
    assert(texts_view(out@) =~= texts_view(old(out)@) + init_block());
}

/// Brings the trace set-up into the text of a main file: the `mod` line
/// behind the `use` declarations, unless it is there, and the call that
/// starts the tracing behind the brace that opens `main`.
pub fn auto_integrate_trace(content: &str) -> (r: Result<String, IntegrationError>)
    ensures
        match r {
            Ok(text) => integration_of(content@) == Some(text@),
            Err(e) => integration_of(content@) is None,
        },
{
    let letters = chars_of(content);
    let lines = split_lines(&letters);
    let ghost all = texts_view(lines@);
    let n = lines.len();
    let main = find_main(&lines);
    if main >= n {
        return Err(IntegrationError::MainNotModified);
    }
    let brace = find_brace(&lines, main);
    if brace >= n {
        return Err(IntegrationError::MainNotModified);
    }
    let has_mod = mod_line_exists(&lines);
    let position = find_mod_insert_position(&lines);
    let in_place = !has_mod && position < n && !(main < position && position <= brace);
    let mut out: Vec<Vec<char>> = Vec::new();
    if !has_mod && !in_place {
        push_mod_block(&mut out, false);
    }
    let ghost top = texts_view(out@);
    let mut i: usize = 0;
    assert(texts_view(out@) =~= top + integrated_upto(all, main as int, brace as int, 0));
    while i < n
        invariant
            i <= n,
            n == lines.len(),
            all == texts_view(lines@),
            brace < n,
            position == mod_insert_position(all),
            has_mod == has_mod_line(all),
            in_place == (!has_mod && position < n && !(main < position && position <= brace)),
            texts_view(out@) == top + integrated_upto(all, main as int, brace as int, i as int),
        decreases n - i,
    {
        let ghost before = texts_view(out@);
        if in_place && i == position {
            let blank_first = i > 0 && is_use_chars(&lines[i - 1]);
            push_mod_block(&mut out, blank_first);
        }
        let ghost mid = texts_view(out@);
        out.push(slice_of(&lines[i], 0, lines[i].len()));
        proof {
            assert(all[i as int].subrange(0, all[i as int].len() as int) =~= all[i as int]);
            assert(texts_view(out@) =~= mid.push(all[i as int]));
        }
        if i == brace {
            push_init_block(&mut out);
        }
        proof {
            assert(texts_view(out@) =~= before + integrated_line(
                all,
                main as int,
                brace as int,
                i as int,
            ));
            assert(texts_view(out@) =~= top + integrated_upto(
                all,
                main as int,
                brace as int,
                i as int + 1,
            ));
        }
        i += 1;
    }
    let text = join_with(&out, "\n");
    Ok(text)
}

} // verus!
