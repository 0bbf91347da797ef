//! Taking the trace set-up out of a program's main file again.

use crate::config::strings_view;
use crate::json::{append_decimal_wide, decimal};
use crate::text::{
    chars_of, contains, contains_text, equals_text, has_prefix, is_blank, join_with,
    joined_with, lines_of, slice_of, split_lines, starts_with, texts_view, trim, trimmed,
};
use vstd::prelude::*;
use vstd::string::StringExecFns;

verus! {

/// Whether a line declares the configuration module.
pub open spec fn is_mod_line(line: Seq<char>) -> bool {
    starts_with(trimmed(line), "mod trace_config;"@)
}

/// Whether a line calls the start of the tracing.
pub open spec fn is_init_call(line: Seq<char>) -> bool {
    let t = trimmed(line);
    ||| contains(t, "trace_config::init_tracing_ignore_errors()"@)
    ||| contains(t, "trace_config::init_tracing()"@)
    ||| (starts_with(t, "trace_config::"@) && contains(t, "init_tracing"@))
}

/// Whether a line is the comment that stands above the start of the
/// tracing.
pub open spec fn is_init_comment(line: Seq<char>) -> bool {
    trimmed(line) == "// Initialize trace system automatically"@
}

/// The first line at or behind `from` for which `wanted` holds; the number
/// of lines where it holds for none.
pub open spec fn first_line_where(
    lines: Seq<Seq<char>>,
    wanted: spec_fn(Seq<char>) -> bool,
    from: int,
) -> int
    decreases lines.len() - from,
{
    if from < 0 || from >= lines.len() {
        lines.len() as int
    } else if wanted(lines[from]) {
        from
    } else {
        first_line_where(lines, wanted, from + 1)
    }
}

/// Lines without the first for which `wanted` holds.
pub open spec fn without_first(lines: Seq<Seq<char>>, wanted: spec_fn(Seq<char>) -> bool) -> Seq<
    Seq<char>,
> {
    let at = first_line_where(lines, wanted, 0);
    if at < lines.len() {
        lines.remove(at)
    } else {
        lines
    }
}

/// The first `count` lines without those for which `wanted` holds.
pub open spec fn without_all(
    lines: Seq<Seq<char>>,
    wanted: spec_fn(Seq<char>) -> bool,
    count: int,
) -> Seq<Seq<char>>
    decreases count,
{
    if count <= 0 || count > lines.len() {
        Seq::empty()
    } else if wanted(lines[count - 1]) {
        without_all(lines, wanted, count - 1)
    } else {
        without_all(lines, wanted, count - 1).push(lines[count - 1])
    }
}

/// The first `count` lines with each run of blank lines cut down to its
/// first line.
pub open spec fn tidied(lines: Seq<Seq<char>>, count: int) -> Seq<Seq<char>>
    decreases count,
{
    if count <= 0 || count > lines.len() {
        Seq::empty()
    } else if is_blank(lines[count - 1]) && count >= 2 && is_blank(lines[count - 2]) {
        tidied(lines, count - 1)
    } else {
        tidied(lines, count - 1).push(lines[count - 1])
    }
}

/// The lines of a main file without the trace set-up: without the first
/// line that declares the configuration module, without any call that
/// starts the tracing, and without the first comment above such a call.
pub open spec fn cleaned_lines(lines: Seq<Seq<char>>) -> Seq<Seq<char>> {
    let no_mod = without_first(lines, |l: Seq<char>| is_mod_line(l));
    let no_calls = without_all(no_mod, |l: Seq<char>| is_init_call(l), no_mod.len() as int);
    without_first(no_calls, |l: Seq<char>| is_init_comment(l))
}

/// Whether cleaning changes the lines of a main file.
pub open spec fn is_cleanable(lines: Seq<Seq<char>>) -> bool {
    cleaned_lines(lines).len() < lines.len()
}

/// How many calls that start the tracing are taken out.
pub open spec fn removed_calls(lines: Seq<Seq<char>>) -> int {
    let no_mod = without_first(lines, |l: Seq<char>| is_mod_line(l));
    no_mod.len() - without_all(no_mod, |l: Seq<char>| is_init_call(l), no_mod.len() as int).len()
}

/// What was taken out, for the user to read: the `mod` line where one was
/// taken out, then the number of calls where any was.
pub open spec fn change_notes(lines: Seq<Seq<char>>) -> Seq<Seq<char>> {
    let had_mod = first_line_where(lines, |l: Seq<char>| is_mod_line(l), 0) < lines.len();
    let calls = removed_calls(lines);
    (if had_mod {
        seq!["mod trace_config;"@]
    } else {
        Seq::empty()
    }) + (if calls > 0 {
        seq![decimal(calls as nat) + " trace initialization calls"@]
    } else {
        Seq::empty()
    })
}

/// A main file that was cleaned.
#[derive(Debug)]
pub struct CleanedMain {
    /// The text of the file now.
    pub content: String,
    /// What was taken out, for the user to read.
    pub changes: Vec<String>,
}

fn copy_line(line: &Vec<char>) -> (copy: Vec<char>)
    ensures
        copy@ == line@,
{
    let copy = slice_of(line, 0, line.len());
    assert(line@.subrange(0, line@.len() as int) =~= line@);
    copy
}

fn mod_line(line: &Vec<char>) -> (b: bool)
    ensures
        b == is_mod_line(line@),
{
    has_prefix(&trim(line), "mod trace_config;")
}

fn init_call(line: &Vec<char>) -> (b: bool)
    ensures
        b == is_init_call(line@),
{
    let t = trim(line);
    contains_text(&t, "trace_config::init_tracing_ignore_errors()") || contains_text(
        &t,
        "trace_config::init_tracing()",
    ) || (has_prefix(&t, "trace_config::") && contains_text(&t, "init_tracing"))
}

fn init_comment(line: &Vec<char>) -> (b: bool)
    ensures
        b == is_init_comment(line@),
{
    equals_text(&trim(line), "// Initialize trace system automatically")
}

fn remove_first_mod(lines: &mut Vec<Vec<char>>) -> (removed: bool)
    ensures
        texts_view(final(lines)@) == without_first(
            texts_view(old(lines)@),
            |l: Seq<char>| is_mod_line(l),
        ),
        removed == (first_line_where(texts_view(old(lines)@), |l: Seq<char>| is_mod_line(l), 0)
            < old(lines).len()),
        final(lines).len() == old(lines).len() - (if removed {
            1int
        } else {
            0int
        }),
{
    let ghost all = texts_view(lines@);
    let ghost wanted = |l: Seq<char>| is_mod_line(l);
    let n = lines.len();
    let mut i: usize = 0;
    while i < n
        invariant
            i <= n,
            n == lines.len(),
            *lines == *old(lines),
            all == texts_view(lines@),
            wanted == (|l: Seq<char>| is_mod_line(l)),
            first_line_where(all, wanted, 0) == first_line_where(all, wanted, i as int),
        decreases n - i,
    {
        assert(all[i as int] == lines@[i as int]@);
        if mod_line(&lines[i]) {
            lines.remove(i);
            assert(texts_view(lines@) =~= all.remove(i as int));
            return true;
        }
        i += 1;
    }
    false
}

fn remove_first_comment(lines: &mut Vec<Vec<char>>) -> (removed: bool)
    ensures
        texts_view(final(lines)@) == without_first(
            texts_view(old(lines)@),
            |l: Seq<char>| is_init_comment(l),
        ),
        final(lines).len() == old(lines).len() - (if removed {
            1int
        } else {
            0int
        }),
{
    let ghost all = texts_view(lines@);
    let ghost wanted = |l: Seq<char>| is_init_comment(l);
    let n = lines.len();
    let mut i: usize = 0;
    while i < n
        invariant
            i <= n,
            n == lines.len(),
            *lines == *old(lines),
            all == texts_view(lines@),
            wanted == (|l: Seq<char>| is_init_comment(l)),
            first_line_where(all, wanted, 0) == first_line_where(all, wanted, i as int),
        decreases n - i,
    {
        assert(all[i as int] == lines@[i as int]@);
        if init_comment(&lines[i]) {
            lines.remove(i);
            assert(texts_view(lines@) =~= all.remove(i as int));
            return true;
        }
        i += 1;
    }
    false
}

fn without_calls(lines: &Vec<Vec<char>>) -> (kept: Vec<Vec<char>>)
    ensures
        texts_view(kept@) == without_all(
            texts_view(lines@),
            |l: Seq<char>| is_init_call(l),
            lines.len() as int,
        ),
        kept.len() <= lines.len(),
{
    let ghost all = texts_view(lines@);
    let ghost wanted = |l: Seq<char>| is_init_call(l);
    let mut kept: Vec<Vec<char>> = Vec::new();
    let mut i: usize = 0;
    assert(texts_view(kept@) =~= without_all(all, wanted, 0));
    while i < lines.len()
        invariant
            i <= lines.len(),
            kept.len() <= i,
            all == texts_view(lines@),
            wanted == (|l: Seq<char>| is_init_call(l)),
            texts_view(kept@) == without_all(all, wanted, i as int),
        decreases lines.len() - i,
    {
        assert(all[i as int] == lines@[i as int]@);
        if !init_call(&lines[i]) {
            let ghost before = texts_view(kept@);
            kept.push(copy_line(&lines[i]));
            assert(texts_view(kept@) =~= before.push(all[i as int]));
        }
        i += 1;
    }
    kept
}

fn tidy(lines: &Vec<Vec<char>>) -> (kept: Vec<Vec<char>>)
    ensures
        texts_view(kept@) == tidied(texts_view(lines@), lines.len() as int),
{
    let ghost all = texts_view(lines@);
    let mut kept: Vec<Vec<char>> = Vec::new();
    let mut previous_blank = false;
    let mut i: usize = 0;
    assert(texts_view(kept@) =~= tidied(all, 0));
    while i < lines.len()
        invariant
            i <= lines.len(),
            all == texts_view(lines@),
            texts_view(kept@) == tidied(all, i as int),
            previous_blank == (i > 0 && is_blank(all[i - 1])),
        decreases lines.len() - i,
    {
        assert(all[i as int] == lines@[i as int]@);
        let blank = trim(&lines[i]).len() == 0;
        if !(blank && previous_blank) {
            let ghost before = texts_view(kept@);
            kept.push(copy_line(&lines[i]));
            assert(texts_view(kept@) =~= before.push(all[i as int]));
        }
        previous_blank = blank;
        i += 1;
    }
    kept
}

/// Takes the trace set-up out of the text of a main file and tidies the
/// blank lines. `None` for a file that holds nothing to take out.
pub fn clean_main_rs_integration(content: &str) -> (r: Option<CleanedMain>)
    ensures
        match r {
            Some(cleaned) => {
                &&& is_cleanable(lines_of(content@))
                &&& cleaned.content@ == joined_with(
                    tidied(
                        cleaned_lines(lines_of(content@)),
                        cleaned_lines(lines_of(content@)).len() as int,
                    ),
                    "\n"@,
                )
                &&& strings_view(cleaned.changes@) == change_notes(lines_of(content@))
            },
            None => !is_cleanable(lines_of(content@)),
        },
{
    let mut lines = split_lines(&chars_of(content));
    let ghost all = texts_view(lines@);
    let total = lines.len();
    let mut changes: Vec<String> = Vec::new();
    let had_mod = remove_first_mod(&mut lines);
    if had_mod {
        changes.push("mod trace_config;".to_owned());
    }
    let before_calls = lines.len();
    let mut kept = without_calls(&lines);
    let calls = before_calls - kept.len();
    if calls > 0 {
        let mut note = String::new();
        append_decimal_wide(&mut note, calls as u128);
        note.append(" trace initialization calls");
        assert(note@ =~= decimal(calls as nat) + " trace initialization calls"@);
        changes.push(note);
    }
    assert(strings_view(changes@) =~= change_notes(all));
    let had_comment = remove_first_comment(&mut kept);
    assert(texts_view(kept@) == cleaned_lines(all));
    assert(cleaned_lines(all).len() == kept.len());
    if !(had_mod || calls > 0 || had_comment) {
        return None;
    }
    let tidy_lines = tidy(&kept);
    Some(CleanedMain { content: join_with(&tidy_lines, "\n"), changes })
}

/// Takes the trace set-up out of the text of a main file and leaves the
/// rest as it is. `None` for a file that holds nothing to take out.
pub fn restore_main_rs(content: &str) -> (r: Option<String>)
    ensures
        match r {
            Some(text) => is_cleanable(lines_of(content@)) && text@ == joined_with(
                cleaned_lines(lines_of(content@)),
                "\n"@,
            ),
            None => !is_cleanable(lines_of(content@)),
        },
{
    let mut lines = split_lines(&chars_of(content));
    let ghost all = texts_view(lines@);
    let had_mod = remove_first_mod(&mut lines);
    let before_calls = lines.len();
    let mut kept = without_calls(&lines);
    let calls = before_calls - kept.len();
    let had_comment = remove_first_comment(&mut kept);
    assert(texts_view(kept@) == cleaned_lines(all));
    assert(cleaned_lines(all).len() == kept.len());
    if !(had_mod || calls > 0 || had_comment) {
        return None;
    }
    Some(join_with(&kept, "\n"))
}

} // verus!
