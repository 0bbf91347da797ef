//! Finding the traced functions of a project: reading what a search tool
//! printed, searching a source oneself, and laying out what was found.

use crate::json::{append_decimal, append_decimal_wide, decimal};
use crate::text::{
    chars_of, contains, contains_text, find_text, first_index_of, first_match, index_of_char,
    is_blank, lemma_first_match, lines_of, number_of, parse_number, slice_of, split_lines,
    string_of, texts_view, trim, trimmed,
};
use crate::config::strings_view;
use crate::suggestions::{add_type, with_type};
use vstd::prelude::*;
use vstd::string::StringExecFns;

verus! {

/// The tool whose output is read.
#[derive(Debug, Clone, Copy, PartialEq, Eq, Structural)]
pub enum SearchFormat {
    Ripgrep,
    Grep,
}

/// Why the output of a search tool could not be read.
#[derive(Debug, Clone, Copy, PartialEq, Eq, Structural)]
pub enum SearchError {
    /// A line has fewer than three parts between colons.
    InvalidFormat { format: SearchFormat },
    /// The second part of a line is no line number.
    InvalidLineNumber { format: SearchFormat },
}

impl SearchError {
    /// The error as a line of text.
    pub fn message(&self) -> (text: String)
        ensures
            text@ == match self {
                SearchError::InvalidFormat {
                    format: SearchFormat::Ripgrep,
                } => "Invalid ripgrep output format"@,
                SearchError::InvalidFormat { format: SearchFormat::Grep } => "Invalid grep output format"@,
                SearchError::InvalidLineNumber {
                    format: SearchFormat::Ripgrep,
                } => "Failed to parse line number from ripgrep output"@,
                SearchError::InvalidLineNumber {
                    format: SearchFormat::Grep,
                } => "Failed to parse line number from grep output"@,
            },
    {
        match self {
            SearchError::InvalidFormat {
                format: SearchFormat::Ripgrep,
            } => "Invalid ripgrep output format".to_owned(),
            SearchError::InvalidFormat {
                format: SearchFormat::Grep,
            } => "Invalid grep output format".to_owned(),
            SearchError::InvalidLineNumber {
                format: SearchFormat::Ripgrep,
            } => "Failed to parse line number from ripgrep output".to_owned(),
            SearchError::InvalidLineNumber {
                format: SearchFormat::Grep,
            } => "Failed to parse line number from grep output".to_owned(),
        }
    }
}

/// A place where a trace attribute stands.
#[derive(Debug)]
pub struct TraceMatch {
    pub file_path: String,
    pub line_number: u32,
    pub content: String,
}

/// The mathematical value of a [`TraceMatch`].
pub ghost struct MatchView {
    pub file_path: Seq<char>,
    pub line_number: u32,
    pub content: Seq<char>,
}

impl View for TraceMatch {
    type V = MatchView;

    open spec fn view(&self) -> MatchView {
        MatchView {
            file_path: self.file_path@,
            line_number: self.line_number,
            content: self.content@,
        }
    }
}

/// The values of a row of matches.
pub open spec fn matches_view(matches: Seq<TraceMatch>) -> Seq<MatchView> {
    Seq::new(matches.len(), |i: int| matches[i]@)
}

/// What a line of a search tool's output says: the file before the first
/// colon, the line number between the first and the second, and behind the
/// second the text found, colons and all.
pub open spec fn parsed_line(line: Seq<char>, format: SearchFormat) -> Result<
    MatchView,
    SearchError,
> {
    let first = first_index_of(line, ':');
    let rest = line.skip(first + 1);
    let second = first_index_of(rest, ':');
    if first >= line.len() || second >= rest.len() {
        Err(SearchError::InvalidFormat { format })
    } else {
        match number_of(rest.take(second), u32::MAX as nat) {
            Some(n) => Ok(
                MatchView {
                    file_path: line.take(first),
                    line_number: n as u32,
                    content: rest.skip(second + 1),
                },
            ),
            None => Err(SearchError::InvalidLineNumber { format }),
        }
    }
}

fn parse_line(line: &Vec<char>, format: SearchFormat) -> (r: Result<TraceMatch, SearchError>)
    ensures
        match r {
            Ok(m) => parsed_line(line@, format) == Ok::<MatchView, SearchError>(m@),
            Err(e) => parsed_line(line@, format) == Err::<MatchView, SearchError>(e),
        },
{
    let n = line.len();
    let first = index_of_char(line, ':');
    if first >= n {
        return Err(SearchError::InvalidFormat { format });
    }
    let rest = slice_of(line, first + 1, n);
    assert(line@.subrange(first + 1, n as int) =~= line@.skip(first + 1));
    let m = rest.len();
    let second = index_of_char(&rest, ':');
    if second >= m {
        return Err(SearchError::InvalidFormat { format });
    }
    let number = slice_of(&rest, 0, second);
    assert(rest@.subrange(0, second as int) =~= rest@.take(second as int));
    match parse_number(&number, 0xffff_ffff) {
        Some(value) => {
            let file = slice_of(line, 0, first);
            assert(line@.subrange(0, first as int) =~= line@.take(first as int));
            let content = slice_of(&rest, second + 1, m);
            assert(rest@.subrange(second + 1, m as int) =~= rest@.skip(second + 1));
            Ok(
                TraceMatch {
                    file_path: string_of(&file),
                    line_number: value as u32,
                    content: string_of(&content),
                },
            )
        },
        None => Err(SearchError::InvalidLineNumber { format }),
    }
}

/// Reads a line that ripgrep printed.
pub fn parse_ripgrep_line(line: &str) -> (r: Result<TraceMatch, SearchError>)
    ensures
        match r {
            Ok(m) => parsed_line(line@, SearchFormat::Ripgrep) == Ok::<MatchView, SearchError>(m@),
            Err(e) => parsed_line(line@, SearchFormat::Ripgrep) == Err::<MatchView, SearchError>(
                e,
            ),
        },
{
    parse_line(&chars_of(line), SearchFormat::Ripgrep)
}

/// Reads a line that grep printed.
pub fn parse_grep_line(line: &str) -> (r: Result<TraceMatch, SearchError>)
    ensures
        match r {
            Ok(m) => parsed_line(line@, SearchFormat::Grep) == Ok::<MatchView, SearchError>(m@),
            Err(e) => parsed_line(line@, SearchFormat::Grep) == Err::<MatchView, SearchError>(e),
        },
{
    parse_line(&chars_of(line), SearchFormat::Grep)
}

/// What the first `count` lines of a search tool's output say: a match for
/// each line that is not blank, in order; the error of the first line that
/// cannot be read.
pub open spec fn parsed_lines(lines: Seq<Seq<char>>, format: SearchFormat, count: int) -> Result<
    Seq<MatchView>,
    SearchError,
>
    decreases count,
{
    if count <= 0 || count > lines.len() {
        Ok(Seq::empty())
    } else {
        match parsed_lines(lines, format, count - 1) {
            Err(e) => Err(e),
            Ok(earlier) => if is_blank(lines[count - 1]) {
                Ok(earlier)
            } else {
                match parsed_line(lines[count - 1], format) {
                    Ok(m) => Ok(earlier.push(m)),
                    Err(e) => Err(e),
                }
            },
        }
    }
}

/// What the output of a search tool says.
pub open spec fn parsed_output(output: Seq<char>, format: SearchFormat) -> Result<
    Seq<MatchView>,
    SearchError,
> {
    parsed_lines(lines_of(output), format, lines_of(output).len() as int)
}

/// Reads the output of a search tool, line by line.
pub fn parse_search_output(output: &str, format: SearchFormat) -> (r: Result<
    Vec<TraceMatch>,
    SearchError,
>)
    ensures
        match r {
            Ok(found) => parsed_output(output@, format) == Ok::<Seq<MatchView>, SearchError>(
                matches_view(found@),
            ),
            Err(e) => parsed_output(output@, format) == Err::<Seq<MatchView>, SearchError>(e),
        },
{
    let lines = split_lines(&chars_of(output));
    let ghost all = texts_view(lines@);
    let mut found: Vec<TraceMatch> = Vec::new();
    let mut i: usize = 0;
    assert(matches_view(found@) =~= Seq::<MatchView>::empty());
    while i < lines.len()
        invariant
            i <= lines.len(),
            all == texts_view(lines@),
            all == lines_of(output@),
            parsed_lines(all, format, i as int) == Ok::<Seq<MatchView>, SearchError>(
                matches_view(found@),
            ),
        decreases lines.len() - i,
    {
        assert(all[i as int] == lines@[i as int]@);
        let t = trim(&lines[i]);
        if t.len() > 0 {
            match parse_line(&lines[i], format) {
                Ok(m) => {
                    let ghost before = matches_view(found@);
                    found.push(m);
                    assert(matches_view(found@) =~= before.push(m@));
                },
                Err(e) => {
                    assert(parsed_lines(all, format, i + 1) == Err::<Seq<MatchView>, SearchError>(
                        e,
                    ));
                    proof {
                        lemma_error_stays(all, format, i + 1, all.len() as int);
                    }
                    return Err(e);
                },
            }
        }
        i += 1;
    }
    Ok(found)
}

/// An error in the first lines is the error of all the lines.
proof fn lemma_error_stays(lines: Seq<Seq<char>>, format: SearchFormat, count: int, more: int)
    requires
        0 <= count <= more <= lines.len(),
        parsed_lines(lines, format, count) is Err,
    ensures
        parsed_lines(lines, format, more) == parsed_lines(lines, format, count),
    decreases more - count,
{
    if count < more {
        lemma_error_stays(lines, format, count, more - 1);
    }
}

/// Whether a line of a source holds a trace attribute.
pub open spec fn is_traced_line(line: Seq<char>) -> bool {
    contains(line, "#[trace"@) || contains(line, "#[rustforger_trace"@)
}

/// The number of a line, counted from one, as far as thirty-two bits hold
/// it.
pub open spec fn line_number_of(index: int) -> u32 {
    ((index + 1) % 0x1_0000_0000) as u32
}

/// The matches in the first `count` lines of a source: one for each line
/// that holds a trace attribute, with the line's number and the line
/// without the white space at its ends.
pub open spec fn source_matches(path: Seq<char>, lines: Seq<Seq<char>>, count: int) -> Seq<
    MatchView,
>
    decreases count,
{
    if count <= 0 || count > lines.len() {
        Seq::empty()
    } else if is_traced_line(lines[count - 1]) {
        source_matches(path, lines, count - 1).push(
            MatchView {
                file_path: path,
                line_number: line_number_of(count - 1),
                content: trimmed(lines[count - 1]),
            },
        )
    } else {
        source_matches(path, lines, count - 1)
    }
}

/// Searches the text of a source for trace attributes.
pub fn search_source(file_path: &str, content: &str) -> (found: Vec<TraceMatch>)
    ensures
        matches_view(found@) == source_matches(
            file_path@,
            lines_of(content@),
            lines_of(content@).len() as int,
        ),
{
    let lines = split_lines(&chars_of(content));
    let ghost all = texts_view(lines@);
    let mut found: Vec<TraceMatch> = Vec::new();
    let mut i: usize = 0;
    assert(matches_view(found@) =~= source_matches(file_path@, all, 0));
    while i < lines.len()
        invariant
            i <= lines.len(),
            all == texts_view(lines@),
            matches_view(found@) == source_matches(file_path@, all, i as int),
        decreases lines.len() - i,
    {
        assert(all[i as int] == lines@[i as int]@);
        if contains_text(&lines[i], "#[trace") || contains_text(&lines[i], "#[rustforger_trace") {
            let ghost before = matches_view(found@);
            let number: u32 = ((i as u128 + 1) % 0x1_0000_0000) as u32;
            let m = TraceMatch {
                file_path: file_path.to_owned(),
                line_number: number,
                content: string_of(&trim(&lines[i])),
            };
            found.push(m);
            assert(matches_view(found@) =~= before.push(m@));
        }
        i += 1;
    }
    found
}

/// The name of the function that a line declares: what stands, white
/// space aside, between the first `fn ` and the next opening parenthesis;
/// the word `function` where the line holds no such thing.
pub open spec fn function_info(content: Seq<char>) -> Seq<char> {
    if !contains(content, "fn "@) {
        "function"@
    } else {
        let after = content.skip(first_match(content, "fn "@) + 3);
        let paren = first_index_of(after, '(');
        if paren >= after.len() {
            "function"@
        } else {
            trimmed(after.take(paren))
        }
    }
}

/// The name of the function that a line declares.
pub fn extract_function_info(content: &str) -> (name: String)
    ensures
        name@ == function_info(content@),
{
    let letters = chars_of(content);
    let n = letters.len();
    proof {
        reveal_strlit("fn ");
    }
    match find_text(&letters, "fn ") {
        None => "function".to_owned(),
        Some(at) => {
            proof {
                lemma_first_match(letters@, "fn "@, at as int);
                assert("fn "@.len() == 3);
            }
            assert(at + 3 <= n);
            let after = slice_of(&letters, at + 3, n);
            assert(letters@.subrange(at + 3, n as int) =~= letters@.skip(at + 3));
            let paren = index_of_char(&after, '(');
            if paren >= after.len() {
                "function".to_owned()
            } else {
                let name = slice_of(&after, 0, paren);
                assert(after@.subrange(0, paren as int) =~= after@.take(paren as int));
                string_of(&trim(&name))
            }
        },
    }
}

/// The matches of one file: its path, and for each match the line's
/// number and the text found there, by line number.
#[derive(Debug)]
pub struct FileTraces {
    pub file_path: String,
    pub traces: Vec<(u32, String)>,
}

/// The value of a row of numbered lines.
pub open spec fn traces_view(traces: Seq<(u32, String)>) -> Seq<(u32, Seq<char>)> {
    Seq::new(traces.len(), |i: int| (traces[i].0, traces[i].1@))
}

/// The mathematical value of a [`FileTraces`].
pub ghost struct FileTracesView {
    pub file_path: Seq<char>,
    pub traces: Seq<(u32, Seq<char>)>,
}

impl View for FileTraces {
    type V = FileTracesView;

    open spec fn view(&self) -> FileTracesView {
        FileTracesView { file_path: self.file_path@, traces: traces_view(self.traces@) }
    }
}

/// The values of a row of files.
pub open spec fn files_view(files: Seq<FileTraces>) -> Seq<FileTracesView> {
    Seq::new(files.len(), |i: int| files[i]@)
}

/// The files of the first `count` matches, each once, in the order of
/// strings.
pub open spec fn file_names(matches: Seq<MatchView>, count: int) -> Seq<Seq<char>>
    decreases count,
{
    if count <= 0 || count > matches.len() {
        Seq::empty()
    } else {
        with_type(file_names(matches, count - 1), matches[count - 1].file_path)
    }
}

/// The place of a numbered line in a row that is in order by number:
/// before the first line with a greater number, so behind the lines with
/// its own.
pub open spec fn line_place(traces: Seq<(u32, Seq<char>)>, number: u32, from: int) -> int
    decreases traces.len() - from,
{
    if from < 0 || from >= traces.len() {
        traces.len() as int
    } else if number < traces[from].0 {
        from
    } else {
        line_place(traces, number, from + 1)
    }
}

/// The matches of a file among the first `count` matches, by line number;
/// matches of one line stay in the order in which they came.
pub open spec fn traces_of(matches: Seq<MatchView>, path: Seq<char>, count: int) -> Seq<
    (u32, Seq<char>),
>
    decreases count,
{
    if count <= 0 || count > matches.len() {
        Seq::empty()
    } else {
        let earlier = traces_of(matches, path, count - 1);
        let m = matches[count - 1];
        if m.file_path == path {
            earlier.insert(line_place(earlier, m.line_number, 0), (m.line_number, m.content))
        } else {
            earlier
        }
    }
}

/// The first `count` files of a row of names, each with its matches.
pub open spec fn grouped_upto(matches: Seq<MatchView>, names: Seq<Seq<char>>, count: int) -> Seq<
    FileTracesView,
>
    decreases count,
{
    if count <= 0 || count > names.len() {
        Seq::empty()
    } else {
        grouped_upto(matches, names, count - 1).push(
            FileTracesView {
                file_path: names[count - 1],
                traces: traces_of(matches, names[count - 1], matches.len() as int),
            },
        )
    }
}

/// Matches file by file: the files in the order of strings, the matches of
/// each by line number.
pub open spec fn grouped(matches: Seq<MatchView>) -> Seq<FileTracesView> {
    let names = file_names(matches, matches.len() as int);
    grouped_upto(matches, names, names.len() as int)
}

/// The matches of a file are in order by line number.
pub proof fn lemma_traces_in_order(matches: Seq<MatchView>, path: Seq<char>, count: int)
    requires
        0 <= count <= matches.len(),
    ensures
        forall|i: int, j: int|
            0 <= i < j < traces_of(matches, path, count).len() ==> traces_of(
                matches,
                path,
                count,
            )[i].0 <= traces_of(matches, path, count)[j].0,
    decreases count,
{
    if count > 0 {
        lemma_traces_in_order(matches, path, count - 1);
        let earlier = traces_of(matches, path, count - 1);
        let m = matches[count - 1];
        if m.file_path == path {
            let at = line_place(earlier, m.line_number, 0);
            lemma_line_place(earlier, m.line_number, 0);
            let later = earlier.insert(at, (m.line_number, m.content));
            assert forall|i: int, j: int| 0 <= i < j < later.len() implies later[i].0
                <= later[j].0 by {
                if j < at {
                    assert(later[i] == earlier[i] && later[j] == earlier[j]);
                } else if j == at {
                    assert(later[i] == earlier[i]);
                } else if i < at {
                    assert(later[i] == earlier[i] && later[j] == earlier[j - 1]);
                } else if i == at {
                    assert(later[j] == earlier[j - 1]);
                } else {
                    assert(later[i] == earlier[i - 1] && later[j] == earlier[j - 1]);
                }
            }
        }
    }
}

proof fn lemma_line_place(traces: Seq<(u32, Seq<char>)>, number: u32, from: int)
    requires
        0 <= from <= traces.len(),
    ensures
        from <= line_place(traces, number, from) <= traces.len(),
        forall|k: int| from <= k < line_place(traces, number, from) ==> traces[k].0 <= number,
        line_place(traces, number, from) < traces.len() ==> number < traces[line_place(
            traces,
            number,
            from,
        )].0,
    decreases traces.len() - from,
{
    if from < traces.len() && !(number < traces[from].0) {
        lemma_line_place(traces, number, from + 1);
    }
}

fn place_of_line(traces: &Vec<(u32, String)>, number: u32) -> (at: usize)
    ensures
        at == line_place(traces_view(traces@), number, 0),
        at <= traces.len(),
{
    let ghost row = traces_view(traces@);
    let mut i: usize = 0;
    while i < traces.len()
        invariant
            i <= traces.len(),
            row == traces_view(traces@),
            line_place(row, number, 0) == line_place(row, number, i as int),
        decreases traces.len() - i,
    {
        if number < traces[i].0 {
            return i;
        }
        i += 1;
    }
    i
}

fn traces_for(results: &Vec<TraceMatch>, path: &str) -> (traces: Vec<(u32, String)>)
    ensures
        traces_view(traces@) == traces_of(matches_view(results@), path@, results.len() as int),
{
    let ghost all = matches_view(results@);
    let mut traces: Vec<(u32, String)> = Vec::new();
    let mut i: usize = 0;
    assert(traces_view(traces@) =~= traces_of(all, path@, 0));
    while i < results.len()
        invariant
            i <= results.len(),
            all == matches_view(results@),
            traces_view(traces@) == traces_of(all, path@, i as int),
        decreases results.len() - i,
    {
        assert(all[i as int] == results@[i as int]@);
        if crate::text::same_text(results[i].file_path.as_str(), path) {
            let ghost before = traces_view(traces@);
            let number = results[i].line_number;
            let at = place_of_line(&traces, number);
            let content = results[i].content.clone();
            traces.insert(at, (number, content));
            assert(traces_view(traces@) =~= before.insert(
                at as int,
                (number, results@[i as int].content@),
            ));
        }
        i += 1;
    }
    traces
}

/// Brings matches together file by file.
pub fn group_results_by_file(results: &Vec<TraceMatch>) -> (files: Vec<FileTraces>)
    ensures
        files_view(files@) == grouped(matches_view(results@)),
{
    let ghost all = matches_view(results@);
    let mut names: Vec<String> = Vec::new();
    let mut i: usize = 0;
    assert(strings_view(names@) =~= file_names(all, 0));
    while i < results.len()
        invariant
            i <= results.len(),
            all == matches_view(results@),
            strings_view(names@) == file_names(all, i as int),
        decreases results.len() - i,
    {
        assert(all[i as int] == results@[i as int]@);
        add_type(&mut names, results[i].file_path.as_str());
        i += 1;
    }
    let ghost paths = strings_view(names@);
    let mut files: Vec<FileTraces> = Vec::new();
    let mut k: usize = 0;
    assert(files_view(files@) =~= grouped_upto(all, paths, 0));
    while k < names.len()
        invariant
            k <= names.len(),
            all == matches_view(results@),
            paths == strings_view(names@),
            files_view(files@) == grouped_upto(all, paths, k as int),
        decreases names.len() - k,
    {
        let ghost before = files_view(files@);
        let file = FileTraces {
            file_path: names[k].clone(),
            traces: traces_for(results, names[k].as_str()),
        };
        files.push(file);
        assert(files_view(files@) =~= before.push(file@));
        k += 1;
    }
    files
}

/// The lines that show the first `count` matches of a file in full: for
/// each its number, the function it stands on and the text found.
pub open spec fn verbose_lines(traces: Seq<(u32, Seq<char>)>, count: int) -> Seq<char>
    decreases count,
{
    if count <= 0 || count > traces.len() {
        Seq::empty()
    } else {
        verbose_lines(traces, count - 1) + "    "@ + decimal(traces[count - 1].0 as nat) + ":"@
            + function_info(traces[count - 1].1) + " "@ + traces[count - 1].1 + "\n"@
    }
}

/// What is shown of one file: in full, its path, its matches and a blank
/// line; in short, its path and the number of its matches.
pub open spec fn file_text(file: FileTracesView, verbose: bool) -> Seq<char> {
    if verbose {
        file.file_path + "\n"@ + verbose_lines(file.traces, file.traces.len() as int) + "\n"@
    } else {
        file.file_path + " ("@ + decimal(file.traces.len()) + " traces)\n"@
    }
}

/// What is shown of the first `count` files.
pub open spec fn files_text(files: Seq<FileTracesView>, verbose: bool, count: int) -> Seq<char>
    decreases count,
{
    if count <= 0 || count > files.len() {
        Seq::empty()
    } else {
        files_text(files, verbose, count - 1) + file_text(files[count - 1], verbose)
    }
}

/// The number of matches in the first `count` files.
pub open spec fn total_traces(files: Seq<FileTracesView>, count: int) -> nat
    decreases count,
{
    if count <= 0 || count > files.len() {
        0
    } else {
        total_traces(files, count - 1) + files[count - 1].traces.len()
    }
}

/// The lines that close the display: the number of files, the number of
/// matches, and in a short display of at least one file a hint.
pub open spec fn summary_text(total_files: nat, total: nat, verbose: bool) -> Seq<char> {
    "files with traces: "@ + decimal(total_files) + "\n"@ + "total trace macros: "@ + decimal(
        total,
    ) + "\n"@ + (if !verbose && total_files > 0 {
        "use --verbose for detailed line information\n"@
    } else {
        Seq::empty()
    })
}

/// What is shown of a search: file by file, then the summary.
pub open spec fn results_text(files: Seq<FileTracesView>, verbose: bool) -> Seq<char> {
    files_text(files, verbose, files.len() as int) + summary_text(
        files.len(),
        total_traces(files, files.len() as int),
        verbose,
    )
}

fn append_verbose_lines(out: &mut String, traces: &Vec<(u32, String)>)
    ensures
        final(out)@ == old(out)@ + verbose_lines(traces_view(traces@), traces.len() as int),
{
    let ghost row = traces_view(traces@);
    let mut i: usize = 0;
    assert(out@ =~= old(out)@ + verbose_lines(row, 0));
    while i < traces.len()
        invariant
            i <= traces.len(),
            row == traces_view(traces@),
            out@ == old(out)@ + verbose_lines(row, i as int),
        decreases traces.len() - i,
    {
        let info = extract_function_info(traces[i].1.as_str());
        out.append("    ");
        append_decimal(out, traces[i].0 as u64);
        out.append(":");
        out.append(info.as_str());
        out.append(" ");
        out.append(traces[i].1.as_str());
        out.append("\n");
        i += 1;
        assert(out@ =~= old(out)@ + verbose_lines(row, i as int));
    }
}

fn append_file(out: &mut String, file: &FileTraces, verbose: bool)
    ensures
        final(out)@ == old(out)@ + file_text(file@, verbose),
{
    out.append(file.file_path.as_str());
    if verbose {
        out.append("\n");
        append_verbose_lines(out, &file.traces);
        out.append("\n");
    } else {
        out.append(" (");
        append_decimal_wide(out, file.traces.len() as u128);
        out.append(" traces)\n");
    }
    assert(out@ =~= old(out)@ + file_text(file@, verbose));
}

/// The lines that close the display.
pub fn display_summary(total_files: usize, total: u128, verbose: bool) -> (text: String)
    ensures
        text@ == summary_text(total_files as nat, total as nat, verbose),
{
    let mut text = "files with traces: ".to_owned();
    append_decimal_wide(&mut text, total_files as u128);
    text.append("\n");
    text.append("total trace macros: ");
    append_decimal_wide(&mut text, total);
    text.append("\n");
    if !verbose && total_files > 0 {
        text.append("use --verbose for detailed line information\n");
    }
    assert(text@ =~= summary_text(total_files as nat, total as nat, verbose));
    text
}

/// What is shown of a search.
pub fn display_results(files: &Vec<FileTraces>, verbose: bool) -> (text: String)
    ensures
        text@ == results_text(files_view(files@), verbose),
{
    let ghost all = files_view(files@);
    let mut text = String::new();
    let mut total: u128 = 0;
    let mut i: usize = 0;
    assert(text@ =~= files_text(all, verbose, 0));
    while i < files.len()
        invariant
            i <= files.len(),
            all == files_view(files@),
            text@ == files_text(all, verbose, i as int),
            total == total_traces(all, i as int),
            total <= i * 0xffff_ffff_ffff_ffff,
        decreases files.len() - i,
    {
        assert(all[i as int] == files@[i as int]@);
        append_file(&mut text, &files[i], verbose);
        total = total + files[i].traces.len() as u128;
        i += 1;
    }
    let summary = display_summary(files.len(), total, verbose);
    text.append(summary.as_str());
    text
}

} // verus!
