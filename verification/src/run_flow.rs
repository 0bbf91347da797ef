//! The whole flow in one command: what the command line says is to be
//! traced, and how far.

use crate::config::{strings_view, copy_strings, PropagationConfig, PropagationView};
use crate::text::{
    chars_of, contains, contains_text, equals_text, first_index_of, index_of_char, parts_of, slice_of, split_char,
    string_of, texts_view, trim, trimmed,
};
use vstd::prelude::*;
use vstd::string::StringExecFns;

verus! {

/// What is to be traced in one file: the functions named, or all of them
/// where none is named.
#[derive(Debug)]
pub struct InstrumentSpec {
    pub file_path: String,
    pub functions: Vec<String>,
}

/// The mathematical value of an [`InstrumentSpec`].
pub ghost struct InstrumentSpecView {
    pub file_path: Seq<char>,
    pub functions: Seq<Seq<char>>,
}

impl View for InstrumentSpec {
    type V = InstrumentSpecView;

    open spec fn view(&self) -> InstrumentSpecView {
        InstrumentSpecView { file_path: self.file_path@, functions: strings_view(self.functions@) }
    }
}

/// Why a specification was refused.
#[derive(Debug)]
pub enum SpecError {
    /// The specification holds no colon.
    InvalidFormat { spec: String },
    /// The file that the specification names does not exist.
    FileMissing { path: String },
}

/// The mathematical value of a [`SpecError`].
pub ghost enum SpecErrorView {
    InvalidFormat { spec: Seq<char> },
    FileMissing { path: Seq<char> },
}

impl View for SpecError {
    type V = SpecErrorView;

    open spec fn view(&self) -> SpecErrorView {
        match self {
            SpecError::InvalidFormat { spec } => SpecErrorView::InvalidFormat { spec: spec@ },
            SpecError::FileMissing { path } => SpecErrorView::FileMissing { path: path@ },
        }
    }
}

impl SpecError {
    /// The error as a line of text.
    pub fn message(&self) -> (text: String)
        ensures
            text@ == match self@ {
                SpecErrorView::InvalidFormat { spec } => "Invalid instrumentation specification format: "@
                    + spec + " (expected: file_path:function1,function2)"@,
                SpecErrorView::FileMissing { path } => "File does not exist: "@ + path,
            },
    {
        match self {
            SpecError::InvalidFormat { spec } => {
                let mut text = "Invalid instrumentation specification format: ".to_owned();
                text.append(spec.as_str());
                text.append(" (expected: file_path:function1,function2)");
                text
            },
            SpecError::FileMissing { path } => {
                let mut text = "File does not exist: ".to_owned();
                text.append(path.as_str());
                text
            },
        }
    }
}

/// The texts of a row that are not blank, each without the white space at
/// its ends.
pub open spec fn trimmed_names(parts: Seq<Seq<char>>) -> Seq<Seq<char>>
    decreases parts.len(),
{
    if parts.len() == 0 {
        Seq::empty()
    } else {
        let earlier = trimmed_names(parts.drop_last());
        let name = trimmed(parts.last());
        if name.len() > 0 {
            earlier.push(name)
        } else {
            earlier
        }
    }
}

/// The functions that a list names: none for a single star, which stands
/// for all; else the names between the commas.
pub open spec fn function_names(list: Seq<char>) -> Seq<Seq<char>> {
    if list == "*"@ {
        Seq::empty()
    } else {
        trimmed_names(parts_of(list, ','))
    }
}

/// The file that a specification names: what stands before its first
/// colon. `None` where it holds no colon.
pub open spec fn spec_file(spec: Seq<char>) -> Option<Seq<char>> {
    let colon = first_index_of(spec, ':');
    if colon >= spec.len() {
        None
    } else {
        Some(spec.take(colon))
    }
}

/// What one specification says, given whether the file it names exists.
pub open spec fn parsed_spec(spec: Seq<char>, file_exists: bool) -> Result<
    InstrumentSpecView,
    SpecErrorView,
> {
    let colon = first_index_of(spec, ':');
    if colon >= spec.len() {
        Err(SpecErrorView::InvalidFormat { spec })
    } else if !file_exists {
        Err(SpecErrorView::FileMissing { path: spec.take(colon) })
    } else {
        Ok(
            InstrumentSpecView {
                file_path: spec.take(colon),
                functions: function_names(spec.skip(colon + 1)),
            },
        )
    }
}

/// The file that a specification names.
pub fn spec_file_path(spec: &str) -> (path: Option<String>)
    ensures
        crate::text::text_view(path) == spec_file(spec@),
{
    let letters = chars_of(spec);
    let colon = index_of_char(&letters, ':');
    if colon >= letters.len() {
        None
    } else {
        let part = slice_of(&letters, 0, colon);
        assert(letters@.subrange(0, colon as int) =~= letters@.take(colon as int));
        Some(string_of(&part))
    }
}

fn names_of(list: &Vec<char>) -> (names: Vec<String>)
    ensures
        strings_view(names@) == function_names(list@),
{
    let mut names: Vec<String> = Vec::new();
    if equals_text(list, "*") {
        assert(strings_view(names@) =~= Seq::<Seq<char>>::empty());
        return names;
    }
    let parts = split_char(list, ',');
    let ghost all = texts_view(parts@);
    let mut i: usize = 0;
    assert(all.take(0) =~= Seq::<Seq<char>>::empty());
    assert(strings_view(names@) =~= trimmed_names(all.take(0)));
    while i < parts.len()
        invariant
            i <= parts.len(),
            all == texts_view(parts@),
            strings_view(names@) == trimmed_names(all.take(i as int)),
        decreases parts.len() - i,
    {
        let name = trim(&parts[i]);
        proof {
            assert(all.take(i as int + 1).drop_last() =~= all.take(i as int));
            assert(all.take(i as int + 1).last() == parts@[i as int]@);
        }
        if name.len() > 0 {
            let ghost before = strings_view(names@);
            names.push(string_of(&name));
            assert(strings_view(names@) =~= before.push(name@));
        }
        i += 1;
    }
    assert(all.take(parts.len() as int) =~= all);
    names
}

/// What one specification says, given whether the file it names exists.
pub fn parse_instrument_spec(spec: &str, file_exists: bool) -> (r: Result<
    InstrumentSpec,
    SpecError,
>)
    ensures
        match r {
            Ok(parsed) => parsed_spec(spec@, file_exists) == Ok::<
                InstrumentSpecView,
                SpecErrorView,
            >(parsed@),
            Err(e) => parsed_spec(spec@, file_exists) == Err::<InstrumentSpecView, SpecErrorView>(
                e@,
            ),
        },
{
    let letters = chars_of(spec);
    let colon = index_of_char(&letters, ':');
    if colon >= letters.len() {
        return Err(SpecError::InvalidFormat { spec: spec.to_owned() });
    }
    let file = slice_of(&letters, 0, colon);
    assert(letters@.subrange(0, colon as int) =~= letters@.take(colon as int));
    if !file_exists {
        return Err(SpecError::FileMissing { path: string_of(&file) });
    }
    let list = slice_of(&letters, colon + 1, letters.len());
    assert(letters@.subrange(colon + 1, letters@.len() as int) =~= letters@.skip(colon + 1));
    Ok(InstrumentSpec { file_path: string_of(&file), functions: names_of(&list) })
}

/// What the specifications of a command line say, each of the form
/// `file:function1,function2` or `file:*`. `file_exists` says of each, in
/// order, whether the file it names exists. The first specification that
/// is refused ends the reading.
pub fn parse_instrument_specs(specs: &Vec<String>, file_exists: &Vec<bool>) -> (r: Result<
    Vec<InstrumentSpec>,
    SpecError,
>)
    requires
        file_exists.len() == specs.len(),
    ensures
        match r {
            Ok(parsed) => {
                &&& parsed.len() == specs.len()
                &&& forall|i: int|
                    0 <= i < specs.len() ==> parsed_spec(specs[i]@, file_exists[i]) == Ok::<
                        InstrumentSpecView,
                        SpecErrorView,
                    >(#[trigger] parsed[i]@)
            },
            Err(e) => exists|k: int|
                {
                    &&& 0 <= k < specs.len()
                    &&& parsed_spec(#[trigger] specs[k]@, file_exists[k]) == Err::<
                        InstrumentSpecView,
                        SpecErrorView,
                    >(e@)
                    &&& forall|j: int|
                        0 <= j < k ==> (#[trigger] parsed_spec(specs[j]@, file_exists[j])) is Ok
                },
        },
{
    let mut parsed: Vec<InstrumentSpec> = Vec::new();
    let mut i: usize = 0;
    while i < specs.len()
        invariant
            i <= specs.len(),
            file_exists.len() == specs.len(),
            parsed.len() == i,
            forall|j: int|
                0 <= j < i ==> parsed_spec(specs[j]@, file_exists[j]) == Ok::<
                    InstrumentSpecView,
                    SpecErrorView,
                >(#[trigger] parsed[j]@),
            forall|j: int|
                0 <= j < i ==> (#[trigger] parsed_spec(specs[j]@, file_exists[j])) is Ok,
        decreases specs.len() - i,
    {
        match parse_instrument_spec(specs[i].as_str(), file_exists[i]) {
            Ok(spec) => { parsed.push(spec); },
            Err(e) => {
                assert(parsed_spec(specs[i as int]@, file_exists[i as int]) == Err::<
                    InstrumentSpecView,
                    SpecErrorView,
                >(e@));
                return Err(e);
            },
        }
        i += 1;
    }
    Ok(parsed)
}

/// The propagation that a command line asks for: none unless it is
/// switched on; else one with the depth, the patterns and the flag given.
pub fn create_propagation_config(
    propagate: bool,
    max_depth: Option<u32>,
    exclude: &Vec<String>,
    user_code_only: bool,
) -> (config: Option<PropagationConfig>)
    ensures
        match config {
            Some(c) => propagate && c@ == (PropagationView {
                enabled: true,
                max_depth,
                exclude_patterns: strings_view(exclude@),
                user_code_only,
            }),
            None => !propagate,
        },
{
    if propagate {
        Some(
            PropagationConfig {
                enabled: true,
                max_depth,
                exclude_patterns: copy_strings(exclude),
                user_code_only,
            },
        )
    } else {
        None
    }
}

/// Whether a command that ended badly counts as having run: its error
/// output tells of a panic, or the command left an exit code. A command
/// that did not even run fails the flow; one that ran and failed may be
/// just what is to be traced.
pub open spec fn ran_and_failed(stderr: Seq<char>, has_exit_code: bool) -> bool {
    ||| contains(stderr, "panicked at"@)
    ||| (contains(stderr, "thread"@) && contains(stderr, "panicked"@))
    ||| has_exit_code
}

/// Whether a command that ended badly counts as having run.
pub fn is_runtime_failure(stderr: &str, has_exit_code: bool) -> (b: bool)
    ensures
        b == ran_and_failed(stderr@, has_exit_code),
{
    let letters = chars_of(stderr);
    contains_text(&letters, "panicked at") || (contains_text(&letters, "thread") && contains_text(
        &letters,
        "panicked",
    )) || has_exit_code
}

/// How the flow ends once the files are restored and the projects
/// cleaned.
#[derive(Debug, Clone, Copy, PartialEq, Eq, Structural)]
pub enum CleanupVerdict {
    /// The cleanup is done with, whatever the flow itself gave.
    Done,
    /// The flow went well but the files could not be restored: that is the
    /// error to report.
    ReportRestore,
    /// The flow went well but the projects could not be cleaned: that is
    /// the error to report.
    ReportClean,
}

/// Decides what the cleanup reports. The projects are cleaned only where
/// the files were restored. A failure of the cleanup is reported only
/// where the flow itself went well: else the flow's own error stands.
pub fn cleanup_verdict(main_ok: bool, restore_ok: bool, clean_ok: bool) -> (verdict:
    CleanupVerdict)
    ensures
        verdict == (if !main_ok {
            CleanupVerdict::Done
        } else if !restore_ok {
            CleanupVerdict::ReportRestore
        } else if !clean_ok {
            CleanupVerdict::ReportClean
        } else {
            CleanupVerdict::Done
        }),
{
    if restore_ok {
        if !clean_ok && main_ok {
            return CleanupVerdict::ReportClean;
        }
    } else if main_ok {
        return CleanupVerdict::ReportRestore;
    }
    CleanupVerdict::Done
}

/// How a file is traced, by the functions named for it.
#[derive(Debug, Clone, Copy, PartialEq, Eq, Structural)]
pub enum InstrumentMode {
    /// No function is named: all are traced.
    All,
    /// One function is named.
    Single,
    /// Several functions are named.
    Multiple,
}

/// How a file is traced: all its functions where none is named, else the
/// one or the several named.
pub fn instrument_mode(spec: &InstrumentSpec) -> (mode: InstrumentMode)
    ensures
        mode == (if spec@.functions.len() == 0 {
            InstrumentMode::All
        } else if spec@.functions.len() == 1 {
            InstrumentMode::Single
        } else {
            InstrumentMode::Multiple
        }),
{
    if spec.functions.len() == 0 {
        InstrumentMode::All
    } else if spec.functions.len() == 1 {
        InstrumentMode::Single
    } else {
        InstrumentMode::Multiple
    }
}

} // verus!
