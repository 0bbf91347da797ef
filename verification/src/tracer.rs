//! The tracer's state and the decisions it takes. The state never touches a
//! file: each operation tells its caller what to write, and hears back how
//! it went.

use crate::json::{
    all_encodable, append_decimal, decimal, encodable, first_refusal, records_json, refusal,
    render_records, render_stream_chunk, stream_chunk,
};
use crate::trace_data::{
    forest_view, records_view, CallData, CallNode, CallTree, Encoded, RecordView,
};
use crate::paths::same_path;
use crate::text::{chars_of, digit_value, number_of, parse_number, text_view};
use std::collections::HashMap;
use vstd::prelude::*;
use vstd::string::StringExecFns;

verus! {

broadcast use vstd::std_specs::hash::group_hash_axioms;

/// What can go wrong in a tracing operation.
#[derive(Debug)]
pub enum TraceError {
    /// A file or directory operation failed; the message of the failure.
    Io(String),
    /// A value could not be encoded; the encoder's message.
    Serialization(String),
    /// The lock round the shared state was poisoned.
    LockPoisoned,
    /// The tracing set-up failed.
    TracingSetup(String),
}

/// The mathematical value of a [`TraceError`].
pub ghost enum ErrorView {
    Io(Seq<char>),
    Serialization(Seq<char>),
    LockPoisoned,
    TracingSetup(Seq<char>),
}

impl View for TraceError {
    type V = ErrorView;

    open spec fn view(&self) -> ErrorView {
        match self {
            TraceError::Io(m) => ErrorView::Io(m@),
            TraceError::Serialization(m) => ErrorView::Serialization(m@),
            TraceError::LockPoisoned => ErrorView::LockPoisoned,
            TraceError::TracingSetup(m) => ErrorView::TracingSetup(m@),
        }
    }
}

impl TraceError {
    /// The error as a line of text.
    pub fn message(&self) -> (text: String)
        ensures
            text@ == match self@ {
                ErrorView::Io(m) => "IO error: "@ + m,
                ErrorView::Serialization(m) => "Serialization error: "@ + m,
                ErrorView::LockPoisoned => "Lock was poisoned"@,
                ErrorView::TracingSetup(m) => "Tracing setup error: "@ + m,
            },
    {
        match self {
            TraceError::Io(m) => "IO error: ".to_owned().concat(m.as_str()),
            TraceError::Serialization(m) => "Serialization error: ".to_owned().concat(m.as_str()),
            TraceError::LockPoisoned => "Lock was poisoned".to_owned(),
            TraceError::TracingSetup(m) => "Tracing setup error: ".to_owned().concat(m.as_str()),
        }
    }
}

/// Where completed records go.
#[derive(Debug)]
pub enum OutputMode {
    /// Kept in memory and written once, on demand.
    Memory,
    /// Appended to the file at `path` as they come.
    Stream { path: String },
}

/// The mathematical value of an [`OutputMode`].
pub ghost enum SinkMode {
    Memory,
    Stream { path: Seq<char> },
}

impl View for OutputMode {
    type V = SinkMode;

    open spec fn view(&self) -> SinkMode {
        match self {
            OutputMode::Memory => SinkMode::Memory,
            OutputMode::Stream { path } => SinkMode::Stream { path: path@ },
        }
    }
}

impl Clone for OutputMode {
    fn clone(&self) -> (copy: OutputMode)
        ensures
            copy@ == self@,
    {
        match self {
            OutputMode::Memory => OutputMode::Memory,
            OutputMode::Stream { path } => OutputMode::Stream { path: path.clone() },
        }
    }
}

/// A call that has just been entered: no children yet.
pub open spec fn leaf_tree(name: Seq<char>, file: Seq<char>, line: u32) -> CallTree {
    CallTree { name, file, line, children: Seq::empty() }
}

/// A node with one more child behind those it has.
pub open spec fn with_child(parent: CallTree, child: CallTree) -> CallTree {
    CallTree { children: parent.children.push(child), ..parent }
}

/// A thread's stack after a call was entered: the new call on top.
pub open spec fn stack_after_enter(
    stack: Seq<CallTree>,
    name: Seq<char>,
    file: Seq<char>,
    line: u32,
) -> Seq<CallTree> {
    stack.push(leaf_tree(name, file, line))
}

/// A thread's stack after the call on top was left: the call is gone from
/// the stack and stands, frozen, as the last child of the call below it.
/// An empty stack stays empty.
pub open spec fn stack_after_exit(stack: Seq<CallTree>) -> Seq<CallTree> {
    if stack.len() == 0 {
        stack
    } else if stack.len() == 1 {
        Seq::empty()
    } else {
        stack.take(stack.len() - 2).push(with_child(stack[stack.len() - 2], stack.last()))
    }
}

/// The name under which a thread stands in its records.
pub open spec fn thread_label(thread: u64) -> Seq<char> {
    "ThreadId("@ + decimal(thread as nat) + ")"@
}

/// The record that a thread's top call gives.
pub open spec fn record_of(
    top: CallTree,
    thread: u64,
    timestamp: Seq<char>,
    inputs: Result<Seq<char>, Seq<char>>,
    output: Result<Seq<char>, Seq<char>>,
) -> RecordView {
    RecordView {
        timestamp_utc: timestamp,
        thread_id: thread_label(thread),
        root_node: top,
        inputs,
        output,
    }
}

/// The mathematical value of a [`TracerState`].
pub ghost struct TracerView {
    /// Each thread that has entered a call, with its open calls, outermost
    /// first. Each open call holds the calls completed inside it so far.
    pub stacks: Map<u64, Seq<CallTree>>,
    /// The records kept in memory, oldest first.
    pub buffered: Seq<RecordView>,
    /// The active sink.
    pub mode: SinkMode,
    /// Whether a streamed file is open for appending.
    pub stream_open: bool,
    /// The records appended to the streamed file since it was opened.
    pub streamed: Seq<RecordView>,
    /// Whether the tracer was initialised.
    pub tracing_initialized: bool,
    /// Whether automatic saving was asked for already.
    pub auto_save_requested: bool,
}

/// A state with one more record in its buffer.
pub open spec fn with_buffered(v: TracerView, record: RecordView) -> TracerView {
    TracerView { buffered: v.buffered.push(record), ..v }
}

/// A state with one more record in its streamed file.
pub open spec fn with_streamed(v: TracerView, record: RecordView) -> TracerView {
    TracerView { streamed: v.streamed.push(record), ..v }
}

/// A state after its sink was closed for a switch to `mode`: no file is
/// open, and the buffer is the sink at once if it is what was asked for.
pub open spec fn after_switch(v: TracerView, mode: SinkMode) -> TracerView {
    TracerView {
        stream_open: false,
        mode: if mode is Memory {
            SinkMode::Memory
        } else {
            v.mode
        },
        ..v
    }
}

/// A state after the streamed file at `path` was opened: the stream is the
/// sink, its file is open and holds no record.
pub open spec fn after_stream_opened(v: TracerView, path: Seq<char>) -> TracerView {
    TracerView {
        mode: SinkMode::Stream { path },
        stream_open: true,
        streamed: Seq::empty(),
        ..v
    }
}

/// A state after its buffer was written out: the buffer is empty.
pub open spec fn after_finalize(v: TracerView) -> TracerView {
    TracerView { buffered: Seq::empty(), ..v }
}

/// A state after a row of records went to its buffer.
pub open spec fn with_all_buffered(v: TracerView, records: Seq<RecordView>) -> TracerView
    decreases records.len(),
{
    if records.len() == 0 {
        v
    } else {
        with_buffered(with_all_buffered(v, records.drop_last()), records.last())
    }
}

/// A switch of sinks, in either direction and whether or not the new file
/// can be opened, loses no record: the buffer and the tally of the
/// streamed file are what they were when the old sink is closed, and the
/// buffer is still what it was when the new file is open.
pub proof fn lemma_switch_keeps_records(v: TracerView, mode: SinkMode, path: Seq<char>)
    ensures
        after_switch(v, mode).buffered == v.buffered,
        after_switch(v, mode).streamed == v.streamed,
        after_switch(v, mode).stacks == v.stacks,
        after_stream_opened(after_switch(v, mode), path).buffered == v.buffered,
        after_stream_opened(after_switch(v, mode), path).stacks == v.stacks,
{
}

/// While the buffer is the sink and nothing is finalized, the buffer
/// holds what it held and every record since, in order: after N records
/// it is N records longer.
pub proof fn lemma_buffer_counts_records(v: TracerView, records: Seq<RecordView>)
    ensures
        with_all_buffered(v, records).buffered == v.buffered + records,
        with_all_buffered(v, records).buffered.len() == v.buffered.len() + records.len(),
        with_all_buffered(v, records) == (TracerView {
            buffered: v.buffered + records,
            ..v
        }),
    decreases records.len(),
{
    if records.len() == 0 {
        assert(v.buffered + records =~= v.buffered);
    } else {
        lemma_buffer_counts_records(v, records.drop_last());
        assert((v.buffered + records.drop_last()).push(records.last()) =~= v.buffered
            + records);
    }
}

/// What became of a call to record.
#[derive(Debug)]
pub enum RecordOutcome {
    /// The thread has no open call: nothing was recorded.
    NoOpenCall,
    /// The record was added to the buffer.
    Buffered,
    /// `chunk` is to be appended to the streamed file; the state then hears
    /// through [`TracerState::stream_event_written`] whether that succeeded.
    Append { chunk: String, record: CallData },
}

/// What the caller of [`TracerState::set_output_mode`] has to do.
#[derive(Debug)]
pub struct SwitchPlan {
    /// Where a streamed file was open: the text to append to it before it
    /// is flushed and closed. A failure to do so is ignored.
    pub close_with: Option<String>,
    /// Where the new sink is a stream: the file to create, with the
    /// directories above it, and to open for a truncating write.
    pub open_path: Option<String>,
    /// The text to write to the new file before anything else.
    pub header: String,
}

/// The mathematical value of a [`SwitchPlan`].
pub ghost struct SwitchPlanView {
    pub close_with: Option<Seq<char>>,
    pub open_path: Option<Seq<char>>,
    pub header: Seq<char>,
}

impl View for SwitchPlan {
    type V = SwitchPlanView;

    open spec fn view(&self) -> SwitchPlanView {
        SwitchPlanView {
            close_with: text_view(self.close_with),
            open_path: text_view(self.open_path),
            header: self.header@,
        }
    }
}

/// What the caller of [`TracerState::finalize_to_path`] has to do.
#[derive(Debug)]
pub enum FinalizePlan {
    /// Create the directories above `path`, then write `contents` to it.
    WriteFile { path: String, contents: String },
    /// Append `close_with` to the streamed file, flush and close it; then,
    /// where `copy_to` names a file, copy the streamed file there.
    CloseStream { close_with: String, stream_path: String, copy_to: Option<String> },
    /// The streamed file is closed already: nothing to write.
    Nothing,
    /// The buffer holds a record that cannot be written: report `error`.
    Refused { error: TraceError },
}

/// The mathematical value of a [`FinalizePlan`].
pub ghost enum FinalizePlanView {
    WriteFile { path: Seq<char>, contents: Seq<char> },
    CloseStream { close_with: Seq<char>, stream_path: Seq<char>, copy_to: Option<Seq<char>> },
    Nothing,
    Refused { error: ErrorView },
}

impl View for FinalizePlan {
    type V = FinalizePlanView;

    open spec fn view(&self) -> FinalizePlanView {
        match self {
            FinalizePlan::WriteFile { path, contents } => FinalizePlanView::WriteFile {
                path: path@,
                contents: contents@,
            },
            FinalizePlan::CloseStream {
                close_with,
                stream_path,
                copy_to,
            } => FinalizePlanView::CloseStream {
                close_with: close_with@,
                stream_path: stream_path@,
                copy_to: text_view(*copy_to),
            },
            FinalizePlan::Nothing => FinalizePlanView::Nothing,
            FinalizePlan::Refused { error } => FinalizePlanView::Refused { error: error@ },
        }
    }
}

/// How a buffer is brought to a file: written there whole, as one JSON
/// array, unless one of its records cannot be written; then the first such
/// record's message is the error to report.
pub open spec fn buffer_plan(buffered: Seq<RecordView>, path: Seq<char>) -> FinalizePlanView {
    match first_refusal(buffered, 0) {
        None => FinalizePlanView::WriteFile { path, contents: records_json(buffered) },
        Some(m) => FinalizePlanView::Refused { error: ErrorView::Serialization(m) },
    }
}

/// What is to be done to bring a trace to `output_path`, given whether
/// that is the path of the streamed file: the buffer is written there; an
/// open stream is closed, and copied there where that is another path; a
/// stream whose file is closed asks for nothing.
pub open spec fn finalize_plan(v: TracerView, output_path: Seq<char>, is_stream_path: bool) -> FinalizePlanView {
    match v.mode {
        SinkMode::Memory => buffer_plan(v.buffered, output_path),
        SinkMode::Stream { path } => if v.stream_open {
            FinalizePlanView::CloseStream {
                close_with: crate::json::stream_trailer(),
                stream_path: path,
                copy_to: if is_stream_path {
                    None
                } else {
                    Some(output_path)
                },
            }
        } else {
            FinalizePlanView::Nothing
        },
    }
}

/// Finalizing twice: after the buffer was written out it is empty, and
/// brought to a file again it is written as the empty array, whatever it
/// held before.
pub proof fn lemma_finalize_twice(v: TracerView, path: Seq<char>)
    ensures
        after_finalize(v).buffered.len() == 0,
        buffer_plan(after_finalize(v).buffered, path) == (FinalizePlanView::WriteFile {
            path,
            contents: "[]"@,
        }),
        after_finalize(after_finalize(v)) == after_finalize(v),
{
}

/// A buffer whose records all have their texts is written, never refused.
pub proof fn lemma_encodable_buffer_is_written(buffered: Seq<RecordView>, path: Seq<char>)
    ensures
        all_encodable(buffered) <==> buffer_plan(buffered, path) is WriteFile,
        forall|i: int|
            0 <= i < buffered.len() ==> (encodable(#[trigger] buffered[i]) <==> refusal(
                buffered[i],
            ) is None),
{
    crate::json::lemma_refused_means_unencodable(buffered, 0);
}

/// What the caller of [`TracerState::emergency_save`] has to do, as far as
/// it can: failures are swallowed.
#[derive(Debug)]
pub enum EmergencyPlan {
    /// Append `close_with` to the streamed file and flush it.
    CloseStream { close_with: String },
    /// Write `contents` to `path`.
    WriteFile { path: String, contents: String },
    /// Nothing to save.
    Nothing,
}

/// The mathematical value of an [`EmergencyPlan`].
pub ghost enum EmergencyPlanView {
    CloseStream { close_with: Seq<char> },
    WriteFile { path: Seq<char>, contents: Seq<char> },
    Nothing,
}

impl View for EmergencyPlan {
    type V = EmergencyPlanView;

    open spec fn view(&self) -> EmergencyPlanView {
        match self {
            EmergencyPlan::CloseStream { close_with } => EmergencyPlanView::CloseStream {
                close_with: close_with@,
            },
            EmergencyPlan::WriteFile { path, contents } => EmergencyPlanView::WriteFile {
                path: path@,
                contents: contents@,
            },
            EmergencyPlan::Nothing => EmergencyPlanView::Nothing,
        }
    }
}

/// The file that takes the buffer when the process goes down.
pub open spec fn emergency_path() -> Seq<char> {
    "emergency_trace_backup.json"@
}

/// What closes a streamed file when the state is cleared.
pub open spec fn clear_trailer() -> Seq<char> {
    "]\n"@
}

/// The decimal digits of a text, in their order.
pub open spec fn digits_in(s: Seq<char>) -> Seq<char>
    decreases s.len(),
{
    if s.len() == 0 {
        Seq::empty()
    } else if digit_value(s.last()) is Some {
        digits_in(s.drop_last()).push(s.last())
    } else {
        digits_in(s.drop_last())
    }
}

/// The number of a thread, told from the text that shows its identifier:
/// the number that the digits of the text stand for; zero where the text
/// has no digit or the number is too large.
pub open spec fn thread_number_in(shown: Seq<char>) -> u64 {
    match number_of(digits_in(shown), u64::MAX as nat) {
        Some(n) => n as u64,
        None => 0,
    }
}

/// The number of a thread, told from the text that shows its identifier.
pub fn thread_number(shown: &str) -> (thread: u64)
    ensures
        thread == thread_number_in(shown@),
{
    let letters = chars_of(shown);
    let mut digits: Vec<char> = Vec::new();
    let mut i: usize = 0;
    assert(letters@.take(0) =~= Seq::empty());
    while i < letters.len()
        invariant
            i <= letters.len(),
            digits@ == digits_in(letters@.take(i as int)),
        decreases letters.len() - i,
    {
        let c: char = letters[i];
        assert(letters@.take(i + 1).drop_last() =~= letters@.take(i as int));
        assert(letters@.take(i + 1).last() == c);
        if '0' <= c && c <= '9' {
            digits.push(c);
        }
        i += 1;
    }
    assert(letters@.take(i as int) =~= letters@);
    match parse_number(&digits, u64::MAX) {
        Some(n) => n,
        None => 0,
    }
}

/// The name of a thread for its records.
pub fn label_of(thread: u64) -> (label: String)
    ensures
        label@ == thread_label(thread),
{
    let mut label = "ThreadId(".to_owned();
    append_decimal(&mut label, thread);
    label.append(")");
    label
}

/// The tracer's whole state: the open calls of every thread, the buffered
/// records, the active sink and what is known of the streamed file.
pub struct TracerState {
    call_stacks: HashMap<u64, Vec<CallNode>>,
    results: Vec<CallData>,
    output_mode: OutputMode,
    stream_open: bool,
    tracing_initialized: bool,
    auto_save_requested: bool,
    stream_event_count: usize,
    streamed: Ghost<Seq<RecordView>>,
}

impl View for TracerState {
    type V = TracerView;

    closed spec fn view(&self) -> TracerView {
        TracerView {
            stacks: self.call_stacks@.map_values(|s: Vec<CallNode>| forest_view(s@)),
            buffered: records_view(self.results@),
            mode: self.output_mode@,
            stream_open: self.stream_open,
            streamed: self.streamed@,
            tracing_initialized: self.tracing_initialized,
            auto_save_requested: self.auto_save_requested,
        }
    }
}

/// The open calls of a thread, outermost first; none for a thread that
/// never entered a call.
pub open spec fn stack_of(v: TracerView, thread: u64) -> Seq<CallTree> {
    if v.stacks.contains_key(thread) {
        v.stacks[thread]
    } else {
        Seq::empty()
    }
}

impl TracerState {
    /// Whether the state is consistent: only a stream has an open file, and
    /// the count of streamed records fits the machine.
    pub closed spec fn wf(&self) -> bool {
        &&& self.stream_event_count == self.streamed@.len()
        &&& self.stream_open ==> self.output_mode is Stream
    }

    /// A consistent state with an open file has a stream for its sink.
    pub proof fn lemma_wf(&self)
        requires
            self.wf(),
        ensures
            self@.stream_open ==> self@.mode is Stream,
            self@.streamed.len() <= usize::MAX,
    {
    }

    /// The state at start: no thread, no record, the buffer as sink.
    pub fn new() -> (state: TracerState)
        ensures
            state.wf(),
            state@ == (TracerView {
                stacks: Map::empty(),
                buffered: Seq::empty(),
                mode: SinkMode::Memory,
                stream_open: false,
                streamed: Seq::empty(),
                tracing_initialized: false,
                auto_save_requested: false,
            }),
    {
        let state = TracerState {
            call_stacks: HashMap::new(),
            results: Vec::new(),
            output_mode: OutputMode::Memory,
            stream_open: false,
            tracing_initialized: false,
            auto_save_requested: false,
            stream_event_count: 0,
            streamed: Ghost(Seq::empty()),
        };
        assert(state@.stacks =~= Map::empty());
        assert(state@.buffered =~= Seq::empty());
        state
    }

    /// Marks the tracer as initialised. Doing so twice changes nothing more.
    pub fn ensure_tracing_initialized(&mut self) -> (r: Result<(), TraceError>)
        requires
            old(self).wf(),
        ensures
            final(self).wf(),
            r is Ok,
            final(self)@ == (TracerView { tracing_initialized: true, ..old(self)@ }),
    {
        if !self.tracing_initialized {
            self.tracing_initialized = true;
        }
        Ok(())
    }

    /// Opens a call on a thread's stack.
    pub fn push_call(&mut self, thread: u64, name: &str, file: &str, line: u32)
        requires
            old(self).wf(),
        ensures
            final(self).wf(),
            final(self)@ == (TracerView {
                stacks: old(self)@.stacks.insert(
                    thread,
                    stack_after_enter(stack_of(old(self)@, thread), name@, file@, line),
                ),
                ..old(self)@
            }),
    {
        let node = CallNode::leaf(name, file, line);
        let mut stack = match self.call_stacks.remove(&thread) {
            Some(stack) => stack,
            None => Vec::new(),
        };
        let ghost before = forest_view(stack@);
        assert(before =~= stack_of(old(self)@, thread));
        stack.push(node);
        assert(forest_view(stack@) =~= stack_after_enter(before, name@, file@, line));
        self.call_stacks.insert(thread, stack);
        assert(self@.stacks =~= old(self)@.stacks.insert(
            thread,
            stack_after_enter(stack_of(old(self)@, thread), name@, file@, line),
        ));
    }

    /// Closes the call on top of a thread's stack. A thread that never
    /// entered a call, or has none open, is left as it is.
    pub fn pop_call(&mut self, thread: u64)
        requires
            old(self).wf(),
        ensures
            final(self).wf(),
            final(self)@ == (if old(self)@.stacks.contains_key(thread) {
                TracerView {
                    stacks: old(self)@.stacks.insert(
                        thread,
                        stack_after_exit(old(self)@.stacks[thread]),
                    ),
                    ..old(self)@
                }
            } else {
                old(self)@
            }),
    {
        match self.call_stacks.remove(&thread) {
            None => {
                assert(self@.stacks =~= old(self)@.stacks);
            },
            Some(mut stack) => {
                let ghost before = forest_view(stack@);
                assert(before =~= old(self)@.stacks[thread]);
                match stack.pop() {
                    None => {},
                    Some(done) => {
                        match stack.pop() {
                            None => {},
                            Some(mut parent) => {
                                let ghost p = parent@;
                                parent.children.push(done);
                                assert(parent@.children =~= p.children.push(done@));
                                stack.push(parent);
                            },
                        }
                    },
                }
                assert(forest_view(stack@) =~= stack_after_exit(before));
                self.call_stacks.insert(thread, stack);
                assert(self@.stacks =~= old(self)@.stacks.insert(
                    thread,
                    stack_after_exit(old(self)@.stacks[thread]),
                ));
            },
        }
    }

    /// The number of calls that a thread has open.
    pub fn open_calls(&self, thread: u64) -> (depth: usize)
        ensures
            depth == stack_of(self@, thread).len(),
    {
        match self.call_stacks.get(&thread) {
            Some(stack) => {
                assert(forest_view(stack@) =~= stack_of(self@, thread));
                stack.len()
            },
            None => 0,
        }
    }

    /// A copy of the call on top of a thread's stack, if it has one.
    pub fn top_call(&self, thread: u64) -> (top: Option<CallNode>)
        ensures
            top is Some <==> stack_of(self@, thread).len() > 0,
            top matches Some(node) ==> node@ == stack_of(self@, thread).last(),
    {
        match self.call_stacks.get(&thread) {
            Some(stack) => {
                assert(forest_view(stack@) =~= stack_of(self@, thread));
                if stack.len() > 0 {
                    Some(stack[stack.len() - 1].snapshot())
                } else {
                    None
                }
            },
            None => None,
        }
    }

    /// The records kept in memory, oldest first.
    pub fn buffered_records(&self) -> (records: &Vec<CallData>)
        ensures
            records_view(records@) == self@.buffered,
    {
        &self.results
    }

    /// The active sink.
    pub fn output_mode(&self) -> (mode: &OutputMode)
        ensures
            mode@ == self@.mode,
    {
        &self.output_mode
    }

    /// Whether a streamed file is open for appending.
    pub fn is_stream_open(&self) -> (open: bool)
        ensures
            open == self@.stream_open,
    {
        self.stream_open
    }

    /// The number of records appended to the streamed file since it was
    /// opened.
    pub fn streamed_count(&self) -> (count: usize)
        requires
            self.wf(),
        ensures
            count == self@.streamed.len(),
    {
        self.stream_event_count
    }

    /// The number of buffered records and the number of threads that have
    /// entered a call since the state was last cleared.
    pub fn stats(&self) -> (counts: (usize, usize))
        ensures
            counts.0 == self@.buffered.len(),
            counts.1 == self@.stacks.dom().len(),
    {
        assert(self@.stacks.dom() =~= self.call_stacks@.dom());
        (self.results.len(), self.call_stacks.len())
    }

    /// The text to append to the streamed file for a record: `None` where
    /// no file is open. The state is told of the write afterwards, through
    /// [`TracerState::stream_event_written`]. A record that cannot be
    /// written is refused with its message.
    pub fn write_stream_event(&self, call_data: &CallData) -> (r: Result<
        Option<String>,
        TraceError,
    >)
        requires
            self.wf(),
        ensures
            !self@.stream_open ==> r matches Ok(None),
            self@.stream_open ==> match refusal(call_data@) {
                None => r matches Ok(Some(chunk)) && chunk@ == stream_chunk(
                    self@.streamed.len(),
                    call_data@,
                ),
                Some(m) => r matches Err(e) && e@ == ErrorView::Serialization(m),
            },
    {
        if self.stream_open {
            match render_stream_chunk(self.stream_event_count, call_data) {
                Ok(chunk) => Ok(Some(chunk)),
                Err(e) => Err(e),
            }
        } else {
            Ok(None)
        }
    }

    /// Takes note of how the write of a streamed record went. A record that
    /// was written counts as streamed; one that was not is kept in the
    /// buffer instead, so that it is not lost.
    pub fn stream_event_written(&mut self, record: CallData, written: bool)
        requires
            old(self).wf(),
            written ==> old(self)@.streamed.len() < usize::MAX,
        ensures
            final(self).wf(),
            final(self)@ == (if written {
                with_streamed(old(self)@, record@)
            } else {
                with_buffered(old(self)@, record@)
            }),
    {
        if written {
            self.stream_event_count = self.stream_event_count + 1;
            self.streamed = Ghost(self.streamed@.push(record@));
        } else {
            self.results.push(record);
            assert(self@.buffered =~= old(self)@.buffered.push(record@));
        }
    }

    /// Records the call on top of a thread's stack: a snapshot of the call
    /// with everything completed inside it so far, the two encoded values,
    /// the time and the thread's label. The record goes to the active sink:
    /// to the buffer; or to the open file of a stream, as a chunk to
    /// append, unless one of its values has no text, which sends it to the
    /// buffer too, as does a stream whose file is closed: a record that
    /// cannot be written is kept. A thread without an open call records
    /// nothing.
    pub fn record_at(
        &mut self,
        thread: u64,
        timestamp: String,
        inputs: Encoded,
        output: Encoded,
    ) -> (outcome: RecordOutcome)
        requires
            old(self).wf(),
        ensures
            final(self).wf(),
            stack_of(old(self)@, thread).len() == 0 ==> outcome is NoOpenCall && final(self)@
                == old(self)@,
            stack_of(old(self)@, thread).len() > 0 ==> ({
                let rec = record_of(
                    stack_of(old(self)@, thread).last(),
                    thread,
                    timestamp@,
                    inputs@,
                    output@,
                );
                match outcome {
                    RecordOutcome::NoOpenCall => false,
                    RecordOutcome::Buffered => final(self)@ == with_buffered(old(self)@, rec),
                    RecordOutcome::Append { chunk, record } => {
                        &&& final(self)@ == old(self)@
                        &&& old(self)@.stream_open
                        &&& record@ == rec
                        &&& encodable(rec)
                        &&& chunk@ == stream_chunk(old(self)@.streamed.len(), rec)
                    },
                }
            }),
            stack_of(old(self)@, thread).len() > 0 ==> (outcome is Append <==> old(
                self,
            )@.stream_open && inputs@ is Ok && output@ is Ok),
    {
        let root = match self.top_call(thread) {
            Some(node) => node,
            None => { return RecordOutcome::NoOpenCall; },
        };
        let call_data = CallData {
            timestamp_utc: timestamp,
            thread_id: label_of(thread),
            root_node: root,
            inputs,
            output,
        };
        match &self.output_mode {
            OutputMode::Memory => {
                self.results.push(call_data);
                assert(self@.buffered =~= old(self)@.buffered.push(call_data@));
                RecordOutcome::Buffered
            },
            OutputMode::Stream { .. } => {
                match self.write_stream_event(&call_data) {
                    Ok(Some(chunk)) => RecordOutcome::Append { chunk, record: call_data },
                    Ok(None) | Err(_) => {
                        self.results.push(call_data);
                        assert(self@.buffered =~= old(self)@.buffered.push(call_data@));
                        RecordOutcome::Buffered
                    },
                }
            },
        }
    }

    /// Makes the way free for a new sink: a streamed file that is open is
    /// to be closed, whatever comes next. The buffer as new sink is active
    /// at once. A stream as new sink is active once its file is open and
    /// the state was told so, through [`TracerState::stream_opened`].
    /// Records already buffered or streamed stay where they are.
    pub fn set_output_mode(&mut self, mode: &OutputMode) -> (plan: SwitchPlan)
        requires
            old(self).wf(),
        ensures
            final(self).wf(),
            plan@ == (SwitchPlanView {
                close_with: if old(self)@.stream_open {
                    Some(crate::json::stream_trailer())
                } else {
                    None
                },
                open_path: match mode@ {
                    SinkMode::Memory => None,
                    SinkMode::Stream { path } => Some(path),
                },
                header: crate::json::stream_header(),
            }),
            final(self)@ == after_switch(old(self)@, mode@),
    {
        let close_with = if self.stream_open {
            Some("\n]\n".to_owned())
        } else {
            None
        };
        self.stream_open = false;
        let open_path = match mode {
            OutputMode::Memory => {
                self.output_mode = OutputMode::Memory;
                None
            },
            OutputMode::Stream { path } => Some(path.clone()),
        };
        SwitchPlan { close_with, open_path, header: "[\n".to_owned() }
    }

    /// Takes note of how the opening of a streamed file went. A file that
    /// was created and holds its header makes the stream the active sink,
    /// with no record in it yet. A failure leaves the state as it is.
    pub fn stream_opened(&mut self, path: String, opened: Result<(), String>) -> (r: Result<
        (),
        TraceError,
    >)
        requires
            old(self).wf(),
        ensures
            final(self).wf(),
            opened is Ok ==> r is Ok && final(self)@ == after_stream_opened(old(self)@, path@),
            opened matches Err(m) ==> final(self)@ == old(self)@ && (r matches Err(e) && e@
                == ErrorView::Io(m@)),
    {
        match opened {
            Ok(()) => {
                self.output_mode = OutputMode::Stream { path };
                self.stream_open = true;
                self.stream_event_count = 0;
                self.streamed = Ghost(Seq::empty());
                Ok(())
            },
            Err(m) => Err(TraceError::Io(m)),
        }
    }

    /// Decides how the trace is brought to `output_path`, given whether
    /// that is the path of the streamed file. The buffer is written there
    /// whole, as one JSON array. A stream has its file closed and, where
    /// `output_path` is another path than the file's own, copied there.
    /// The state hears of the outcome through
    /// [`TracerState::finalize_done`].
    pub fn finalize_with(&mut self, output_path: &str, is_stream_path: bool) -> (plan: FinalizePlan)
        requires
            old(self).wf(),
        ensures
            final(self).wf(),
            plan@ == finalize_plan(old(self)@, output_path@, is_stream_path),
            final(self)@ == (TracerView { stream_open: false, ..old(self)@ }),
    {
        match &self.output_mode {
            OutputMode::Memory => {
                match render_records(&self.results) {
                    Ok(contents) => FinalizePlan::WriteFile {
                        path: output_path.to_owned(),
                        contents,
                    },
                    Err(error) => FinalizePlan::Refused { error },
                }
            },
            OutputMode::Stream { path } => {
                if self.stream_open {
                    let copy_to = if is_stream_path {
                        None
                    } else {
                        Some(output_path.to_owned())
                    };
                    let stream_path = path.clone();
                    self.stream_open = false;
                    FinalizePlan::CloseStream {
                        close_with: "\n]\n".to_owned(),
                        stream_path,
                        copy_to,
                    }
                } else {
                    FinalizePlan::Nothing
                }
            },
        }
    }

    /// Decides how the trace is brought to `output_path`: what
    /// [`TracerState::finalize_with`] says, with the platform's word on
    /// whether `output_path` is the path of the streamed file. A path that
    /// is the file's own letter for letter is never copied to.
    pub fn finalize_to_path(&mut self, output_path: &str) -> (plan: FinalizePlan)
        requires
            old(self).wf(),
        ensures
            final(self).wf(),
            plan@ == finalize_plan(old(self)@, output_path@, true) || plan@ == finalize_plan(
                old(self)@,
                output_path@,
                false,
            ),
            old(self)@.mode == (SinkMode::Stream { path: output_path@ }) ==> plan@
                == finalize_plan(old(self)@, output_path@, true),
            final(self)@ == (TracerView { stream_open: false, ..old(self)@ }),
    {
        let is_stream_path = match &self.output_mode {
            OutputMode::Memory => false,
            OutputMode::Stream { path } => same_path(output_path, path.as_str()),
        };
        proof {
            self.lemma_wf();
        }
        self.finalize_with(output_path, is_stream_path)
    }

    /// Takes note of how the writing that [`TracerState::finalize_to_path`]
    /// asked for went. After a success the buffer is empty; after a failure
    /// it is kept, and the failure is reported.
    pub fn finalize_done(&mut self, written: Result<(), String>) -> (r: Result<(), TraceError>)
        requires
            old(self).wf(),
        ensures
            final(self).wf(),
            written is Ok ==> r is Ok && final(self)@ == after_finalize(old(self)@),
            written matches Err(m) ==> final(self)@ == old(self)@ && (r matches Err(e) && e@
                == ErrorView::Io(m@)),
    {
        match written {
            Ok(()) => {
                self.results.clear();
                assert(self@.buffered =~= Seq::empty());
                Ok(())
            },
            Err(m) => Err(TraceError::Io(m)),
        }
    }

    /// Decides what to save when the process goes down. An open streamed
    /// file is closed; a buffer that holds records is written to the
    /// emergency file. The buffer is kept.
    pub fn emergency_save(&mut self) -> (r: Result<EmergencyPlan, TraceError>)
        requires
            old(self).wf(),
        ensures
            final(self).wf(),
            final(self)@ == (TracerView { stream_open: false, ..old(self)@ }),
            match old(self)@.mode {
                SinkMode::Stream { path } => r matches Ok(plan) && plan@ == (if old(
                    self,
                )@.stream_open {
                    EmergencyPlanView::CloseStream { close_with: crate::json::stream_trailer() }
                } else {
                    EmergencyPlanView::Nothing
                }),
                SinkMode::Memory => if old(self)@.buffered.len() == 0 {
                    r matches Ok(plan) && plan is Nothing
                } else {
                    match first_refusal(old(self)@.buffered, 0) {
                        None => r matches Ok(plan) && plan@ == (EmergencyPlanView::WriteFile {
                            path: emergency_path(),
                            contents: records_json(old(self)@.buffered),
                        }),
                        Some(m) => r matches Err(e) && e@ == ErrorView::Serialization(m),
                    }
                },
            },
    {
        match &self.output_mode {
            OutputMode::Stream { .. } => {
                if self.stream_open {
                    self.stream_open = false;
                    Ok(EmergencyPlan::CloseStream { close_with: "\n]\n".to_owned() })
                } else {
                    Ok(EmergencyPlan::Nothing)
                }
            },
            OutputMode::Memory => {
                if self.results.len() > 0 {
                    match render_records(&self.results) {
                        Ok(contents) => Ok(
                            EmergencyPlan::WriteFile {
                                path: "emergency_trace_backup.json".to_owned(),
                                contents,
                            },
                        ),
                        Err(e) => Err(e),
                    }
                } else {
                    Ok(EmergencyPlan::Nothing)
                }
            },
        }
    }

    /// Forgets every open call and every record and goes back to the buffer
    /// as sink. Returns what is to be appended to a streamed file that was
    /// open, before it is flushed and closed.
    pub fn clear(&mut self) -> (close_with: Option<String>)
        requires
            old(self).wf(),
        ensures
            final(self).wf(),
            text_view(close_with) == (if old(self)@.stream_open {
                Some(clear_trailer())
            } else {
                None
            }),
            final(self)@ == (TracerView {
                stacks: Map::empty(),
                buffered: Seq::empty(),
                mode: SinkMode::Memory,
                stream_open: false,
                streamed: Seq::empty(),
                ..old(self)@
            }),
    {
        let close_with = if self.stream_open {
            Some("]\n".to_owned())
        } else {
            None
        };
        self.stream_open = false;
        self.results.clear();
        self.call_stacks.clear();
        self.output_mode = OutputMode::Memory;
        self.stream_event_count = 0;
        self.streamed = Ghost(Seq::empty());
        assert(self@.stacks =~= Map::empty());
        assert(self@.buffered =~= Seq::empty());
        close_with
    }

    /// Whether automatic saving is still to be set up: `true` the first
    /// time it is asked, `false` ever after.
    pub fn request_auto_save(&mut self) -> (first: bool)
        requires
            old(self).wf(),
        ensures
            final(self).wf(),
            first == !old(self)@.auto_save_requested,
            final(self)@ == (TracerView { auto_save_requested: true, ..old(self)@ }),
    {
        let first = !self.auto_save_requested;
        self.auto_save_requested = true;
        first
    }
}

} // verus!
