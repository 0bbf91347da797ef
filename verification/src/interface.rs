//! The operations that instrumented code and its host call. Each takes the
//! tracer's state, which the host keeps behind its lock, and the number of
//! the calling thread where the operation is a thread's own.

use crate::auto_save::{trace_file_name, AutoSaveConfig, AutoSaveView};
use crate::json::{
    encode, encoded_text, stream_chunk, stream_header, stream_trailer,
};
use crate::trace_common::{is_utc_timestamp, utc_now_rfc3339};
use crate::trace_data::{CallTree, RecordView};
use crate::tracer::{
    finalize_plan, record_of, stack_after_enter, stack_after_exit, stack_of, with_buffered,
    EmergencyPlan, ErrorView, FinalizePlan, OutputMode, RecordOutcome, SinkMode, SwitchPlan,
    SwitchPlanView, TraceError, TracerState, TracerView,
};
use vstd::prelude::*;

verus! {

/// Which hooks the host has to install once automatic saving stands.
#[derive(Debug, Clone, Copy, PartialEq, Eq, Structural)]
pub struct HookPlan {
    /// A hook that runs [`emergency_save`] when a thread panics, before the
    /// hook that was there.
    pub panic_hook: bool,
    /// A hook that runs [`emergency_save`] when the process exits.
    pub exit_hook: bool,
}

/// Initialises the tracer. It can be called any number of times.
pub fn init(state: &mut TracerState) -> (r: Result<(), TraceError>)
    requires
        old(state).wf(),
    ensures
        final(state).wf(),
        r is Ok,
        final(state)@ == (TracerView { tracing_initialized: true, ..old(state)@ }),
{
    state.ensure_tracing_initialized()
}

/// Marks the entry into a function: a new call, without children, on top
/// of the thread's stack. Other threads' stacks stay as they are.
pub fn enter(state: &mut TracerState, thread: u64, fn_name: &str, file: &str, line: u32)
    requires
        old(state).wf(),
    ensures
        final(state).wf(),
        final(state)@ == (TracerView {
            tracing_initialized: true,
            stacks: old(state)@.stacks.insert(
                thread,
                stack_after_enter(stack_of(old(state)@, thread), fn_name@, file@, line),
            ),
            ..old(state)@
        }),
{
    let _ = init(state);
    state.push_call(thread, fn_name, file, line);
}

/// Marks the entry into a function whose name is not a literal. It does
/// what [`enter`] does.
pub fn enter_dynamic(state: &mut TracerState, thread: u64, fn_name: &str, file: &str, line: u32)
    requires
        old(state).wf(),
    ensures
        final(state).wf(),
        final(state)@ == (TracerView {
            tracing_initialized: true,
            stacks: old(state)@.stacks.insert(
                thread,
                stack_after_enter(stack_of(old(state)@, thread), fn_name@, file@, line),
            ),
            ..old(state)@
        }),
{
    let _ = init(state);
    state.push_call(thread, fn_name, file, line);
}

/// Marks the exit from a function: the call on top of the thread's stack
/// is closed and stays, as it is, the last child of the call below it. A
/// thread with no open call is left alone.
pub fn exit(state: &mut TracerState, thread: u64)
    requires
        old(state).wf(),
    ensures
        final(state).wf(),
        final(state)@ == (if old(state)@.stacks.contains_key(thread) {
            TracerView {
                stacks: old(state)@.stacks.insert(
                    thread,
                    stack_after_exit(old(state)@.stacks[thread]),
                ),
                ..old(state)@
            }
        } else {
            old(state)@
        }),
{
    state.pop_call(thread);
}

/// Whether a record is the one made on a thread for its top call and two
/// encoded values: it holds them and the thread's label, under a timestamp
/// in UTC.
pub open spec fn is_record_of(
    record: RecordView,
    top: CallTree,
    thread: u64,
    inputs: Result<Seq<char>, Seq<char>>,
    output: Result<Seq<char>, Seq<char>>,
) -> bool {
    &&& record == record_of(top, thread, record.timestamp_utc, inputs, output)
    &&& is_utc_timestamp(record.timestamp_utc)
}

/// What a call to record does on a thread, with the two values as the
/// encoder gave them. A thread without an open call records nothing.
/// Else the record of the thread's top call goes to the open file of a
/// stream, as a chunk to append, where both values have a text; in every
/// other case it is added to the buffer.
pub open spec fn is_recorded(
    before: TracerView,
    after: TracerView,
    thread: u64,
    inputs: Result<Seq<char>, Seq<char>>,
    output: Result<Seq<char>, Seq<char>>,
    outcome: RecordOutcome,
) -> bool {
    let stack = stack_of(before, thread);
    match outcome {
        RecordOutcome::NoOpenCall => stack.len() == 0 && after == before,
        RecordOutcome::Buffered => {
            &&& stack.len() > 0
            &&& !(before.stream_open && inputs is Ok && output is Ok)
            &&& after.buffered.len() > 0
            &&& after == with_buffered(before, after.buffered.last())
            &&& is_record_of(after.buffered.last(), stack.last(), thread, inputs, output)
        },
        RecordOutcome::Append { chunk, record } => {
            &&& stack.len() > 0
            &&& before.stream_open && inputs is Ok && output is Ok
            &&& after == before
            &&& is_record_of(record@, stack.last(), thread, inputs, output)
            &&& chunk@ == stream_chunk(before.streamed.len(), record@)
        },
    }
}

/// Records the call on top of the thread's stack with its inputs and its
/// output, stamped with the present time. The values are encoded here; what
/// then happens to the record is what [`is_recorded`] says for the two
/// texts that came back: each value's pretty-printed text, or the
/// encoder's message where the encoder gives no text.
pub fn record_function_call(
    state: &mut TracerState,
    thread: u64,
    inputs: &serde_json::Value,
    output: &serde_json::Value,
) -> (outcome: RecordOutcome)
    requires
        old(state).wf(),
    ensures
        final(state).wf(),
        is_recorded(
            old(state)@,
            final(state)@,
            thread,
            encoded_text(*inputs),
            encoded_text(*output),
            outcome,
        ),
{
    let stamp = utc_now_rfc3339();
    let inputs_text = encode(inputs);
    let output_text = encode(output);
    let ghost rec = record_of(
        stack_of(old(state)@, thread).last(),
        thread,
        stamp@,
        inputs_text@,
        output_text@,
    );
    let outcome = state.record_at(thread, stamp, inputs_text, output_text);
    proof {
        if outcome is Buffered {
            assert(old(state)@.buffered.push(rec).last() == rec);
        }
    }
    outcome
}

/// Records a call that nothing encloses. It does what
/// [`record_function_call`] does.
pub fn record_top_level_call(
    state: &mut TracerState,
    thread: u64,
    inputs: &serde_json::Value,
    output: &serde_json::Value,
) -> (outcome: RecordOutcome)
    requires
        old(state).wf(),
    ensures
        final(state).wf(),
        is_recorded(
            old(state)@,
            final(state)@,
            thread,
            encoded_text(*inputs),
            encoded_text(*output),
            outcome,
        ),
{
    record_function_call(state, thread, inputs, output)
}

/// Starts the switch to a streamed file at the configuration's path: what
/// [`TracerState::set_output_mode`] says for a stream there. Once the file
/// is open, [`auto_save_enabled`] completes the switch.
pub fn enable_auto_save(state: &mut TracerState, config: &AutoSaveConfig) -> (plan: SwitchPlan)
    requires
        old(state).wf(),
    ensures
        final(state).wf(),
        plan@ == (SwitchPlanView {
            close_with: if old(state)@.stream_open {
                Some(stream_trailer())
            } else {
                None
            },
            open_path: Some(config@.path),
            header: stream_header(),
        }),
        final(state)@ == (TracerView { stream_open: false, ..old(state)@ }),
{
    let mode = OutputMode::Stream { path: config.path.clone() };
    state.set_output_mode(&mode)
}

/// Completes the switch that [`enable_auto_save`] started. Where the file
/// was opened, the stream at the configuration's path is the active sink,
/// empty, and the hooks that the configuration asks for are to be
/// installed. Where it was not, the failure is reported, nothing changes
/// and no hook is installed.
pub fn auto_save_enabled(
    state: &mut TracerState,
    config: &AutoSaveConfig,
    opened: Result<(), String>,
) -> (r: Result<HookPlan, TraceError>)
    requires
        old(state).wf(),
    ensures
        final(state).wf(),
        opened is Ok ==> r == Ok::<HookPlan, TraceError>(
            HookPlan {
                panic_hook: config@.enable_panic_hook,
                exit_hook: config@.enable_exit_hook,
            },
        ) && final(state)@ == crate::tracer::after_stream_opened(old(state)@, config@.path),
        opened matches Err(m) ==> final(state)@ == old(state)@ && (r matches Err(e) && e@
            == ErrorView::Io(m@)),
{
    match state.stream_opened(config.path.clone(), opened) {
        Ok(()) => Ok(
            HookPlan { panic_hook: config.enable_panic_hook, exit_hook: config.enable_exit_hook },
        ),
        Err(e) => Err(e),
    }
}

/// Decides what to save when the process goes down: what
/// [`TracerState::emergency_save`] says.
pub fn emergency_save(state: &mut TracerState) -> (r: Result<EmergencyPlan, TraceError>)
    requires
        old(state).wf(),
    ensures
        final(state).wf(),
        final(state)@ == (TracerView { stream_open: false, ..old(state)@ }),
        old(state)@.mode is Stream ==> (r matches Ok(plan) && (if old(state)@.stream_open {
            plan@ == (crate::tracer::EmergencyPlanView::CloseStream {
                close_with: stream_trailer(),
            })
        } else {
            plan is Nothing
        })),
        old(state)@.mode is Memory && old(state)@.buffered.len() == 0 ==> (r matches Ok(plan)
            && plan is Nothing),
        old(state)@.mode is Memory && old(state)@.buffered.len() > 0 ==> match crate::json::first_refusal(
            old(state)@.buffered,
            0,
        ) {
            None => r matches Ok(plan) && plan@ == (crate::tracer::EmergencyPlanView::WriteFile {
                path: crate::tracer::emergency_path(),
                contents: crate::json::records_json(old(state)@.buffered),
            }),
            Some(m) => r matches Err(e) && e@ == ErrorView::Serialization(m),
        },
{
    state.emergency_save()
}

/// Decides how the trace is brought to `output_path`: what
/// [`TracerState::finalize_to_path`] says. The state hears of the outcome
/// through [`TracerState::finalize_done`].
pub fn finalize(state: &mut TracerState, output_path: &str) -> (plan: FinalizePlan)
    requires
        old(state).wf(),
    ensures
        final(state).wf(),
        plan@ == finalize_plan(old(state)@, output_path@, true) || plan@ == finalize_plan(
            old(state)@,
            output_path@,
            false,
        ),
        old(state)@.mode == (SinkMode::Stream { path: output_path@ }) ==> plan@ == finalize_plan(
            old(state)@,
            output_path@,
            true,
        ),
        final(state)@ == (TracerView { stream_open: false, ..old(state)@ }),
{
    state.finalize_to_path(output_path)
}

/// The number of buffered records and the number of threads that have
/// entered a call since the state was last cleared.
pub fn get_stats(state: &TracerState) -> (counts: (usize, usize))
    ensures
        counts.0 == state@.buffered.len(),
        counts.1 == state@.stacks.dom().len(),
{
    state.stats()
}

/// Forgets every open call and every record and goes back to the buffer as
/// sink. Returns what is to be appended to a streamed file that was open,
/// before it is flushed and closed.
pub fn clear(state: &mut TracerState) -> (close_with: Option<String>)
    requires
        old(state).wf(),
    ensures
        final(state).wf(),
        crate::text::text_view(close_with) == (if old(state)@.stream_open {
            Some(crate::tracer::clear_trailer())
        } else {
            None
        }),
        final(state)@ == (TracerView {
            stacks: Map::empty(),
            buffered: Seq::empty(),
            mode: SinkMode::Memory,
            stream_open: false,
            streamed: Seq::empty(),
            ..old(state)@
        }),
{
    state.clear()
}

/// Starts automatic saving at the default path, which is given.
/// `directories_ready` says whether the directories above that path
/// stand; where they do not, the trace file goes to the working directory
/// under its name alone. Returns the configuration chosen, which is what
/// [`AutoSaveConfig::with_directory_creation`] says, and the plan of
/// [`enable_auto_save`] for it.
pub fn enable_auto_save_default(
    state: &mut TracerState,
    default_path: String,
    directories_ready: bool,
) -> (r: (AutoSaveConfig, SwitchPlan))
    requires
        old(state).wf(),
    ensures
        final(state).wf(),
        r.0@ == (AutoSaveView {
            path: if directories_ready {
                default_path@
            } else {
                trace_file_name()
            },
            enable_panic_hook: true,
            enable_exit_hook: true,
        }),
        r.1@ == (SwitchPlanView {
            close_with: if old(state)@.stream_open {
                Some(stream_trailer())
            } else {
                None
            },
            open_path: Some(r.0@.path),
            header: stream_header(),
        }),
        final(state)@ == (TracerView { stream_open: false, ..old(state)@ }),
{
    let config = AutoSaveConfig::with_directory_creation(default_path, directories_ready);
    let plan = enable_auto_save(state, &config);
    (config, plan)
}

/// Starts automatic saving at a given path. `directories` says how the
/// creation of the directories above the path went: a failure is reported
/// and changes nothing. Else returns the configuration, with both hooks,
/// and the plan of [`enable_auto_save`] for it.
pub fn enable_auto_save_with_path(
    state: &mut TracerState,
    output_path: &str,
    directories: Result<(), String>,
) -> (r: Result<(AutoSaveConfig, SwitchPlan), TraceError>)
    requires
        old(state).wf(),
    ensures
        final(state).wf(),
        directories matches Err(m) ==> final(state)@ == old(state)@ && (r matches Err(e) && e@
            == ErrorView::Io(m@)),
        directories is Ok ==> (r matches Ok(pair) && pair.0@ == (AutoSaveView {
            path: output_path@,
            enable_panic_hook: true,
            enable_exit_hook: true,
        }) && pair.1@ == (SwitchPlanView {
            close_with: if old(state)@.stream_open {
                Some(stream_trailer())
            } else {
                None
            },
            open_path: Some(output_path@),
            header: stream_header(),
        })) && final(state)@ == (TracerView { stream_open: false, ..old(state)@ }),
{
    match directories {
        Err(m) => Err(TraceError::Io(m)),
        Ok(()) => {
            let config = AutoSaveConfig::new(output_path.to_owned());
            let plan = enable_auto_save(state, &config);
            Ok((config, plan))
        },
    }
}

/// Whether automatic saving is still to be set up, with its defaults:
/// `true` the first time this is asked of a state, `false` ever after.
pub fn ensure_auto_save_initialized(state: &mut TracerState) -> (first: bool)
    requires
        old(state).wf(),
    ensures
        final(state).wf(),
        first == !old(state)@.auto_save_requested,
        final(state)@ == (TracerView { auto_save_requested: true, ..old(state)@ }),
{
    state.request_auto_save()
}

} // verus!
