//! What sequences of entries and exits do to a thread's stack.

use crate::trace_data::CallTree;
use crate::tracer::{
    leaf_tree, record_of, stack_after_enter, stack_after_exit, stack_of, with_child, TracerView,
};
use vstd::prelude::*;

verus! {

/// One step of a thread through instrumented code.
pub ghost enum CallEvent {
    Enter { name: Seq<char>, file: Seq<char>, line: u32 },
    Exit,
}

/// A stack after one event.
pub open spec fn stack_step(stack: Seq<CallTree>, event: CallEvent) -> Seq<CallTree> {
    match event {
        CallEvent::Enter { name, file, line } => stack_after_enter(stack, name, file, line),
        CallEvent::Exit => stack_after_exit(stack),
    }
}

/// A stack after a sequence of events, taken in order.
pub open spec fn stack_after(stack: Seq<CallTree>, events: Seq<CallEvent>) -> Seq<CallTree>
    decreases events.len(),
{
    if events.len() == 0 {
        stack
    } else {
        stack_step(stack_after(stack, events.drop_last()), events.last())
    }
}

/// The events of one completed call: its entry, the events of the calls
/// made inside it, its exit.
pub open spec fn events_of_call(t: CallTree) -> Seq<CallEvent>
    decreases t, t.children.len() + 1,
{
    seq![CallEvent::Enter { name: t.name, file: t.file, line: t.line }] + events_of_children(
        t,
        t.children.len(),
    ) + seq![CallEvent::Exit]
}

/// The events of the first `count` calls made inside a call.
pub open spec fn events_of_children(t: CallTree, count: nat) -> Seq<CallEvent>
    decreases t, count,
{
    if count == 0 || count > t.children.len() {
        Seq::empty()
    } else {
        events_of_children(t, (count - 1) as nat) + events_of_call(t.children[count - 1])
    }
}

/// The events of a row of completed calls, one after the other. Every
/// well-nested sequence of entries and exits is the events of one such row.
pub open spec fn events_of_calls(calls: Seq<CallTree>) -> Seq<CallEvent>
    decreases calls.len(),
{
    if calls.len() == 0 {
        Seq::empty()
    } else {
        events_of_calls(calls.drop_last()) + events_of_call(calls.last())
    }
}

/// A call with more children behind those it has.
pub open spec fn with_children(parent: CallTree, more: Seq<CallTree>) -> CallTree {
    CallTree { children: parent.children + more, ..parent }
}

/// Events taken in two parts give what they give taken as one.
pub proof fn lemma_stack_after_concat(
    stack: Seq<CallTree>,
    first: Seq<CallEvent>,
    second: Seq<CallEvent>,
)
    ensures
        stack_after(stack, first + second) == stack_after(stack_after(stack, first), second),
    decreases second.len(),
{
    if second.len() == 0 {
        assert(first + second =~= first);
    } else {
        lemma_stack_after_concat(stack, first, second.drop_last());
        assert((first + second).drop_last() =~= first + second.drop_last());
        assert((first + second).last() == second.last());
    }
}

/// One event gives what its step gives.
proof fn lemma_stack_after_one(stack: Seq<CallTree>, event: CallEvent)
    ensures
        stack_after(stack, seq![event]) == stack_step(stack, event),
{
    let events = seq![event];
    assert(events.drop_last() =~= Seq::<CallEvent>::empty());
    assert(stack_after(stack, events.drop_last()) == stack);
}

/// The part of a call that stands on the stack once its first `count`
/// children are done.
spec fn partial_call(t: CallTree, count: nat) -> CallTree {
    CallTree { children: t.children.take(count as int), ..t }
}

/// While a call is open, the calls completed inside it gather as its
/// children, in order, and nothing below it changes.
proof fn lemma_children_gather(below: Seq<CallTree>, t: CallTree, count: nat)
    requires
        count <= t.children.len(),
    ensures
        stack_after(below.push(leaf_tree(t.name, t.file, t.line)), events_of_children(t, count))
            == below.push(partial_call(t, count)),
    decreases t, count,
{
    let start = below.push(leaf_tree(t.name, t.file, t.line));
    if count == 0 {
        assert(partial_call(t, 0).children =~= Seq::<CallTree>::empty());
    } else {
        let before = (count - 1) as nat;
        let child = t.children[count - 1];
        lemma_children_gather(below, t, before);
        lemma_stack_after_concat(start, events_of_children(t, before), events_of_call(child));
        let mid = below.push(partial_call(t, before));
        lemma_call_becomes_child(mid, child);
        assert(mid.drop_last() =~= below);
        assert(with_child(partial_call(t, before), child).children =~= partial_call(
            t,
            count,
        ).children);
    }
}

/// A completed call leaves the stack as deep as it found it, and stands
/// as the last child of the call that was on top.
pub proof fn lemma_call_becomes_child(stack: Seq<CallTree>, t: CallTree)
    requires
        stack.len() > 0,
    ensures
        stack_after(stack, events_of_call(t)) == stack.drop_last().push(
            with_child(stack.last(), t),
        ),
    decreases t, t.children.len() + 1,
{
    let enter = CallEvent::Enter { name: t.name, file: t.file, line: t.line };
    let inner = events_of_children(t, t.children.len());
    lemma_stack_after_concat(stack, seq![enter] + inner, seq![CallEvent::Exit]);
    lemma_stack_after_concat(stack, seq![enter], inner);
    lemma_stack_after_one(stack, enter);
    lemma_children_gather(stack, t, t.children.len());
    assert(t.children.take(t.children.len() as int) =~= t.children);
    assert(partial_call(t, t.children.len()) == t);
    let full = stack.push(t);
    lemma_stack_after_one(full, CallEvent::Exit);
    assert(full.take(full.len() - 2) =~= stack.drop_last());
}

/// A completed call on an empty stack leaves the stack empty.
pub proof fn lemma_outermost_call_leaves_stack_empty(t: CallTree)
    ensures
        stack_after(Seq::empty(), events_of_call(t)) == Seq::<CallTree>::empty(),
{
    let stack = Seq::<CallTree>::empty();
    let enter = CallEvent::Enter { name: t.name, file: t.file, line: t.line };
    let inner = events_of_children(t, t.children.len());
    lemma_stack_after_concat(stack, seq![enter] + inner, seq![CallEvent::Exit]);
    lemma_stack_after_concat(stack, seq![enter], inner);
    lemma_stack_after_one(stack, enter);
    lemma_children_gather(stack, t, t.children.len());
    lemma_stack_after_one(stack.push(partial_call(t, t.children.len())), CallEvent::Exit);
}

/// After any well-nested sequence of entries and exits, with every call
/// that was entered left again, a stack that was empty is empty.
pub proof fn lemma_well_nested_calls_leave_stack_empty(calls: Seq<CallTree>)
    ensures
        stack_after(Seq::empty(), events_of_calls(calls)) == Seq::<CallTree>::empty(),
    decreases calls.len(),
{
    if calls.len() > 0 {
        lemma_well_nested_calls_leave_stack_empty(calls.drop_last());
        lemma_stack_after_concat(
            Seq::empty(),
            events_of_calls(calls.drop_last()),
            events_of_call(calls.last()),
        );
        lemma_outermost_call_leaves_stack_empty(calls.last());
    }
}

/// The calls that are entered and left while a call is on top of the stack
/// become that call's children, in the order in which they were made, each
/// with all that was completed inside it; the stack below stays as it is.
/// So a record taken then has for its root the call with exactly these
/// children behind those it had.
pub proof fn lemma_nested_calls_become_children(stack: Seq<CallTree>, calls: Seq<CallTree>)
    requires
        stack.len() > 0,
    ensures
        stack_after(stack, events_of_calls(calls)) == stack.drop_last().push(
            with_children(stack.last(), calls),
        ),
    decreases calls.len(),
{
    if calls.len() == 0 {
        assert(with_children(stack.last(), calls).children =~= stack.last().children);
        assert(stack.drop_last().push(stack.last()) =~= stack);
    } else {
        let earlier = calls.drop_last();
        lemma_nested_calls_become_children(stack, earlier);
        lemma_stack_after_concat(stack, events_of_calls(earlier), events_of_call(calls.last()));
        let mid = stack.drop_last().push(with_children(stack.last(), earlier));
        lemma_call_becomes_child(mid, calls.last());
        assert(mid.drop_last() =~= stack.drop_last());
        assert(with_child(with_children(stack.last(), earlier), calls.last()).children
            =~= with_children(stack.last(), calls).children);
    }
}

/// The depth of a stack after a sequence of events never depends on what
/// the calls are: an entry adds one, an exit takes one from a stack that
/// is not empty.
pub open spec fn depth_after(depth: nat, events: Seq<CallEvent>) -> nat
    decreases events.len(),
{
    if events.len() == 0 {
        depth
    } else {
        let before = depth_after(depth, events.drop_last());
        match events.last() {
            CallEvent::Enter { .. } => before + 1,
            CallEvent::Exit => if before == 0 {
                0
            } else {
                (before - 1) as nat
            },
        }
    }
}

/// Each entry makes a stack one deeper, each exit one less deep, and an
/// exit on an empty stack does nothing.
pub proof fn lemma_depth(stack: Seq<CallTree>, events: Seq<CallEvent>)
    ensures
        stack_after(stack, events).len() == depth_after(stack.len(), events),
    decreases events.len(),
{
    if events.len() > 0 {
        lemma_depth(stack, events.drop_last());
    }
}

/// An open call as it stands in the tree while calls inside it are open
/// too: the calls completed inside it and, behind them, the open call
/// above it on the stack, which holds the next in the same way.
pub open spec fn open_call(stack: Seq<CallTree>, index: int) -> CallTree
    recommends
        0 <= index < stack.len(),
    decreases stack.len() - index,
{
    if index < 0 || index >= stack.len() - 1 {
        stack[index]
    } else {
        with_child(stack[index], open_call(stack, index + 1))
    }
}

/// A call that is entered stands at once as the last child of the call
/// that was on top, and is the new top.
pub proof fn lemma_enter_attaches_to_top(
    stack: Seq<CallTree>,
    name: Seq<char>,
    file: Seq<char>,
    line: u32,
)
    requires
        stack.len() > 0,
    ensures
        open_call(stack_after_enter(stack, name, file, line), stack.len() - 1) == with_child(
            stack.last(),
            leaf_tree(name, file, line),
        ),
        stack_after_enter(stack, name, file, line).last() == leaf_tree(name, file, line),
{
    let after = stack_after_enter(stack, name, file, line);
    assert(open_call(after, stack.len() as int) == after[stack.len() as int]);
}

/// Leaving a call changes nothing of it: the call below holds it as it
/// stood, children and all.
pub proof fn lemma_exit_freezes_the_call(stack: Seq<CallTree>)
    requires
        stack.len() >= 2,
    ensures
        stack_after_exit(stack).len() == stack.len() - 1,
        stack_after_exit(stack).last() == open_call(stack, stack.len() - 2),
        stack_after_exit(stack).last().children.last() == stack.last(),
{
    assert(open_call(stack, stack.len() - 1) == stack.last());
}

/// What lies below the top of a stack is the same before and after the
/// top is entered or left.
pub proof fn lemma_stack_below_is_kept(
    stack: Seq<CallTree>,
    name: Seq<char>,
    file: Seq<char>,
    line: u32,
)
    ensures
        stack_after_enter(stack, name, file, line).drop_last() == stack,
        stack.len() >= 2 ==> stack_after_exit(stack).drop_last() == stack.take(stack.len() - 2),
        stack_after_exit(stack_after_enter(stack, name, file, line)).len() == stack.len(),
{
    assert(stack_after_enter(stack, name, file, line).drop_last() =~= stack);
    if stack.len() >= 2 {
        assert(stack_after_exit(stack).drop_last() =~= stack.take(stack.len() - 2));
    }
}

/// A record taken behind a well-nested run of calls has for its root the
/// call that was on top before the run, with exactly the calls of the run
/// behind the children it had, in the order in which they were made.
pub proof fn lemma_record_holds_nested_calls(
    stack: Seq<CallTree>,
    calls: Seq<CallTree>,
    thread: u64,
    timestamp: Seq<char>,
    inputs: Result<Seq<char>, Seq<char>>,
    output: Result<Seq<char>, Seq<char>>,
)
    requires
        stack.len() > 0,
    ensures
        record_of(
            stack_after(stack, events_of_calls(calls)).last(),
            thread,
            timestamp,
            inputs,
            output,
        ).root_node == with_children(stack.last(), calls),
        with_children(stack.last(), calls).children.len() == stack.last().children.len()
            + calls.len(),
        forall|i: int|
            0 <= i < calls.len() ==> with_children(stack.last(), calls).children[stack.last().children.len()
                + i] == calls[i],
{
    lemma_nested_calls_become_children(stack, calls);
}

/// What one thread enters and leaves is nothing to another: a change to
/// the stack of a thread leaves the stack of every other thread as it
/// was.
pub proof fn lemma_threads_are_isolated(
    v: TracerView,
    thread: u64,
    other: u64,
    stack: Seq<CallTree>,
)
    requires
        thread != other,
    ensures
        stack_of(TracerView { stacks: v.stacks.insert(thread, stack), ..v }, other) == stack_of(
            v,
            other,
        ),
        stack_of(TracerView { stacks: v.stacks.insert(thread, stack), ..v }, thread) == stack,
{
}

} // verus!
