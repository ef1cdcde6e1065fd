//! What holds of a vCPU's thread as a whole.
use vstd::prelude::*;

use crate::instruction::decoded;
use crate::string_io::{Register, StringIoAction, StringIoEmulation};
use crate::vcpu_loop::{
    LoopAction, LoopEvent, Phase, Suspend, TaskEvent, VcpuLoop, VmEntry, VmExit, VmExitKind,
};

verus! {

impl<E, K, W> VcpuLoop<E, K, W> {
    /// The state after a sequence of events.
    pub open spec fn after<X>(self, events: Seq<LoopEvent<E, K, W, X>>) -> Self
        decreases events.len(),
    {
        if events.len() == 0 {
            self
        } else {
            self.after(events.drop_last()).next(events.last()).0
        }
    }

    /// Whether each of the events answers the action before it.
    pub open spec fn accepts_all<X>(self, events: Seq<LoopEvent<E, K, W, X>>) -> bool {
        forall|i: int|
            0 <= i < events.len() ==> #[trigger] self.after(events.take(i)).accepts(events[i])
    }

    /// The actions that the events led to.
    pub open spec fn actions<X>(self, events: Seq<LoopEvent<E, K, W, X>>) -> Seq<
        LoopAction<E, K, W, X>,
    > {
        Seq::new(events.len(), |i: int| self.after(events.take(i)).next(events[i]).1)
    }

    /// Whether the thread is between dealing with an exit and entering the
    /// guest again.
    pub open spec fn between_exits(self) -> bool {
        self.phase is Polling || self.phase is Holding || self.phase is Released
            || self.phase is Stopped
    }
}

/// Whether the last exit among the events was consistent; `before` if there is
/// none.
pub open spec fn last_consistent<E, K, W, X>(
    events: Seq<LoopEvent<E, K, W, X>>,
    before: bool,
) -> bool
    decreases events.len(),
{
    if events.len() == 0 {
        before
    } else {
        match events.last() {
            LoopEvent::Exited(exit) => exit.consistent,
            _ => last_consistent(events.drop_last(), before),
        }
    }
}

/// The last generation among the events; zero if there is none.
pub open spec fn last_generation<E, K, W, X>(events: Seq<LoopEvent<E, K, W, X>>) -> usize
    decreases events.len(),
{
    if events.len() == 0 {
        0
    } else {
        match events.last() {
            LoopEvent::Generation(generation) => generation,
            _ => last_generation(events.drop_last()),
        }
    }
}

/// Whether an event is of the kind that answers an action.
pub open spec fn answers<E, K, W, X>(
    action: LoopAction<E, K, W, X>,
    event: LoopEvent<E, K, W, X>,
) -> bool {
    match action {
        LoopAction::PollTask => event is Pending,
        LoopAction::LoadGeneration => event is Generation,
        LoopAction::Run { .. } => event is RunFailed || event is Exited,
        LoopAction::ProcessExit => event is Processed,
        LoopAction::StringIo(_) => event is Emulated,
        LoopAction::Stop => false,
        _ => event is Done,
    }
}

/// Whether an event is one that nothing can be done with: a `Bogus` exit was
/// not handled, or an emulated instruction has no next one.
pub open spec fn is_dead_end<E, K, W, X>(
    state: VcpuLoop<E, K, W>,
    event: LoopEvent<E, K, W, X>,
) -> bool {
    match (state.phase, event) {
        (Phase::Processing(exit), LoopEvent::Processed(None)) => exit.kind is Bogus,
        (Phase::Emulating { emulation, .. }, LoopEvent::Emulated(outcome)) => !emulation.next(
            outcome,
        ).rip_fits(),
        _ => false,
    }
}

proof fn lemma_accepts_prefix<E, K, W, X>(
    start: VcpuLoop<E, K, W>,
    events: Seq<LoopEvent<E, K, W, X>>,
)
    requires
        events.len() > 0,
        start.accepts_all(events),
    ensures
        start.accepts_all(events.drop_last()),
        start.after(events.drop_last()).accepts(events.last()),
{
    let before = events.drop_last();
    assert forall|i: int| 0 <= i < before.len() implies #[trigger] start.after(
        before.take(i),
    ).accepts(before[i]) by {
        assert(before.take(i) == events.take(i));
        assert(start.after(events.take(i)).accepts(events[i]));
    }
    let last = events.len() - 1;
    assert(events.take(last) == before);
    assert(start.after(events.take(last)).accepts(events[last]));
}

/// What is accepted first is what answers the first action, a look for requests.
pub proof fn law_first_answer<E, K, W, X>(
    vcpu_id: i32,
    consistent: bool,
    answer: LoopEvent<E, K, W, X>,
)
    ensures
        VcpuLoop::<E, K, W>::start(vcpu_id, consistent).accepts(answer) <==> answers(
            LoopAction::PollTask,
            answer,
        ),
{
}

/// An action is followed by its answers: whatever answers it is accepted, but
/// for the two dead ends, and nothing else is. So a thread never gets stuck and
/// never confuses what came of which action.
pub proof fn law_answers_are_accepted<E, K, W, X>(
    state: VcpuLoop<E, K, W>,
    event: LoopEvent<E, K, W, X>,
    answer: LoopEvent<E, K, W, X>,
)
    requires
        state.accepts(event),
    ensures
        ({
            let (after, action) = state.next(event);
            after.accepts(answer) <==> answers(action, answer) && !is_dead_end(after, answer)
        }),
{
}

/// What a thread knows of the world is what it saw last: whether the last exit
/// was consistent, and which generation the VM was in at the last release.
pub proof fn law_memory<E, K, W, X>(
    vcpu_id: i32,
    consistent: bool,
    events: Seq<LoopEvent<E, K, W, X>>,
)
    requires
        VcpuLoop::<E, K, W>::start(vcpu_id, consistent).accepts_all(events),
    ensures
        ({
            let now = VcpuLoop::<E, K, W>::start(vcpu_id, consistent).after(events);
            &&& now.vcpu_id == vcpu_id
            &&& now.consistent == last_consistent(events, consistent)
            &&& now.local_gen == last_generation(events)
        }),
    decreases events.len(),
{
    if events.len() > 0 {
        let start = VcpuLoop::<E, K, W>::start(vcpu_id, consistent);
        lemma_accepts_prefix(start, events);
        law_memory(vcpu_id, consistent, events.drop_last());
    }
}

/// A thread is held on request only when the kernel's state of its vCPU is
/// consistent, that is, when its last exit was.
pub proof fn law_held_only_when_consistent<E, K, W, X>(
    vcpu_id: i32,
    consistent: bool,
    events: Seq<LoopEvent<E, K, W, X>>,
)
    requires
        events.len() > 0,
        VcpuLoop::<E, K, W>::start(vcpu_id, consistent).accepts_all(events),
        VcpuLoop::<E, K, W>::start(vcpu_id, consistent).actions(events).last() is Hold,
    ensures
        last_consistent(events, consistent),
{
    let start = VcpuLoop::<E, K, W>::start(vcpu_id, consistent);
    lemma_accepts_prefix(start, events);
    law_memory(vcpu_id, consistent, events.drop_last());
    assert(events.take(events.len() - 1) == events.drop_last());
}

/// The guest is entered only directly after a look for requests. It is made to
/// exit at the first consistent point exactly when a hold was requested, and
/// then only where the last exit was not consistent.
pub proof fn law_entering<E, K, W, X>(state: VcpuLoop<E, K, W>, event: LoopEvent<E, K, W, X>)
    requires
        state.accepts(event),
    ensures
        state.next(event).1 matches LoopAction::Run { entry, force_exit_when_consistent: force }
            ==> {
            &&& event is Pending
            &&& entry == state.entry
            &&& force == (event == LoopEvent::<E, K, W, X>::Pending(Some(TaskEvent::Hold)))
            &&& force ==> !state.consistent
        },
{
}

/// An entry other than the plain one is used once: from the moment the guest is
/// entered with it until the exit after that has been dealt with, it is gone.
pub proof fn law_entry_used_once<E, K, W, X>(
    vcpu_id: i32,
    consistent: bool,
    events: Seq<LoopEvent<E, K, W, X>>,
)
    requires
        VcpuLoop::<E, K, W>::start(vcpu_id, consistent).accepts_all(events),
    ensures
        ({
            let now = VcpuLoop::<E, K, W>::start(vcpu_id, consistent).after(events);
            now.between_exits() || now.entry is Run
        }),
    decreases events.len(),
{
    if events.len() > 0 {
        let start = VcpuLoop::<E, K, W>::start(vcpu_id, consistent);
        lemma_accepts_prefix(start, events);
        law_entry_used_once(vcpu_id, consistent, events.drop_last());
    }
}

/// An entry other than the plain one comes from dealing with an exit: it is
/// what handling the exit the ordinary way called for, or it completes a port
/// or device memory access as one that nobody emulates.
pub proof fn law_entry_origin<E, K, W, X>(
    state: VcpuLoop<E, K, W>,
    event: LoopEvent<E, K, W, X>,
)
    requires
        state.accepts(event),
    ensures
        ({
            let entry = state.next(event).0.entry;
            entry is Fulfill && entry != state.entry ==> match (state.phase, event) {
                (Phase::Processing(_), LoopEvent::Processed(Some(wanted))) => entry == wanted,
                (Phase::Processing(exit), LoopEvent::Processed(None)) => match exit.kind {
                    VmExitKind::Inout { failed } => entry == VmEntry::Fulfill(failed),
                    VmExitKind::Mmio { failed } => entry == VmEntry::Fulfill(failed),
                    _ => false,
                },
                _ => false,
            }
        }),
{
}

/// A thread comes to an end exactly when it is asked to, and does nothing after.
pub proof fn law_stopping<E, K, W, X>(
    state: VcpuLoop<E, K, W>,
    event: LoopEvent<E, K, W, X>,
    later: LoopEvent<E, K, W, X>,
)
    requires
        state.accepts(event),
    ensures
        state.next(event).1 is Stop <==> event == LoopEvent::<E, K, W, X>::Pending(
            Some(TaskEvent::Exit),
        ),
        state.next(event).1 is Stop ==> !state.next(event).0.accepts(later),
{
}

proof fn lemma_two<E, K, W, X>(
    from: VcpuLoop<E, K, W>,
    first: LoopEvent<E, K, W, X>,
    second: LoopEvent<E, K, W, X>,
)
    ensures
        ({
            let events = seq![first, second];
            let one = from.next(first);
            let two = one.0.next(second);
            &&& from.after(events) == two.0
            &&& from.actions(events) == seq![one.1, two.1]
        }),
{
    let events = seq![first, second];
    assert(events.drop_last() == seq![first]);
    assert(seq![first].drop_last() == Seq::<LoopEvent<E, K, W, X>>::empty());
    assert(events.take(0) == Seq::<LoopEvent<E, K, W, X>>::empty());
    assert(events.take(1) == seq![first]);
    assert(from.after(Seq::<LoopEvent<E, K, W, X>>::empty()) == from);
    assert(from.after(seq![first]) == from.next(first).0);
    assert(from.actions(events) =~= seq![from.next(first).1, from.next(first).0.next(second).1]);
}

proof fn lemma_three<E, K, W, X>(
    from: VcpuLoop<E, K, W>,
    first: LoopEvent<E, K, W, X>,
    second: LoopEvent<E, K, W, X>,
    third: LoopEvent<E, K, W, X>,
)
    ensures
        ({
            let events = seq![first, second, third];
            let one = from.next(first);
            let two = one.0.next(second);
            let three = two.0.next(third);
            &&& from.after(events) == three.0
            &&& from.actions(events) == seq![one.1, two.1, three.1]
        }),
{
    let events = seq![first, second, third];
    let two = seq![first, second];
    lemma_two(from, first, second);
    assert(events.drop_last() == two);
    assert(events.take(2) == two);
    assert(events.take(1) == two.take(1));
    assert(events.take(0) == two.take(0));
    assert(from.actions(two)[0] == from.actions(events)[0]);
    assert(from.actions(two)[1] == from.actions(events)[1]);
    assert(from.actions(events) =~= seq![
        from.next(first).1,
        from.next(first).0.next(second).1,
        from.after(two).next(third).1,
    ]);
}

/// A pause on request: the thread is held; once released, it looks whether the
/// VM was reset meanwhile; and it looks for requests again before it enters the
/// guest. If the VM was reset, what the exit before the pause asked for is
/// void. If not, the pause has changed nothing.
pub proof fn law_pause<E, K, W, X>(state: VcpuLoop<E, K, W>, generation: usize)
    requires
        state.phase is Polling,
        state.consistent,
    ensures
        ({
            let events: Seq<LoopEvent<E, K, W, X>> = seq![
                LoopEvent::Pending(Some(TaskEvent::Hold)),
                LoopEvent::Done,
                LoopEvent::Generation(generation),
            ];
            &&& state.accepts(events[0])
            &&& state.actions(events) == seq![
                LoopAction::<E, K, W, X>::Hold,
                LoopAction::LoadGeneration,
                LoopAction::PollTask,
            ]
            &&& generation == state.local_gen ==> state.after(events) == state
            &&& generation != state.local_gen ==> state.after(events) == VcpuLoop {
                entry: VmEntry::Run,
                local_gen: generation,
                ..state
            }
        }),
{
    lemma_three::<E, K, W, X>(
        state,
        LoopEvent::Pending(Some(TaskEvent::Hold)),
        LoopEvent::Done,
        LoopEvent::Generation(generation),
    );
}

/// A vCPU that could not be run: its error is told of, and it is run again as
/// if it had never been asked to complete anything.
pub proof fn law_run_failure<E, K, W, X>(state: VcpuLoop<E, K, W>, error: X)
    requires
        state.phase is Running,
    ensures
        ({
            let events: Seq<LoopEvent<E, K, W, X>> = seq![
                LoopEvent::RunFailed(error),
                LoopEvent::Done,
            ];
            &&& state.actions(events) == seq![
                LoopAction::<E, K, W, X>::IoError { vcpu_id: state.vcpu_id, error },
                LoopAction::PollTask,
            ]
            &&& state.after(events) == VcpuLoop {
                entry: VmEntry::Run,
                phase: Phase::Polling,
                ..state
            }
        }),
{
    lemma_two::<E, K, W, X>(state, LoopEvent::RunFailed(error), LoopEvent::Done);
}

/// A suspend that the ordinary way left unhandled holds the thread before it
/// looks for requests or enters the guest again, and is told of first. A triple
/// fault is told of by the vCPU that it is on, or, where it is on none in
/// particular, by every vCPU that sees it.
#[verifier::rlimit(40)]
pub proof fn law_suspend<E, K, W, X>(state: VcpuLoop<E, K, W>, exit: VmExit<E, K, W>)
    requires
        state.phase == Phase::<E, K, W>::Processing(exit),
        exit.kind is Suspended,
    ensures
        ({
            let detail = exit.kind->Suspended_0;
            let when = detail.when;
            let vcpu_id = state.vcpu_id;
            let told: Seq<LoopAction<E, K, W, X>> = match detail.kind {
                Suspend::Halt => seq![LoopAction::SuspendHalt { when }],
                Suspend::Reset => seq![LoopAction::SuspendReset { when }],
                Suspend::TripleFault(id) => if id == -1 || id == vcpu_id {
                    seq![LoopAction::SuspendTripleFault { vcpu_id, when }]
                } else {
                    seq![]
                },
            };
            let events: Seq<LoopEvent<E, K, W, X>> = if told.len() == 0 {
                seq![LoopEvent::Processed(None), LoopEvent::Done]
            } else {
                seq![LoopEvent::Processed(None), LoopEvent::Done, LoopEvent::Done]
            };
            &&& state.actions(events) == told + seq![
                LoopAction::<E, K, W, X>::ForceHold,
                LoopAction::PollTask,
            ]
            &&& state.after(events) == VcpuLoop {
                entry: VmEntry::Run,
                phase: Phase::Polling,
                ..state
            }
        }),
{
    lemma_two::<E, K, W, X>(state, LoopEvent::Processed(None), LoopEvent::Done);
    lemma_three::<E, K, W, X>(
        state,
        LoopEvent::Processed(None),
        LoopEvent::Done,
        LoopEvent::Done,
    );
    let done: Seq<LoopEvent<E, K, W, X>> = seq![LoopEvent::Processed(None), LoopEvent::Done];
    let more: Seq<LoopEvent<E, K, W, X>> = seq![
        LoopEvent::Processed(None),
        LoopEvent::Done,
        LoopEvent::Done,
    ];
    let rest: Seq<LoopAction<E, K, W, X>> = seq![LoopAction::ForceHold, LoopAction::PollTask];
    let first = state.next(LoopEvent::<E, K, W, X>::Processed(None)).1;
    if first is ForceHold {
        assert(state.actions(done) =~= Seq::<LoopAction<E, K, W, X>>::empty() + rest);
    } else {
        assert(state.actions(more) =~= seq![first] + rest);
    }
}

/// A model-specific register that nobody emulates reads as zero: RAX and RDX
/// are cleared, and the guest runs on.
pub proof fn law_unhandled_rdmsr<E, K, W, X>(state: VcpuLoop<E, K, W>, exit: VmExit<E, K, W>)
    requires
        state.phase == Phase::<E, K, W>::Processing(exit),
        exit.kind is Rdmsr,
    ensures
        ({
            let events: Seq<LoopEvent<E, K, W, X>> = seq![
                LoopEvent::Processed(None),
                LoopEvent::Done,
                LoopEvent::Done,
            ];
            &&& state.actions(events) == seq![
                LoopAction::<E, K, W, X>::SetReg(Register::Rax, 0),
                LoopAction::SetReg(Register::Rdx, 0),
                LoopAction::PollTask,
            ]
            &&& state.after(events) == VcpuLoop {
                entry: VmEntry::Run,
                phase: Phase::Polling,
                ..state
            }
        }),
{
    lemma_three::<E, K, W, X>(
        state,
        LoopEvent::Processed(None),
        LoopEvent::Done,
        LoopEvent::Done,
    );
}

/// Whether an exit that the ordinary way left unhandled is told of as such at
/// once.
pub open spec fn is_told_of<E, W>(kind: VmExitKind<E, W>) -> bool {
    match kind {
        VmExitKind::InstEmul(bytes) => decoded(bytes@) is None,
        VmExitKind::Unknown => true,
        VmExitKind::Debug => true,
        VmExitKind::VmxError => true,
        VmExitKind::SvmError => true,
        VmExitKind::Paging => true,
        _ => false,
    }
}

/// An exit is told of as unhandled in two cases, and in no other: it is of a
/// kind that has nothing to fall back on, or its instruction was tried and
/// could not be emulated. What is told is the number of this vCPU and what that
/// exit is to be reported with.
pub proof fn law_unhandled_exit<E, K, W, X>(
    state: VcpuLoop<E, K, W>,
    event: LoopEvent<E, K, W, X>,
)
    requires
        state.accepts(event),
    ensures
        state.next(event).1 is UnhandledExit <==> match (state.phase, event) {
            (Phase::Processing(exit), LoopEvent::Processed(None)) => is_told_of(exit.kind),
            (Phase::Emulating { emulation, .. }, LoopEvent::Emulated(outcome)) => emulation.next(
                outcome,
            ).wants() == (StringIoAction::Finish { handled: false }),
            _ => false,
        },
        state.next(event).1 matches LoopAction::UnhandledExit { vcpu_id, report } ==> {
            &&& vcpu_id == state.vcpu_id
            &&& match state.phase {
                Phase::Processing(exit) => report == exit.report,
                Phase::Emulating { report: kept, .. } => report == kept,
                _ => true,
            }
        },
{
}

/// The outcomes of an emulation as events.
pub open spec fn emulated<E, K, W, X>(outcomes: Seq<Option<u64>>) -> Seq<LoopEvent<E, K, W, X>> {
    outcomes.map_values(|outcome: Option<u64>| LoopEvent::<E, K, W, X>::Emulated(outcome))
}

/// A thread follows an emulation to its end: as long as it has not ended, the
/// thread asks for what the emulation asks for; when it has, the guest runs on
/// if the instruction was handled, and else the exit is told of as unhandled.
pub proof fn law_emulation<E, K, W, X>(
    state: VcpuLoop<E, K, W>,
    emulation: StringIoEmulation,
    report: K,
    outcomes: Seq<Option<u64>>,
)
    requires
        state.phase == (Phase::<E, K, W>::Emulating { emulation, report }),
        outcomes.len() > 0,
        state.accepts_all(emulated::<E, K, W, X>(outcomes)),
    ensures
        ({
            let events = emulated::<E, K, W, X>(outcomes);
            let now = emulation.after(outcomes);
            (state.after(events), state.actions(events).last()) == match now.wants() {
                StringIoAction::Finish { handled } => if handled {
                    (
                        VcpuLoop { entry: VmEntry::Run, phase: Phase::Polling, ..state },
                        LoopAction::<E, K, W, X>::PollTask,
                    )
                } else {
                    (
                        VcpuLoop { phase: Phase::TellingUnhandled, ..state },
                        LoopAction::UnhandledExit { vcpu_id: state.vcpu_id, report },
                    )
                },
                action => (
                    VcpuLoop { phase: Phase::Emulating { emulation: now, report }, ..state },
                    LoopAction::StringIo(action),
                ),
            }
        }),
    decreases outcomes.len(),
{
    let events = emulated::<E, K, W, X>(outcomes);
    let before = outcomes.drop_last();
    assert(events.drop_last() =~= emulated::<E, K, W, X>(before));
    assert(events.take(events.len() - 1) == events.drop_last());
    lemma_accepts_prefix(state, events);
    if before.len() > 0 {
        law_emulation::<E, K, W, X>(state, emulation, report, before);
    } else {
        assert(state.after(events.drop_last()) == state);
    }
}

/// An exit for a string I/O instruction that the ordinary way left unhandled
/// is emulated from beginning to end: the thread asks for exactly what the
/// emulation asks for, in that order, then looks for requests again if the
/// instruction was handled, or tells of the exit if it was not.
#[verifier::rlimit(40)]
pub proof fn law_string_io_exit<E, K, W, X>(
    state: VcpuLoop<E, K, W>,
    exit: VmExit<E, K, W>,
    bytes: Vec<u8>,
    outcomes: Seq<Option<u64>>,
    handled: bool,
)
    requires
        state.phase == Phase::<E, K, W>::Processing(exit),
        exit.kind == VmExitKind::<E, W>::InstEmul(bytes),
        decoded(bytes@) is Some,
        state.accepts_all(
            seq![LoopEvent::<E, K, W, X>::Processed(None)] + emulated::<E, K, W, X>(outcomes),
        ),
        StringIoEmulation::start(decoded(bytes@)->0, exit.rip).after(outcomes).wants() == (
        StringIoAction::Finish { handled }),
    ensures
        ({
            let emulation = StringIoEmulation::start(decoded(bytes@)->0, exit.rip);
            let events = seq![LoopEvent::<E, K, W, X>::Processed(None)] + emulated(outcomes);
            let steps = emulation.actions(outcomes).map_values(
                |action: StringIoAction| LoopAction::<E, K, W, X>::StringIo(action),
            );
            let (end, last) = if handled {
                (
                    VcpuLoop { entry: VmEntry::Run, phase: Phase::Polling, ..state },
                    LoopAction::<E, K, W, X>::PollTask,
                )
            } else {
                (
                    VcpuLoop { phase: Phase::TellingUnhandled, ..state },
                    LoopAction::UnhandledExit { vcpu_id: state.vcpu_id, report: exit.report },
                )
            };
            &&& state.after(events) == end
            &&& state.actions(events) == steps.push(last)
        }),
{
    let emulation = StringIoEmulation::start(decoded(bytes@)->0, exit.rip);
    let report = exit.report;
    let first = seq![LoopEvent::<E, K, W, X>::Processed(None)];
    let rest = emulated::<E, K, W, X>(outcomes);
    let events = first + rest;
    let steps = emulation.actions(outcomes).map_values(
        |action: StringIoAction| LoopAction::<E, K, W, X>::StringIo(action),
    );
    let begun = state.at(Phase::Emulating { emulation, report });
    assert(first.drop_last() == Seq::<LoopEvent<E, K, W, X>>::empty());
    assert(state.after(first.drop_last()) == state);
    assert(state.after(first) == begun);
    assert(outcomes.len() > 0) by {
        if outcomes.len() == 0 {
            assert(emulation.after(outcomes) == emulation);
        }
    }
    lemma_accepts_rest(state, first, rest);
    law_emulation::<E, K, W, X>(begun, emulation, report, outcomes);
    lemma_after_concat(state, first, rest);
    assert forall|i: int| 0 <= i < events.len() implies state.actions(events)[i] == steps.push(
        state.actions(events).last(),
    )[i] by {
        if i == 0 {
            assert(events.take(0) == Seq::<LoopEvent<E, K, W, X>>::empty());
            assert(state.after(events.take(0)) == state);
            assert(outcomes.take(0) == Seq::<Option<u64>>::empty());
            assert(emulation.after(outcomes.take(0)) == emulation);
        } else if i < outcomes.len() {
            let so_far = emulated::<E, K, W, X>(outcomes.take(i));
            assert(so_far =~= rest.take(i));
            assert forall|k: int| 0 <= k < so_far.len() implies #[trigger] begun.after(
                so_far.take(k),
            ).accepts(so_far[k]) by {
                assert(so_far.take(k) == rest.take(k));
                assert(begun.after(rest.take(k)).accepts(rest[k]));
            }
            law_emulation::<E, K, W, X>(begun, emulation, report, outcomes.take(i));
            assert(begun.after(rest.take(i)).accepts(rest[i]));
            lemma_emulating_action::<E, K, W, X>(state, begun, first, outcomes, i);
        }
    }
    lemma_emulating_action::<E, K, W, X>(state, begun, first, outcomes, outcomes.len() as int);
    assert(outcomes.take(outcomes.len() as int) == outcomes);
    assert(state.actions(events) =~= steps.push(state.actions(events).last()));
}

/// What is accepted behind some events is accepted from where those led.
proof fn lemma_accepts_rest<E, K, W, X>(
    from: VcpuLoop<E, K, W>,
    first: Seq<LoopEvent<E, K, W, X>>,
    rest: Seq<LoopEvent<E, K, W, X>>,
)
    requires
        from.accepts_all(first + rest),
    ensures
        from.after(first).accepts_all(rest),
{
    let events = first + rest;
    assert forall|i: int| 0 <= i < rest.len() implies #[trigger] from.after(first).after(
        rest.take(i),
    ).accepts(rest[i]) by {
        let j = first.len() + i;
        assert(events.take(j) == first + rest.take(i));
        assert(from.after(events.take(j)).accepts(events[j]));
        lemma_after_concat(from, first, rest.take(i));
    }
}

proof fn lemma_after_concat<E, K, W, X>(
    from: VcpuLoop<E, K, W>,
    first: Seq<LoopEvent<E, K, W, X>>,
    second: Seq<LoopEvent<E, K, W, X>>,
)
    ensures
        from.after(first + second) == from.after(first).after(second),
    decreases second.len(),
{
    if second.len() == 0 {
        assert(first + second == first);
    } else {
        assert((first + second).drop_last() == first + second.drop_last());
        lemma_after_concat(from, first, second.drop_last());
    }
}

/// After one event and `i` outcomes the thread does what it does after those
/// outcomes alone, from where the one event led.
proof fn lemma_emulating_action<E, K, W, X>(
    state: VcpuLoop<E, K, W>,
    begun: VcpuLoop<E, K, W>,
    first: Seq<LoopEvent<E, K, W, X>>,
    outcomes: Seq<Option<u64>>,
    i: int,
)
    requires
        first.len() == 1,
        state.after(first) == begun,
        0 < i <= outcomes.len(),
    ensures
        state.actions(first + emulated(outcomes))[i] == begun.actions(
            emulated::<E, K, W, X>(outcomes.take(i)),
        ).last(),
{
    let rest = emulated::<E, K, W, X>(outcomes);
    let part = emulated::<E, K, W, X>(outcomes.take(i));
    assert((first + rest).take(i) == first + part.take(i - 1));
    lemma_after_concat(state, first, part.take(i - 1));
    assert((first + rest)[i] == part[i - 1]);
}

/// What a look for requests leads to. Without a request the guest is entered
/// with the pending entry. On a request to hold, the thread is held if the last
/// exit was consistent, and else the guest is entered with the pending entry and
/// made to exit at the first consistent point. On a request to exit, the thread
/// stops. Nothing is forgotten but the entry, and that only when it is used.
pub proof fn law_polling<E, K, W, X>(state: VcpuLoop<E, K, W>, request: Option<TaskEvent>)
    requires
        state.phase is Polling,
    ensures
        ({
            let (then, action) = state.next(LoopEvent::<E, K, W, X>::Pending(request));
            let VcpuLoop { entry, consistent, .. } = state;
            &&& state.accepts(LoopEvent::<E, K, W, X>::Pending(request))
            &&& request is None ==> action == (LoopAction::<E, K, W, X>::Run {
                entry,
                force_exit_when_consistent: false,
            })
            &&& request == Some(TaskEvent::Hold) && !consistent ==> action == (LoopAction::<
                E,
                K,
                W,
                X,
            >::Run { entry, force_exit_when_consistent: true })
            &&& request == Some(TaskEvent::Hold) && consistent ==> action is Hold
            &&& request == Some(TaskEvent::Exit) ==> action is Stop
            &&& action is Run ==> then == VcpuLoop {
                entry: VmEntry::Run,
                phase: Phase::Running,
                ..state
            }
            &&& action is Hold ==> then == VcpuLoop { phase: Phase::Holding, ..state }
            &&& action is Stop ==> then == VcpuLoop { phase: Phase::Stopped, ..state }
        }),
{
}

/// The entry that handling an exit the ordinary way calls for is the one that
/// the guest is entered with next, whatever kind of exit it was and whatever was
/// pending before: at once if nothing is requested, and if a hold is requested
/// where the exit was not consistent; and after a pause without a reset if it
/// was.
pub proof fn law_processed_exit<E, K, W, X>(
    state: VcpuLoop<E, K, W>,
    exit: VmExit<E, K, W>,
    entry: VmEntry<E>,
    request: Option<TaskEvent>,
)
    requires
        state.phase is Running,
    ensures
        ({
            let events: Seq<LoopEvent<E, K, W, X>> = seq![
                LoopEvent::Exited(exit),
                LoopEvent::Processed(Some(entry)),
            ];
            let then = state.after(events);
            let action = then.next(LoopEvent::<E, K, W, X>::Pending(request)).1;
            &&& state.accepts_all(events)
            &&& state.actions(events) == seq![
                LoopAction::<E, K, W, X>::ProcessExit,
                LoopAction::PollTask,
            ]
            &&& then == VcpuLoop {
                entry,
                consistent: exit.consistent,
                phase: Phase::Polling,
                ..state
            }
            &&& request is None ==> action == (LoopAction::<E, K, W, X>::Run {
                entry,
                force_exit_when_consistent: false,
            })
            &&& request == Some(TaskEvent::Hold) && !exit.consistent ==> action == (LoopAction::<
                E,
                K,
                W,
                X,
            >::Run { entry, force_exit_when_consistent: true })
            &&& request == Some(TaskEvent::Hold) && exit.consistent ==> {
                let (held, hold) = then.next(LoopEvent::<E, K, W, X>::Pending(request));
                let (released, load) = held.next(LoopEvent::<E, K, W, X>::Done);
                let (again, poll) = released.next(
                    LoopEvent::<E, K, W, X>::Generation(state.local_gen),
                );
                &&& hold is Hold && load is LoadGeneration && poll is PollTask
                &&& again.next(LoopEvent::<E, K, W, X>::Pending(None)).1 == (LoopAction::<
                    E,
                    K,
                    W,
                    X,
                >::Run { entry, force_exit_when_consistent: false })
            }
        }),
{
    let first = LoopEvent::<E, K, W, X>::Exited(exit);
    let second = LoopEvent::<E, K, W, X>::Processed(Some(entry));
    lemma_two(state, first, second);
    lemma_accepts_two(state, first, second);
}

proof fn lemma_accepts_two<E, K, W, X>(
    from: VcpuLoop<E, K, W>,
    first: LoopEvent<E, K, W, X>,
    second: LoopEvent<E, K, W, X>,
)
    requires
        from.accepts(first),
        from.next(first).0.accepts(second),
    ensures
        from.accepts_all(seq![first, second]),
{
    let events = seq![first, second];
    assert(events.take(0) == Seq::<LoopEvent<E, K, W, X>>::empty());
    assert(from.after(events.take(0)) == from);
    assert(events.take(1) == seq![first]);
    assert(seq![first].drop_last() == Seq::<LoopEvent<E, K, W, X>>::empty());
    assert(from.after(seq![first]) == from.next(first).0);
}

/// A port or device memory access that is not handled the ordinary way is
/// completed as failed, consistent or not and whatever was pending before: the
/// thread looks for requests, and enters the guest with that exit's failed
/// completion.
pub proof fn law_failed_access<E, K, W, X>(
    state: VcpuLoop<E, K, W>,
    exit: VmExit<E, K, W>,
    failed: E,
)
    requires
        state.phase is Running,
        exit.kind == (VmExitKind::<E, W>::Inout { failed }) || exit.kind == (VmExitKind::<
            E,
            W,
        >::Mmio { failed }),
    ensures
        ({
            let events: Seq<LoopEvent<E, K, W, X>> = seq![
                LoopEvent::Exited(exit),
                LoopEvent::Processed(None),
                LoopEvent::Pending(None),
            ];
            &&& state.accepts_all(events)
            &&& state.actions(events) == seq![
                LoopAction::<E, K, W, X>::ProcessExit,
                LoopAction::PollTask,
                LoopAction::Run {
                    entry: VmEntry::Fulfill(failed),
                    force_exit_when_consistent: false,
                },
            ]
            &&& state.after(events.take(2)) == VcpuLoop {
                entry: VmEntry::Fulfill(failed),
                consistent: exit.consistent,
                phase: Phase::Polling,
                ..state
            }
        }),
{
    let first = LoopEvent::<E, K, W, X>::Exited(exit);
    let second = LoopEvent::<E, K, W, X>::Processed(None);
    let third = LoopEvent::<E, K, W, X>::Pending(None);
    lemma_two(state, first, second);
    lemma_three(state, first, second, third);
    lemma_accepts_three(state, first, second, third);
    assert(seq![first, second, third].take(2) == seq![first, second]);
}

proof fn lemma_accepts_three<E, K, W, X>(
    from: VcpuLoop<E, K, W>,
    first: LoopEvent<E, K, W, X>,
    second: LoopEvent<E, K, W, X>,
    third: LoopEvent<E, K, W, X>,
)
    requires
        from.accepts(first),
        from.next(first).0.accepts(second),
        from.next(first).0.next(second).0.accepts(third),
    ensures
        from.accepts_all(seq![first, second, third]),
{
    let two = seq![first, second];
    let events = seq![first, second, third];
    lemma_accepts_two(from, first, second);
    lemma_two(from, first, second);
    assert forall|i: int| 0 <= i < 3 implies #[trigger] from.after(events.take(i)).accepts(
        events[i],
    ) by {
        if i < 2 {
            assert(events.take(i) == two.take(i));
            assert(from.after(two.take(i)).accepts(two[i]));
        } else {
            assert(events.take(2) == two);
        }
    }
}

/// A model-specific register write that is not handled the ordinary way is
/// ignored: the guest is entered plainly.
pub proof fn law_unhandled_wrmsr<E, K, W, X>(state: VcpuLoop<E, K, W>, exit: VmExit<E, K, W>)
    requires
        state.phase == Phase::<E, K, W>::Processing(exit),
        exit.kind is Wrmsr,
    ensures
        ({
            let (then, action) = state.next(LoopEvent::<E, K, W, X>::Processed(None));
            &&& state.accepts(LoopEvent::<E, K, W, X>::Processed(None))
            &&& action is PollTask
            &&& then == VcpuLoop { entry: VmEntry::Run, phase: Phase::Polling, ..state }
        }),
{
}

/// Exits of these kinds that are not handled the ordinary way are told of, with
/// the number of this vCPU and what the exit is to be reported with, and the
/// guest is entered plainly after: exits of an unknown kind, debug exits, errors
/// of either kind of processor, paging exits, and instructions that are not
/// string I/O.
pub proof fn law_told_of<E, K, W, X>(state: VcpuLoop<E, K, W>, exit: VmExit<E, K, W>)
    requires
        state.phase == Phase::<E, K, W>::Processing(exit),
        match exit.kind {
            VmExitKind::Unknown => true,
            VmExitKind::Debug => true,
            VmExitKind::VmxError => true,
            VmExitKind::SvmError => true,
            VmExitKind::Paging => true,
            VmExitKind::InstEmul(bytes) => decoded(bytes@) is None,
            _ => false,
        },
    ensures
        ({
            let events: Seq<LoopEvent<E, K, W, X>> = seq![
                LoopEvent::Processed(None),
                LoopEvent::Done,
            ];
            &&& state.accepts_all(events)
            &&& state.actions(events) == seq![
                LoopAction::<E, K, W, X>::UnhandledExit {
                    vcpu_id: state.vcpu_id,
                    report: exit.report,
                },
                LoopAction::PollTask,
            ]
            &&& state.after(events) == VcpuLoop {
                entry: VmEntry::Run,
                phase: Phase::Polling,
                ..state
            }
        }),
{
    let first = LoopEvent::<E, K, W, X>::Processed(None);
    lemma_two(state, first, LoopEvent::Done);
    lemma_accepts_two(state, first, LoopEvent::Done);
}

/// Having told of an exit that could not be emulated after all, the thread
/// enters the guest plainly.
pub proof fn law_after_telling<E, K, W, X>(state: VcpuLoop<E, K, W>)
    requires
        state.phase is TellingUnhandled,
    ensures
        state.accepts(LoopEvent::<E, K, W, X>::Done),
        state.next(LoopEvent::<E, K, W, X>::Done) == (
            VcpuLoop { entry: VmEntry::Run, phase: Phase::Polling, ..state },
            LoopAction::<E, K, W, X>::PollTask,
        ),
{
}

/// An instruction of string I/O that is not handled the ordinary way is
/// emulated: the emulation starts at the instruction pointer of the exit, with
/// reading RDX, and keeps what the exit is to be reported with.
pub proof fn law_emulation_starts<E, K, W, X>(
    state: VcpuLoop<E, K, W>,
    exit: VmExit<E, K, W>,
    bytes: Vec<u8>,
)
    requires
        state.phase == Phase::<E, K, W>::Processing(exit),
        exit.kind == VmExitKind::<E, W>::InstEmul(bytes),
        decoded(bytes@) is Some,
    ensures
        ({
            let (then, action) = state.next(LoopEvent::<E, K, W, X>::Processed(None));
            &&& state.accepts(LoopEvent::<E, K, W, X>::Processed(None))
            &&& action == LoopAction::<E, K, W, X>::StringIo(StringIoAction::ReadReg(Register::Rdx))
            &&& then.phase matches Phase::Emulating { emulation, report } && {
                &&& emulation.inst == decoded(bytes@)->0
                &&& emulation.exit_rip == exit.rip
                &&& report == exit.report
            }
            &&& then == VcpuLoop { phase: then.phase, ..state }
        }),
{
}

} // verus!
