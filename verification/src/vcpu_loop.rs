//! The life of the thread behind one vCPU.
//!
//! The thread looks for requests made of it, enters the guest, and deals with
//! whatever made the guest exit, over and over. [`VcpuLoop`] is where it is in
//! that; [`VcpuLoop::step`] takes what came of the last action and says which
//! one is next.
//!
//! Some values only pass through, and their types are left open: `E`, an entry
//! other than the plain one; `K`, what an exit is reported with; `W`, the time
//! of a suspend; `X`, an error of running the vCPU.
use vstd::pervasive::unreached;
use vstd::prelude::*;

use crate::instruction::decoded;
use crate::string_io::{emulate_string_io, Register, StringIoAction, StringIoEmulation};

verus! {

/// A request made of the thread.
#[derive(Clone, Copy, Debug, PartialEq, Eq, Structural)]
pub enum TaskEvent {
    /// Stop running the vCPU until released.
    Hold,
    /// Come to an end.
    Exit,
}

/// How to enter the guest.
#[derive(Debug, PartialEq, Eq)]
pub enum VmEntry<E> {
    /// Just run.
    Run,
    /// Complete what the last exit was about first.
    Fulfill(E),
}

/// Why the guest suspended itself.
#[derive(Clone, Copy, Debug, PartialEq, Eq, Structural)]
pub enum Suspend {
    Halt,
    Reset,
    /// On the vCPU with this number, or, with -1, on some vCPU.
    TripleFault(i32),
}

/// How and when the guest suspended itself.
#[derive(Debug, PartialEq, Eq)]
pub struct SuspendDetail<W> {
    pub kind: Suspend,
    pub when: W,
}

/// What made the guest exit.
#[derive(Debug)]
pub enum VmExitKind<E, W> {
    /// A port access; `failed` completes it as one that nobody emulates.
    Inout { failed: E },
    /// A device memory access; `failed` completes it as one that nobody
    /// emulates.
    Mmio { failed: E },
    Rdmsr,
    Wrmsr,
    Suspended(SuspendDetail<W>),
    /// An instruction that has to be emulated, by its bytes.
    InstEmul(Vec<u8>),
    Unknown,
    /// No exit of the guest's: the kernel was asked to come back.
    Bogus,
    Debug,
    VmxError,
    SvmError,
    Paging,
}

/// An exit from the guest.
#[derive(Debug)]
pub struct VmExit<E, K, W> {
    /// The instruction pointer at the exit.
    pub rip: u64,
    /// Whether the kernel's state of the vCPU is consistent at this exit.
    pub consistent: bool,
    pub kind: VmExitKind<E, W>,
    /// What to report the exit with if nobody handles it.
    pub report: K,
}

/// What the thread has to do.
#[derive(Debug, PartialEq, Eq)]
pub enum LoopAction<E, K, W, X> {
    /// Look for a request. Answered by [`LoopEvent::Pending`].
    PollTask,
    /// Stay held until released. Answered by [`LoopEvent::Done`].
    Hold,
    /// Look how often the VM has been reset. Answered by
    /// [`LoopEvent::Generation`].
    LoadGeneration,
    /// Enter the guest. Answered by [`LoopEvent::RunFailed`] or
    /// [`LoopEvent::Exited`].
    Run { entry: VmEntry<E>, force_exit_when_consistent: bool },
    /// Tell of an error of running the vCPU. Answered by [`LoopEvent::Done`].
    IoError { vcpu_id: i32, error: X },
    /// Have the last exit handled the ordinary way. Answered by
    /// [`LoopEvent::Processed`].
    ProcessExit,
    /// Write a register. Whether it failed does not matter. Answered by
    /// [`LoopEvent::Done`].
    SetReg(Register, u64),
    /// Tell that the guest halted. Answered by [`LoopEvent::Done`].
    SuspendHalt { when: W },
    /// Tell that the guest reset. Answered by [`LoopEvent::Done`].
    SuspendReset { when: W },
    /// Tell that the guest triple-faulted. Answered by [`LoopEvent::Done`].
    SuspendTripleFault { vcpu_id: i32, when: W },
    /// Stay held, requested or not, until released. Answered by
    /// [`LoopEvent::Done`].
    ForceHold,
    /// Do a step of emulating an instruction. Answered by
    /// [`LoopEvent::Emulated`].
    StringIo(StringIoAction),
    /// Tell of an exit that nobody handled. Answered by [`LoopEvent::Done`].
    UnhandledExit { vcpu_id: i32, report: K },
    /// Come to an end.
    Stop,
}

/// What came of an action.
#[derive(Debug)]
pub enum LoopEvent<E, K, W, X> {
    Pending(Option<TaskEvent>),
    Done,
    Generation(usize),
    RunFailed(X),
    Exited(VmExit<E, K, W>),
    /// The entry to handle the exit with, if it could be handled.
    Processed(Option<VmEntry<E>>),
    Emulated(Option<u64>),
}

/// Which action the thread is at.
#[derive(Debug)]
pub enum Phase<E, K, W> {
    Polling,
    Holding,
    Released,
    Running,
    TellingIoError,
    Processing(VmExit<E, K, W>),
    ClearingRax,
    ClearingRdx,
    TellingSuspend,
    ForceHolding,
    Emulating { emulation: StringIoEmulation, report: K },
    TellingUnhandled,
    Stopped,
}

/// The state of the thread behind one vCPU.
#[derive(Debug)]
pub struct VcpuLoop<E, K, W> {
    pub vcpu_id: i32,
    /// How to enter the guest next.
    pub entry: VmEntry<E>,
    /// Whether the kernel's state of the vCPU was consistent at the last exit.
    pub consistent: bool,
    /// The generation that the VM was last seen in.
    pub local_gen: usize,
    pub phase: Phase<E, K, W>,
}

impl<E, K, W> VcpuLoop<E, K, W> {
    /// Before the first request has been looked for.
    pub open spec fn start(vcpu_id: i32, consistent: bool) -> Self {
        VcpuLoop {
            vcpu_id,
            entry: VmEntry::Run,
            consistent,
            local_gen: 0,
            phase: Phase::Polling,
        }
    }

    pub open spec fn at(self, phase: Phase<E, K, W>) -> Self {
        VcpuLoop { phase, ..self }
    }

    /// Back to looking for requests, to enter the guest with `entry` after.
    pub open spec fn again<X>(self, entry: VmEntry<E>) -> (Self, LoopAction<E, K, W, X>) {
        (VcpuLoop { entry, ..self.at(Phase::Polling) }, LoopAction::PollTask)
    }

    /// Entering the guest. The entry is used up.
    pub open spec fn enter<X>(self, force: bool) -> (Self, LoopAction<E, K, W, X>) {
        (
            VcpuLoop { entry: VmEntry::Run, ..self.at(Phase::Running) },
            LoopAction::Run { entry: self.entry, force_exit_when_consistent: force },
        )
    }

    /// Telling of an exit that nobody handled.
    pub open spec fn unhandled<X>(self, report: K) -> (Self, LoopAction<E, K, W, X>) {
        (
            self.at(Phase::TellingUnhandled),
            LoopAction::UnhandledExit { vcpu_id: self.vcpu_id, report },
        )
    }

    /// Whether a triple fault on vCPU `id` is for this vCPU to tell of.
    pub open spec fn tells_triple_fault(self, id: i32) -> bool {
        id == -1 || id == self.vcpu_id
    }

    /// A suspend that could not be handled the ordinary way.
    pub open spec fn suspended<X>(self, detail: SuspendDetail<W>) -> (
        Self,
        LoopAction<E, K, W, X>,
    ) {
        let when = detail.when;
        match detail.kind {
            Suspend::Halt => (self.at(Phase::TellingSuspend), LoopAction::SuspendHalt { when }),
            Suspend::Reset => (self.at(Phase::TellingSuspend), LoopAction::SuspendReset { when }),
            Suspend::TripleFault(id) => if self.tells_triple_fault(id) {
                (
                    self.at(Phase::TellingSuspend),
                    LoopAction::SuspendTripleFault { vcpu_id: self.vcpu_id, when },
                )
            } else {
                (self.at(Phase::ForceHolding), LoopAction::ForceHold)
            },
        }
    }

    /// An exit that could not be handled the ordinary way.
    pub open spec fn unprocessed<X>(self, exit: VmExit<E, K, W>) -> (
        Self,
        LoopAction<E, K, W, X>,
    ) {
        match exit.kind {
            VmExitKind::Inout { failed } => self.again(VmEntry::Fulfill(failed)),
            VmExitKind::Mmio { failed } => self.again(VmEntry::Fulfill(failed)),
            VmExitKind::Rdmsr => (
                self.at(Phase::ClearingRax),
                LoopAction::SetReg(Register::Rax, 0),
            ),
            VmExitKind::Wrmsr => self.again(VmEntry::Run),
            VmExitKind::Suspended(detail) => self.suspended(detail),
            VmExitKind::InstEmul(bytes) => match decoded(bytes@) {
                Some(inst) => {
                    let emulation = StringIoEmulation::start(inst, exit.rip);
                    (
                        self.at(Phase::Emulating { emulation, report: exit.report }),
                        LoopAction::StringIo(emulation.wants()),
                    )
                },
                None => self.unhandled(exit.report),
            },
            _ => self.unhandled(exit.report),
        }
    }

    /// Whether `event` answers the action that the thread is at. Left out are
    /// two answers that nothing can be done with: a `Bogus` exit that was not
    /// handled, and an instruction emulated at the very end of the address
    /// space, which has no next one.
    pub open spec fn accepts<X>(self, event: LoopEvent<E, K, W, X>) -> bool {
        match (self.phase, event) {
            (Phase::Polling, LoopEvent::Pending(_)) => true,
            (Phase::Released, LoopEvent::Generation(_)) => true,
            (Phase::Running, LoopEvent::RunFailed(_)) => true,
            (Phase::Running, LoopEvent::Exited(_)) => true,
            (Phase::Processing(exit), LoopEvent::Processed(entry)) => entry is Some
                || !(exit.kind is Bogus),
            (Phase::Emulating { emulation, .. }, LoopEvent::Emulated(outcome)) => emulation.next(
                outcome,
            ).rip_fits(),
            (phase, LoopEvent::Done) => phase is Holding || phase is TellingIoError
                || phase is ClearingRax || phase is ClearingRdx || phase is TellingSuspend
                || phase is ForceHolding || phase is TellingUnhandled,
            _ => false,
        }
    }

    /// The state after `event`, and the action then.
    pub open spec fn next<X>(self, event: LoopEvent<E, K, W, X>) -> (
        Self,
        LoopAction<E, K, W, X>,
    ) {
        match (self.phase, event) {
            // A request to hold has to wait until the kernel's state of the
            // vCPU is consistent.
            (Phase::Polling, LoopEvent::Pending(Some(TaskEvent::Hold))) => if self.consistent {
                (self.at(Phase::Holding), LoopAction::Hold)
            } else {
                self.enter(true)
            },
            (Phase::Polling, LoopEvent::Pending(Some(TaskEvent::Exit))) => (
                self.at(Phase::Stopped),
                LoopAction::Stop,
            ),
            (Phase::Polling, LoopEvent::Pending(None)) => self.enter(false),
            (Phase::Holding, _) => (self.at(Phase::Released), LoopAction::LoadGeneration),
            // If the VM was reset meanwhile, what the exit before the pause
            // asked for is void. The hold may have been satisfied by a request
            // to exit, so requests come first again.
            (Phase::Released, LoopEvent::Generation(current)) => if current != self.local_gen {
                VcpuLoop { local_gen: current, ..self }.again(VmEntry::Run)
            } else {
                self.again(self.entry)
            },
            (Phase::Running, LoopEvent::RunFailed(error)) => (
                self.at(Phase::TellingIoError),
                LoopAction::IoError { vcpu_id: self.vcpu_id, error },
            ),
            (Phase::Running, LoopEvent::Exited(exit)) => (
                VcpuLoop { consistent: exit.consistent, ..self.at(Phase::Processing(exit)) },
                LoopAction::ProcessExit,
            ),
            (Phase::TellingIoError, _) => self.again(VmEntry::Run),
            (Phase::Processing(_), LoopEvent::Processed(Some(entry))) => self.again(entry),
            (Phase::Processing(exit), LoopEvent::Processed(None)) => self.unprocessed(exit),
            (Phase::ClearingRax, _) => (
                self.at(Phase::ClearingRdx),
                LoopAction::SetReg(Register::Rdx, 0),
            ),
            (Phase::ClearingRdx, _) => self.again(VmEntry::Run),
            // The vCPU cannot enter the guest again until something has been
            // done about the suspend.
            (Phase::TellingSuspend, _) => (self.at(Phase::ForceHolding), LoopAction::ForceHold),
            (Phase::ForceHolding, _) => self.again(VmEntry::Run),
            (Phase::Emulating { emulation, report }, LoopEvent::Emulated(outcome)) => {
                let emulation = emulation.next(outcome);
                match emulation.wants() {
                    StringIoAction::Finish { handled } => if handled {
                        self.again(VmEntry::Run)
                    } else {
                        self.unhandled(report)
                    },
                    action => (
                        self.at(Phase::Emulating { emulation, report }),
                        LoopAction::StringIo(action),
                    ),
                }
            },
            (Phase::TellingUnhandled, _) => self.again(VmEntry::Run),
            _ => (self, LoopAction::Stop),
        }
    }

    /// A vCPU's thread at its beginning, and its first action. `consistent` is
    /// whether the kernel's state of the vCPU is, before it ever ran.
    pub fn new<X>(vcpu_id: i32, consistent: bool) -> (begun: (Self, LoopAction<E, K, W, X>))
        ensures
            begun == (Self::start(vcpu_id, consistent), LoopAction::<E, K, W, X>::PollTask),
    {
        let begun = VcpuLoop {
            vcpu_id,
            entry: VmEntry::Run,
            consistent,
            local_gen: 0,
            phase: Phase::Polling,
        };
        (begun, LoopAction::PollTask)
    }

    /// Whether `event` can be given to [`VcpuLoop::step`] now.
    pub fn can_step<X>(&self, event: &LoopEvent<E, K, W, X>) -> (can: bool)
        ensures
            can == self.accepts(*event),
    {
        match (&self.phase, event) {
            (Phase::Polling, LoopEvent::Pending(_)) => true,
            (Phase::Released, LoopEvent::Generation(_)) => true,
            (Phase::Running, LoopEvent::RunFailed(_)) => true,
            (Phase::Running, LoopEvent::Exited(_)) => true,
            (Phase::Processing(exit), LoopEvent::Processed(entry)) => {
                match (entry, &exit.kind) {
                    (None, VmExitKind::Bogus) => false,
                    _ => true,
                }
            },
            (Phase::Emulating { emulation, .. }, LoopEvent::Emulated(outcome)) => {
                let mut emulation: StringIoEmulation = *emulation;
                emulation.proceed(*outcome);
                emulation.has_action()
            },
            (Phase::Holding, LoopEvent::Done) => true,
            (Phase::TellingIoError, LoopEvent::Done) => true,
            (Phase::ClearingRax, LoopEvent::Done) => true,
            (Phase::ClearingRdx, LoopEvent::Done) => true,
            (Phase::TellingSuspend, LoopEvent::Done) => true,
            (Phase::ForceHolding, LoopEvent::Done) => true,
            (Phase::TellingUnhandled, LoopEvent::Done) => true,
            _ => false,
        }
    }

    fn tell_unhandled<X>(self, report: K) -> (told: (Self, LoopAction<E, K, W, X>))
        ensures
            told == self.unhandled::<X>(report),
    {
        let vcpu_id: i32 = self.vcpu_id;
        (
            VcpuLoop { phase: Phase::TellingUnhandled, ..self },
            LoopAction::UnhandledExit { vcpu_id, report },
        )
    }

    fn tell_suspend<X>(self, detail: SuspendDetail<W>) -> (told: (Self, LoopAction<E, K, W, X>))
        ensures
            told == self.suspended::<X>(detail),
    {
        let vcpu_id: i32 = self.vcpu_id;
        let when = detail.when;
        let (phase, action) = match detail.kind {
            Suspend::Halt => (Phase::TellingSuspend, LoopAction::SuspendHalt { when }),
            Suspend::Reset => (Phase::TellingSuspend, LoopAction::SuspendReset { when }),
            Suspend::TripleFault(id) => if id == -1 || id == vcpu_id {
                (Phase::TellingSuspend, LoopAction::SuspendTripleFault { vcpu_id, when })
            } else {
                (Phase::ForceHolding, LoopAction::ForceHold)
            },
        };
        (VcpuLoop { phase, ..self }, action)
    }

    /// Deals with an exit that could not be handled the ordinary way.
    fn deal_with<X>(self, exit: VmExit<E, K, W>) -> (dealt: (Self, LoopAction<E, K, W, X>))
        requires
            !(exit.kind is Bogus),
        ensures
            dealt == self.unprocessed::<X>(exit),
    {
        let VmExit { rip, consistent: _, kind, report } = exit;
        match kind {
            VmExitKind::Inout { failed } => (
                VcpuLoop { entry: VmEntry::Fulfill(failed), phase: Phase::Polling, ..self },
                LoopAction::PollTask,
            ),
            VmExitKind::Mmio { failed } => (
                VcpuLoop { entry: VmEntry::Fulfill(failed), phase: Phase::Polling, ..self },
                LoopAction::PollTask,
            ),
            VmExitKind::Rdmsr => (
                VcpuLoop { phase: Phase::ClearingRax, ..self },
                LoopAction::SetReg(Register::Rax, 0),
            ),
            VmExitKind::Wrmsr => (
                VcpuLoop { entry: VmEntry::Run, phase: Phase::Polling, ..self },
                LoopAction::PollTask,
            ),
            VmExitKind::Suspended(detail) => self.tell_suspend(detail),
            VmExitKind::InstEmul(bytes) => match emulate_string_io(bytes.as_slice(), rip) {
                Some(emulation) => {
                    let action = emulation.action();
                    (
                        VcpuLoop { phase: Phase::Emulating { emulation, report }, ..self },
                        LoopAction::StringIo(action),
                    )
                },
                None => self.tell_unhandled(report),
            },
            _ => self.tell_unhandled(report),
        }
    }

    /// Takes what came of the last action and says which one is next.
    pub fn step<X>(self, event: LoopEvent<E, K, W, X>) -> (stepped: (
        Self,
        LoopAction<E, K, W, X>,
    ))
        requires
            self.accepts(event),
        ensures
            stepped == self.next(event),
    {
        let vcpu_id: i32 = self.vcpu_id;
        match (self.phase, event) {
            (Phase::Polling, LoopEvent::Pending(Some(TaskEvent::Hold))) if self.consistent => (
                VcpuLoop { phase: Phase::Holding, ..self },
                LoopAction::Hold,
            ),
            (Phase::Polling, LoopEvent::Pending(Some(TaskEvent::Exit))) => (
                VcpuLoop { phase: Phase::Stopped, ..self },
                LoopAction::Stop,
            ),
            (Phase::Polling, LoopEvent::Pending(request)) => (
                VcpuLoop { entry: VmEntry::Run, phase: Phase::Running, ..self },
                LoopAction::Run {
                    entry: self.entry,
                    force_exit_when_consistent: request.is_some(),
                },
            ),
            (Phase::Holding, LoopEvent::Done) => (
                VcpuLoop { phase: Phase::Released, ..self },
                LoopAction::LoadGeneration,
            ),
            (Phase::Released, LoopEvent::Generation(current)) => {
                let entry = if self.local_gen != current {
                    VmEntry::Run
                } else {
                    self.entry
                };
                (
                    VcpuLoop { entry, local_gen: current, phase: Phase::Polling, ..self },
                    LoopAction::PollTask,
                )
            },
            (Phase::Running, LoopEvent::RunFailed(error)) => (
                VcpuLoop { phase: Phase::TellingIoError, ..self },
                LoopAction::IoError { vcpu_id, error },
            ),
            (Phase::Running, LoopEvent::Exited(exit)) => (
                VcpuLoop {
                    consistent: exit.consistent,
                    phase: Phase::Processing(exit),
                    ..self
                },
                LoopAction::ProcessExit,
            ),
            (Phase::Processing(_), LoopEvent::Processed(Some(entry))) => (
                VcpuLoop { entry, phase: Phase::Polling, ..self },
                LoopAction::PollTask,
            ),
            (Phase::Processing(exit), LoopEvent::Processed(None)) => VcpuLoop {
                phase: Phase::Polling,
                ..self
            }.deal_with(exit),
            (Phase::ClearingRax, LoopEvent::Done) => (
                VcpuLoop { phase: Phase::ClearingRdx, ..self },
                LoopAction::SetReg(Register::Rdx, 0),
            ),
            (Phase::TellingSuspend, LoopEvent::Done) => (
                VcpuLoop { phase: Phase::ForceHolding, ..self },
                LoopAction::ForceHold,
            ),
            (Phase::Emulating { emulation, report }, LoopEvent::Emulated(outcome)) => {
                let mut emulation: StringIoEmulation = emulation;
                emulation.proceed(outcome);
                match emulation.action() {
                    StringIoAction::Finish { handled: true } => (
                        VcpuLoop { entry: VmEntry::Run, phase: Phase::Polling, ..self },
                        LoopAction::PollTask,
                    ),
                    StringIoAction::Finish { handled: false } => VcpuLoop {
                        phase: Phase::Polling,
                        ..self
                    }.tell_unhandled(report),
                    action => (
                        VcpuLoop { phase: Phase::Emulating { emulation, report }, ..self },
                        LoopAction::StringIo(action),
                    ),
                }
            },
            (Phase::TellingIoError, LoopEvent::Done)
            | (Phase::ClearingRdx, LoopEvent::Done)
            | (Phase::ForceHolding, LoopEvent::Done)
            | (Phase::TellingUnhandled, LoopEvent::Done) => (
                VcpuLoop { entry: VmEntry::Run, phase: Phase::Polling, ..self },
                LoopAction::PollTask,
            ),
            _ => unreached(),
        }
    }
}

} // verus!
