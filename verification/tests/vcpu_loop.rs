use vcpu_tasks::string_io::{Register, StringIoAction};
use vcpu_tasks::tasks::VcpuTasks;
use vcpu_tasks::vcpu_loop::{
    LoopAction, LoopEvent, Suspend, SuspendDetail, TaskEvent, VcpuLoop, VmEntry, VmExit,
    VmExitKind,
};

const ID: i32 = 3;

type Entry = &'static str;
type Report = u32;
type When = u64;
type Action = LoopAction<Entry, Report, When, String>;
type Event = LoopEvent<Entry, Report, When, String>;
type Kind = VmExitKind<Entry, When>;

/// A thread with its last action.
struct Thread {
    state: VcpuLoop<Entry, Report, When>,
    action: Action,
}

impl Thread {
    fn new(consistent: bool) -> Thread {
        let (state, action) = VcpuLoop::new(ID, consistent);
        Thread { state, action }
    }

    /// Gives one event and returns what is asked for then.
    fn on(self, event: Event) -> Thread {
        assert!(self.state.can_step(&event));
        let (state, action) = self.state.step(event);
        Thread { state, action }
    }

    fn asks(self, action: Action) -> Thread {
        assert_eq!(self.action, action);
        self
    }

    fn polled(self, request: Option<TaskEvent>) -> Thread {
        self.asks(LoopAction::PollTask).on(LoopEvent::Pending(request))
    }

    fn done(self) -> Thread {
        self.on(LoopEvent::Done)
    }

    fn exits(self, kind: Kind, consistent: bool) -> Thread {
        self.on(LoopEvent::Exited(VmExit { rip: 0x1000, consistent, kind, report: 77 }))
            .asks(LoopAction::ProcessExit)
    }

    /// Runs into an exit that the ordinary way does not handle.
    fn unprocessed(kind: Kind) -> Thread {
        Thread::new(true)
            .polled(None)
            .exits(kind, true)
            .on(LoopEvent::Processed(None))
    }

    fn runs(self, entry: VmEntry<Entry>, force: bool) -> Thread {
        self.asks(LoopAction::Run { entry, force_exit_when_consistent: force })
    }
}

fn suspended(kind: Suspend) -> Kind {
    VmExitKind::Suspended(SuspendDetail { kind, when: 42 })
}

fn unhandled() -> Action {
    LoopAction::UnhandledExit { vcpu_id: ID, report: 77 }
}

#[test]
fn first_look_for_requests_then_run() {
    Thread::new(true).polled(None).runs(VmEntry::Run, false);
}

#[test]
fn stops_when_asked() {
    let thread = Thread::new(true).polled(Some(TaskEvent::Exit)).asks(LoopAction::Stop);
    assert!(!thread.state.can_step(&Event::Done));
    assert!(!thread.state.can_step(&Event::Pending(None)));
}

#[test]
fn holds_when_consistent() {
    Thread::new(true)
        .polled(Some(TaskEvent::Hold))
        .asks(LoopAction::Hold)
        .done()
        .asks(LoopAction::LoadGeneration)
        .on(LoopEvent::Generation(0))
        .polled(None)
        .runs(VmEntry::Run, false);
}

#[test]
fn hold_waits_for_consistency() {
    Thread::new(false)
        .polled(Some(TaskEvent::Hold))
        .runs(VmEntry::Run, true)
        .exits(VmExitKind::Bogus, false)
        .on(LoopEvent::Processed(Some(VmEntry::Fulfill("again"))))
        .polled(Some(TaskEvent::Hold))
        .runs(VmEntry::Fulfill("again"), true)
        .exits(VmExitKind::Bogus, true)
        .on(LoopEvent::Processed(Some(VmEntry::Run)))
        .polled(Some(TaskEvent::Hold))
        .asks(LoopAction::Hold);
}

#[test]
fn exit_is_seen_after_a_hold() {
    Thread::new(true)
        .polled(Some(TaskEvent::Hold))
        .done()
        .on(LoopEvent::Generation(0))
        .polled(Some(TaskEvent::Exit))
        .asks(LoopAction::Stop);
}

#[test]
fn pause_keeps_the_entry() {
    Thread::new(true)
        .polled(None)
        .exits(VmExitKind::Bogus, true)
        .on(LoopEvent::Processed(Some(VmEntry::Fulfill("pending"))))
        .polled(Some(TaskEvent::Hold))
        .done()
        .on(LoopEvent::Generation(0))
        .polled(None)
        .runs(VmEntry::Fulfill("pending"), false);
}

#[test]
fn reset_during_pause_voids_the_entry() {
    let thread = Thread::new(true)
        .polled(None)
        .exits(VmExitKind::Bogus, true)
        .on(LoopEvent::Processed(Some(VmEntry::Fulfill("stale"))))
        .polled(Some(TaskEvent::Hold))
        .done()
        .on(LoopEvent::Generation(1));
    assert_eq!(thread.state.local_gen, 1);
    // The next pause sees the same generation and keeps what is pending then.
    thread
        .polled(None)
        .runs(VmEntry::Run, false)
        .exits(VmExitKind::Bogus, true)
        .on(LoopEvent::Processed(Some(VmEntry::Fulfill("fresh"))))
        .polled(Some(TaskEvent::Hold))
        .done()
        .on(LoopEvent::Generation(1))
        .polled(None)
        .runs(VmEntry::Fulfill("fresh"), false);
}

#[test]
fn run_error_is_told_of_and_voids_the_entry() {
    Thread::new(true)
        .polled(None)
        .exits(VmExitKind::Bogus, true)
        .on(LoopEvent::Processed(Some(VmEntry::Fulfill("lost"))))
        .polled(None)
        .runs(VmEntry::Fulfill("lost"), false)
        .on(LoopEvent::RunFailed("broken".to_string()))
        .asks(LoopAction::IoError { vcpu_id: ID, error: "broken".to_string() })
        .done()
        .polled(None)
        .runs(VmEntry::Run, false);
}

#[test]
fn run_error_keeps_what_is_known_of_the_last_exit() {
    Thread::new(true)
        .polled(None)
        .exits(VmExitKind::Wrmsr, false)
        .on(LoopEvent::Processed(None))
        .polled(None)
        .on(LoopEvent::RunFailed("broken".to_string()))
        .done()
        .polled(Some(TaskEvent::Hold))
        .runs(VmEntry::Run, true);
}

#[test]
fn unhandled_port_access_fails() {
    Thread::unprocessed(VmExitKind::Inout { failed: "no port" })
        .polled(None)
        .runs(VmEntry::Fulfill("no port"), false);
}

#[test]
fn unhandled_device_memory_access_fails() {
    Thread::unprocessed(VmExitKind::Mmio { failed: "no device" })
        .polled(None)
        .runs(VmEntry::Fulfill("no device"), false);
}

#[test]
fn unhandled_rdmsr_reads_zero() {
    Thread::unprocessed(VmExitKind::Rdmsr)
        .asks(LoopAction::SetReg(Register::Rax, 0))
        .done()
        .asks(LoopAction::SetReg(Register::Rdx, 0))
        .done()
        .polled(None)
        .runs(VmEntry::Run, false);
}

#[test]
fn unhandled_wrmsr_is_ignored() {
    Thread::unprocessed(VmExitKind::Wrmsr).polled(None).runs(VmEntry::Run, false);
}

#[test]
fn halt_is_told_of_and_held() {
    Thread::unprocessed(suspended(Suspend::Halt))
        .asks(LoopAction::SuspendHalt { when: 42 })
        .done()
        .asks(LoopAction::ForceHold)
        .done()
        .polled(None)
        .runs(VmEntry::Run, false);
}

#[test]
fn reset_is_told_of_and_held() {
    Thread::unprocessed(suspended(Suspend::Reset))
        .asks(LoopAction::SuspendReset { when: 42 })
        .done()
        .asks(LoopAction::ForceHold)
        .done()
        .asks(LoopAction::PollTask);
}

#[test]
fn triple_fault_is_told_of_by_its_vcpu() {
    for vcpuid in [ID, -1] {
        Thread::unprocessed(suspended(Suspend::TripleFault(vcpuid)))
            .asks(LoopAction::SuspendTripleFault { vcpu_id: ID, when: 42 })
            .done()
            .asks(LoopAction::ForceHold)
            .done()
            .asks(LoopAction::PollTask);
    }
}

#[test]
fn triple_fault_elsewhere_only_holds() {
    for vcpuid in [ID + 1, 0, -2] {
        Thread::unprocessed(suspended(Suspend::TripleFault(vcpuid)))
            .asks(LoopAction::ForceHold)
            .done()
            .asks(LoopAction::PollTask);
    }
}

#[test]
fn exits_without_fallback_are_told_of() {
    for kind in [
        VmExitKind::Unknown,
        VmExitKind::Debug,
        VmExitKind::VmxError,
        VmExitKind::SvmError,
        VmExitKind::Paging,
        VmExitKind::InstEmul(vec![0x0F, 0x0B]),
        VmExitKind::InstEmul(vec![]),
    ] {
        Thread::unprocessed(kind).asks(unhandled()).done().polled(None).runs(VmEntry::Run, false);
    }
}

#[test]
fn string_io_is_emulated() {
    let mut thread = Thread::unprocessed(VmExitKind::InstEmul(vec![0x6C]));
    for (outcome, step) in [
        (Some(0x60), StringIoAction::ReadReg(Register::Rdx)),
        (Some(0), StringIoAction::ReadReg(Register::Rflags)),
        (Some(0x3000), StringIoAction::ReadReg(Register::Rdi)),
        (Some(0), StringIoAction::AcquireMemory),
    ] {
        thread = thread.asks(LoopAction::StringIo(step)).on(LoopEvent::Emulated(outcome));
    }
    let width = vcpu_tasks::instruction::Width::Byte;
    thread
        .asks(LoopAction::StringIo(StringIoAction::PortIn { port: 0x60, width }))
        .on(LoopEvent::Emulated(Some(0x1C)))
        .asks(LoopAction::StringIo(StringIoAction::WriteMem { addr: 0x3000, width, data: 0x1C }))
        .on(LoopEvent::Emulated(None))
        .asks(LoopAction::StringIo(StringIoAction::WriteReg(Register::Rdi, 0x3001)))
        .on(LoopEvent::Emulated(Some(0)))
        .asks(LoopAction::StringIo(StringIoAction::WriteReg(Register::Rip, 0x1001)))
        .on(LoopEvent::Emulated(Some(0)))
        .polled(None)
        .runs(VmEntry::Run, false);
}

#[test]
fn string_io_that_fails_is_told_of() {
    Thread::unprocessed(VmExitKind::InstEmul(vec![0xF3, 0x6F]))
        .on(LoopEvent::Emulated(Some(0x60)))
        .on(LoopEvent::Emulated(None))
        .asks(unhandled())
        .done()
        .polled(None)
        .runs(VmEntry::Run, false);
}

#[test]
fn processed_exits_are_not_looked_at() {
    Thread::new(true)
        .polled(None)
        .exits(suspended(Suspend::Halt), true)
        .on(LoopEvent::Processed(Some(VmEntry::Run)))
        .polled(None)
        .runs(VmEntry::Run, false);
}

#[test]
fn dead_ends_are_refused() {
    let bogus = Thread::new(true).polled(None).exits(VmExitKind::Bogus, true);
    assert!(!bogus.state.can_step(&Event::Processed(None)));
    assert!(bogus.state.can_step(&Event::Processed(Some(VmEntry::Run))));

    let exit = VmExit {
        rip: u64::MAX,
        consistent: true,
        kind: VmExitKind::InstEmul(vec![0xF3, 0x6C]),
        report: 77,
    };
    let last = Thread::new(true)
        .polled(None)
        .on(LoopEvent::Exited(exit))
        .on(LoopEvent::Processed(None))
        .on(LoopEvent::Emulated(Some(0x60)))
        .on(LoopEvent::Emulated(Some(0)))
        .on(LoopEvent::Emulated(Some(0x3000)));
    assert!(!last.state.can_step(&Event::Emulated(Some(0))));
    assert!(last.state.can_step(&Event::Emulated(Some(1))));
    assert!(last.state.can_step(&Event::Emulated(None)));
}

#[test]
fn events_must_answer_the_action() {
    let polling = Thread::new(true);
    assert!(!polling.state.can_step(&Event::Done));
    assert!(!polling.state.can_step(&Event::Generation(0)));
    assert!(!polling.state.can_step(&Event::Emulated(None)));
    let running = polling.polled(None);
    assert!(!running.state.can_step(&Event::Pending(None)));
    assert!(!running.state.can_step(&Event::Processed(None)));
    assert!(running.state.can_step(&Event::RunFailed(String::new())));
}

#[test]
fn generation_that_came_back_is_no_reset() {
    let once = VcpuTasks::<u8>::new_generation(0);
    for (generation, entry) in [(once, VmEntry::Run), (0, VmEntry::Fulfill("pending"))] {
        Thread::new(true)
            .polled(None)
            .exits(VmExitKind::Bogus, true)
            .on(LoopEvent::Processed(Some(VmEntry::Fulfill("pending"))))
            .polled(Some(TaskEvent::Hold))
            .done()
            .on(LoopEvent::Generation(generation))
            .polled(None)
            .runs(entry, false);
    }
}
