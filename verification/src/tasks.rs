//! The tasks of all vCPUs of a VM.
//!
//! `T` is whatever stands for one task outside: the means to control it and
//! the thread that runs it. [`TaskStarter`] starts the tasks one by one;
//! [`VcpuTasks`] commands them together, with a [`CommandRun`]: commands that
//! name a task by its index, to be carried out one after another.
use vstd::prelude::*;

use crate::error::VcpuTaskError;

verus! {

/// A thread to be started.
#[derive(Clone, Copy, Debug, PartialEq, Eq, Structural)]
pub struct Spawn {
    /// The index of the vCPU that it is for.
    pub vcpu: usize,
    /// The host CPU to bind it to.
    pub bind_cpu: Option<i32>,
}

/// Something to be done with the task of a given index.
#[derive(Clone, Copy, Debug, PartialEq, Eq, Structural)]
pub enum TaskCommand {
    /// Have it held.
    Hold(usize),
    /// Let it run.
    Run(usize),
    /// Have it come to an end.
    Exit(usize),
    /// Wait until its thread has come to an end.
    Join(usize),
}

/// Commands that are being carried out, in order, until one of them fails.
#[derive(Debug)]
pub struct CommandRun {
    pub commands: Vec<TaskCommand>,
    /// How many have been carried out, the one that failed included.
    pub position: usize,
    /// Whether one has failed.
    pub failed: bool,
}

/// Tasks that are being started.
#[derive(Debug)]
pub struct TaskStarter<T> {
    /// The host CPU that each vCPU's thread is to be bound to.
    pub bindings: Vec<Option<i32>>,
    /// The tasks started so far, in the order of the vCPUs.
    pub started: Vec<T>,
}

/// The running tasks of all vCPUs, in the order of the vCPUs.
#[derive(Debug)]
pub struct VcpuTasks<T> {
    pub tasks: Vec<T>,
}

/// The host CPU for each vCPU: the one named at the same place, or none.
pub open spec fn cpu_bindings(vcpus: nat, bind_cpus: Option<Seq<i32>>) -> Seq<Option<i32>> {
    Seq::new(
        vcpus,
        |i: int|
            match bind_cpus {
                Some(cpus) => Some(cpus[i]),
                None => None,
            },
    )
}

/// The host CPUs named, in order.
pub open spec fn named(bind_cpus: Option<Vec<i32>>) -> Option<Seq<i32>> {
    match bind_cpus {
        Some(cpus) => Some(cpus@),
        None => None,
    }
}

/// Whether host CPUs, if some are named, are named one for each vCPU.
pub open spec fn pairs_up(vcpus: nat, bind_cpus: Option<Seq<i32>>) -> bool {
    bind_cpus matches Some(cpus) ==> cpus.len() == vcpus
}

/// Holding the first `n` tasks.
pub open spec fn holds(n: nat) -> Seq<TaskCommand> {
    Seq::new(n, |i: int| TaskCommand::Hold(i as usize))
}

/// Letting the first `n` tasks run.
pub open spec fn runs(n: nat) -> Seq<TaskCommand> {
    Seq::new(n, |i: int| TaskCommand::Run(i as usize))
}

/// Having the first `n` tasks come to an end.
pub open spec fn exits(n: nat) -> Seq<TaskCommand> {
    Seq::new(n, |i: int| TaskCommand::Exit(i as usize))
}

/// Waiting for the threads of the first `n` tasks.
pub open spec fn joins(n: nat) -> Seq<TaskCommand> {
    Seq::new(n, |i: int| TaskCommand::Join(i as usize))
}

impl TaskCommand {
    /// Whether it matters that the command failed. A task can always be asked
    /// to come to an end.
    pub open spec fn can_fail(self) -> bool {
        !(self is Exit)
    }
}

impl CommandRun {
    /// Before any command has been carried out.
    pub open spec fn is_fresh(self) -> bool {
        self.position == 0 && !self.failed
    }

    /// The command to carry out next: none behind the last, and none after one
    /// has failed.
    pub open spec fn next(self) -> Option<TaskCommand> {
        if !self.failed && self.position < self.commands.len() {
            Some(self.commands@[self.position as int])
        } else {
            None
        }
    }

    /// The run after its next command has been carried out, well or not.
    pub open spec fn advanced(self, ok: bool) -> Self {
        CommandRun {
            position: (self.position + 1) as usize,
            failed: !ok && self.commands@[self.position as int].can_fail(),
            ..self
        }
    }

    /// The command to carry out next, if there is one.
    pub fn next_command(&self) -> (command: Option<TaskCommand>)
        ensures
            command == self.next(),
    {
        if !self.failed && self.position < self.commands.len() {
            Some(self.commands[self.position])
        } else {
            None
        }
    }

    /// Takes whether the next command was carried out well. If it was not, no
    /// further command is to be.
    pub fn carried_out(self, ok: bool) -> (run: CommandRun)
        requires
            self.next() is Some,
        ensures
            run == self.advanced(ok),
    {
        let failed = match self.commands[self.position] {
            TaskCommand::Exit(_) => false,
            _ => !ok,
        };
        CommandRun { commands: self.commands, position: self.position + 1, failed }
    }
}

/// The generation after `resets` resets of a VM in `generation`. Generations
/// wrap around.
pub open spec fn generation_after(generation: usize, resets: nat) -> usize {
    ((generation + resets) % (usize::MAX + 1)) as usize
}

/// Up to as many resets as there are generations, a generation wraps around at
/// most once.
pub proof fn lemma_generation_after(generation: usize, resets: nat)
    requires
        resets <= usize::MAX,
    ensures
        generation_after(generation, resets) == if generation + resets <= usize::MAX {
            generation + resets
        } else {
            generation + resets - usize::MAX - 1
        },
{
    let size = usize::MAX + 1;
    let sum = generation + resets;
    if sum <= usize::MAX {
        vstd::arithmetic::div_mod::lemma_small_mod(sum as nat, size as nat);
    } else {
        vstd::arithmetic::div_mod::lemma_small_mod((sum - size) as nat, size as nat);
        vstd::arithmetic::div_mod::lemma_mod_sub_multiples_vanish(sum, size);
    }
}

impl<T> TaskStarter<T> {
    /// No more threads have been started than there are vCPUs.
    pub open spec fn wf(self) -> bool {
        self.started@.len() <= self.bindings@.len()
    }

    /// The thread to start next: that of the first vCPU which has none.
    pub open spec fn next(self) -> Option<Spawn> {
        let vcpu = self.started.len();
        if vcpu < self.bindings.len() {
            Some(Spawn { vcpu, bind_cpu: self.bindings@[vcpu as int] })
        } else {
            None
        }
    }

    /// The thread to start next, if there is one.
    pub fn next_spawn(&self) -> (spawn: Option<Spawn>)
        ensures
            spawn == self.next(),
    {
        let vcpu: usize = self.started.len();
        if vcpu < self.bindings.len() {
            Some(Spawn { vcpu, bind_cpu: self.bindings[vcpu] })
        } else {
            None
        }
    }

    /// Takes what came of starting the next thread: its task, or why it could
    /// not be started. In that case no further thread is to be.
    pub fn spawned(self, outcome: Result<T, std::io::Error>) -> (then: Result<
        TaskStarter<T>,
        VcpuTaskError,
    >)
        requires
            self.next() is Some,
        ensures
            outcome matches Ok(task) ==> {
                &&& then is Ok
                &&& then->Ok_0.wf()
                &&& then->Ok_0.bindings == self.bindings
                &&& then->Ok_0.started@ == self.started@.push(task)
            },
            outcome matches Err(error) ==> then == Err::<TaskStarter<T>, VcpuTaskError>(
                VcpuTaskError::BackingThreadSpawnFailed(error),
            ),
    {
        match outcome {
            Ok(task) => {
                let mut started = self.started;
                started.push(task);
                Ok(TaskStarter { bindings: self.bindings, started })
            },
            Err(error) => Err(VcpuTaskError::BackingThreadSpawnFailed(error)),
        }
    }

    /// The tasks, once all have been started.
    pub fn finish(self) -> (tasks: VcpuTasks<T>)
        requires
            self.wf(),
            self.next() is None,
        ensures
            tasks.tasks@ == self.started@,
            tasks.tasks@.len() == self.bindings@.len(),
    {
        VcpuTasks { tasks: self.started }
    }
}

impl<T> VcpuTasks<T> {
    /// Prepares to start a thread for each of `vcpus` vCPUs. The threads are
    /// bound to host CPUs if some are named, one for each vCPU; it is an error
    /// to name more or fewer.
    pub fn new(vcpus: usize, bind_cpus: Option<Vec<i32>>) -> (starter: Result<
        TaskStarter<T>,
        VcpuTaskError,
    >)
        ensures
            pairs_up(vcpus as nat, named(bind_cpus)) ==> {
                &&& starter is Ok
                &&& starter->Ok_0.wf()
                &&& starter->Ok_0.bindings@ == cpu_bindings(vcpus as nat, named(bind_cpus))
                &&& starter->Ok_0.started@ == Seq::<T>::empty()
            },
            !pairs_up(vcpus as nat, named(bind_cpus)) ==> starter == Err::<
                TaskStarter<T>,
                VcpuTaskError,
            >(VcpuTaskError::CpuBindingMismatch { bindings: bind_cpus->0.len(), vcpus }),
    {
        if let Some(cpus) = &bind_cpus {
            if cpus.len() != vcpus {
                return Err(VcpuTaskError::CpuBindingMismatch { bindings: cpus.len(), vcpus });
            }
        }
        let mut bindings: Vec<Option<i32>> = Vec::new();
        let mut i: usize = 0;
        while i < vcpus
            invariant
                i <= vcpus,
                bind_cpus matches Some(cpus) ==> cpus@.len() == vcpus,
                bindings@ == cpu_bindings(vcpus as nat, named(bind_cpus)).take(i as int),
            decreases vcpus - i,
        {
            let bind_cpu = match &bind_cpus {
                Some(cpus) => Some(cpus[i]),
                None => None,
            };
            bindings.push(bind_cpu);
            i += 1;
        }
        Ok(TaskStarter { bindings, started: Vec::new() })
    }

    /// Has all tasks held, one after another, up to the first that cannot be.
    pub fn pause_all(&self) -> (run: CommandRun)
        ensures
            run.is_fresh(),
            run.commands@ == holds(self.tasks@.len()),
            run.position == 0,
            !run.failed,
            run.commands@.len() == self.tasks@.len(),
            forall|i: int|
                0 <= i < self.tasks@.len() ==> #[trigger] run.commands@[i] == TaskCommand::Hold(
                    i as usize,
                ),
    {
        let mut commands: Vec<TaskCommand> = Vec::new();
        for i in 0..self.tasks.len()
            invariant
                commands@ == holds(i as nat),
        {
            commands.push(TaskCommand::Hold(i));
        }
        CommandRun { commands, position: 0, failed: false }
    }

    /// Lets all tasks run, one after another, up to the first that cannot.
    pub fn resume_all(&self) -> (run: CommandRun)
        ensures
            run.is_fresh(),
            run.commands@ == runs(self.tasks@.len()),
            run.position == 0,
            !run.failed,
            run.commands@.len() == self.tasks@.len(),
            forall|i: int|
                0 <= i < self.tasks@.len() ==> #[trigger] run.commands@[i] == TaskCommand::Run(
                    i as usize,
                ),
    {
        let mut commands: Vec<TaskCommand> = Vec::new();
        for i in 0..self.tasks.len()
            invariant
                commands@ == runs(i as nat),
        {
            commands.push(TaskCommand::Run(i));
        }
        CommandRun { commands, position: 0, failed: false }
    }

    /// Has all tasks come to an end, and then waits for each, up to the first
    /// whose thread failed. The commands are for the tasks handed out with
    /// them; none remain.
    pub fn exit_all(&mut self) -> (ended: (CommandRun, Vec<T>))
        ensures
            ended.0.is_fresh(),
            ended.0.commands@ == exits(old(self).tasks@.len()) + joins(old(self).tasks@.len()),
            ended.0.position == 0,
            !ended.0.failed,
            ended.0.commands@.len() == 2 * old(self).tasks@.len(),
            forall|i: int|
                0 <= i < old(self).tasks@.len() ==> #[trigger] ended.0.commands@[i]
                    == TaskCommand::Exit(i as usize),
            forall|i: int|
                old(self).tasks@.len() <= i < 2 * old(self).tasks@.len() ==> #[trigger]
                    ended.0.commands@[i] == TaskCommand::Join((i - old(self).tasks@.len()) as usize),
            ended.1@ == old(self).tasks@,
            final(self).tasks@ == Seq::<T>::empty(),
    {
        let mut tasks: Vec<T> = Vec::new();
        std::mem::swap(&mut self.tasks, &mut tasks);
        let mut commands: Vec<TaskCommand> = Vec::new();
        for i in 0..tasks.len()
            invariant
                commands@ == exits(i as nat),
        {
            commands.push(TaskCommand::Exit(i));
        }
        for i in 0..tasks.len()
            invariant
                commands@ == exits(tasks@.len()) + joins(i as nat),
        {
            commands.push(TaskCommand::Join(i));
        }
        (CommandRun { commands, position: 0, failed: false }, tasks)
    }

    /// The generation that follows `generation` when the VM is reset.
    pub fn new_generation(generation: usize) -> (next: usize)
        ensures
            next == if generation == usize::MAX {
                0
            } else {
                generation + 1
            },
            next == generation_after(generation, 1),
    {
        proof {
            lemma_generation_after(generation, 1);
        }
        generation.wrapping_add(1)
    }
}

} // verus!
