//! What holds of the tasks of all vCPUs together.
use vstd::prelude::*;

use crate::tasks::{
    cpu_bindings, exits, generation_after, holds, joins, lemma_generation_after, named, pairs_up,
    runs, CommandRun, TaskCommand, TaskStarter,
};
use crate::vcpu_loop::{LoopAction, LoopEvent, TaskEvent, VcpuLoop, VmEntry};
use crate::vcpu_loop_laws::law_pause;

verus! {

/// Resets add up: one reset after `resets` of them is `resets + 1` of them.
pub proof fn law_resets_add_up(generation: usize, resets: nat)
    ensures
        generation_after(generation, 0) == generation,
        generation_after(generation_after(generation, resets), 1) == generation_after(
            generation,
            resets + 1,
        ),
{
    let size = usize::MAX + 1;
    lemma_generation_after(generation, 0);
    vstd::arithmetic::div_mod::lemma_mod_bound(generation + resets, size);
    vstd::arithmetic::div_mod::lemma_add_mod_noop(generation + resets, 1, size);
    vstd::arithmetic::div_mod::lemma_small_mod(1, size as nat);
}

/// A generation comes back after a multiple of as many resets as there are
/// generations, and not otherwise.
proof fn lemma_generation_returns(generation: usize, resets: nat)
    ensures
        generation_after(generation, resets) == generation <==> resets % (usize::MAX as nat + 1)
            == 0,
{
    let size = usize::MAX as nat + 1;
    let part = resets % size;
    vstd::arithmetic::div_mod::lemma_mod_bound(resets as int, size as int);
    vstd::arithmetic::div_mod::lemma_add_mod_noop_right(
        generation as int,
        resets as int,
        size as int,
    );
    assert(generation_after(generation, resets) == generation_after(generation, part));
    lemma_generation_after(generation, part);
}

/// A reset is noticed: a vCPU that is paused on request while the VM is reset
/// enters the guest plainly when it is released, whatever its last exit called
/// for. Without a reset it goes on with that, and likewise after as many resets
/// as bring the generation back to where it was.
pub proof fn law_reset_is_noticed<E, K, W, X>(state: VcpuLoop<E, K, W>, resets: nat)
    requires
        state.phase is Polling,
        state.consistent,
    ensures
        ({
            let events: Seq<LoopEvent<E, K, W, X>> = seq![
                LoopEvent::Pending(Some(TaskEvent::Hold)),
                LoopEvent::Done,
                LoopEvent::Generation(generation_after(state.local_gen, resets)),
            ];
            let released = state.after(events);
            &&& released.entry == if resets % (usize::MAX as nat + 1) == 0 {
                state.entry
            } else {
                VmEntry::Run
            }
            &&& released.next(LoopEvent::<E, K, W, X>::Pending(None)).1 == LoopAction::<
                E,
                K,
                W,
                X,
            >::Run { entry: released.entry, force_exit_when_consistent: false }
        }),
{
    lemma_generation_returns(state.local_gen, resets);
    law_pause::<E, K, W, X>(state, generation_after(state.local_gen, resets));
}

/// Starting up takes one thread for each vCPU, in order, each bound to the host
/// CPU named for it; then there is nothing more to start.
pub proof fn law_startup<T>(starter: TaskStarter<T>, vcpus: nat, bind_cpus: Option<Seq<i32>>)
    requires
        starter.bindings@ == cpu_bindings(vcpus, bind_cpus),
        starter.wf(),
    ensures
        starter.next() is Some <==> starter.started@.len() < vcpus,
        starter.next() matches Some(spawn) ==> {
            &&& spawn.vcpu == starter.started@.len()
            &&& bind_cpus is None ==> spawn.bind_cpu is None
            &&& bind_cpus matches Some(cpus) ==> spawn.bind_cpu == Some(cpus[spawn.vcpu as int])
        },
        starter.next() is None ==> starter.started@.len() == vcpus,
{
}

impl CommandRun {
    /// The run after a sequence of outcomes.
    pub open spec fn after(self, outcomes: Seq<bool>) -> Self
        decreases outcomes.len(),
    {
        if outcomes.len() == 0 {
            self
        } else {
            self.after(outcomes.drop_last()).advanced(outcomes.last())
        }
    }

    /// Whether each of the outcomes is that of a command that was asked for.
    pub open spec fn asks_for_all(self, outcomes: Seq<bool>) -> bool {
        forall|i: int|
            0 <= i < outcomes.len() ==> (#[trigger] self.after(outcomes.take(i))).next() is Some
    }

    /// The commands that those were the outcomes of.
    pub open spec fn asked(self, outcomes: Seq<bool>) -> Seq<TaskCommand> {
        Seq::new(outcomes.len(), |i: int| self.after(outcomes.take(i)).next()->0)
    }
}

/// Commands are carried out from the first on, one after another, up to and
/// with the first that fails, or to the last. A run has failed exactly when one
/// of its commands has, and that one was the last carried out.
pub proof fn law_command_run(run: CommandRun, outcomes: Seq<bool>)
    requires
        run.is_fresh(),
        run.asks_for_all(outcomes),
    ensures
        ({
            let now = run.after(outcomes);
            let n = outcomes.len();
            &&& n <= run.commands@.len()
            &&& run.asked(outcomes) == run.commands@.take(n as int)
            &&& now.commands == run.commands
            &&& now.position == n
            &&& now.failed <==> n > 0 && !outcomes.last() && run.commands@[n - 1].can_fail()
            &&& forall|i: int|
                0 <= i < n - 1 ==> #[trigger] outcomes[i] || !run.commands@[i].can_fail()
            &&& now.next() is None <==> now.failed || n == run.commands@.len()
        }),
    decreases outcomes.len(),
{
    if outcomes.len() > 0 {
        let before = outcomes.drop_last();
        let last = outcomes.len() - 1;
        assert forall|i: int| 0 <= i < before.len() implies (#[trigger] run.after(
            before.take(i),
        )).next() is Some by {
            assert(before.take(i) == outcomes.take(i));
            assert(run.after(outcomes.take(i)).next() is Some);
        }
        law_command_run(run, before);
        assert(outcomes.take(last) == before);
        assert(run.after(outcomes.take(last)).next() is Some);
        assert forall|i: int| 0 <= i < last implies #[trigger] outcomes[i]
            || !run.commands@[i].can_fail() by {
            assert(before[i] == outcomes[i]);
        }
        assert forall|i: int| 0 <= i < outcomes.len() implies run.asked(outcomes)[i]
            == run.commands@[i] by {
            if i < last {
                assert(before.take(i) == outcomes.take(i));
                assert(run.asked(before)[i] == run.commands@.take(last)[i]);
            }
        }
    }
    assert(run.asked(outcomes) =~= run.commands@.take(outcomes.len() as int));
}

/// Where the first command to fail is the one at `k`, the commands up to and
/// with that one are carried out, and no more; the run has failed then.
pub proof fn law_first_failure(run: CommandRun, k: nat, outcomes: Seq<bool>)
    requires
        run.is_fresh(),
        k < run.commands@.len(),
        outcomes.len() == k + 1,
        !outcomes[k as int],
        run.commands@[k as int].can_fail(),
        forall|i: int| 0 <= i < k ==> #[trigger] outcomes[i] || !run.commands@[i].can_fail(),
    ensures
        run.asks_for_all(outcomes),
        run.asked(outcomes) == run.commands@.take(k as int + 1),
        run.after(outcomes).failed,
        run.after(outcomes).next() is None,
{
    lemma_asked_until_failure(run, outcomes);
    law_command_run(run, outcomes);
}

/// Where no command fails, each is carried out once, and the run has not failed.
pub proof fn law_no_failure(run: CommandRun, outcomes: Seq<bool>)
    requires
        run.is_fresh(),
        outcomes.len() == run.commands@.len(),
        forall|i: int|
            0 <= i < outcomes.len() ==> #[trigger] outcomes[i] || !run.commands@[i].can_fail(),
    ensures
        run.asks_for_all(outcomes),
        run.asked(outcomes) == run.commands@,
        !run.after(outcomes).failed,
        run.after(outcomes).next() is None,
{
    lemma_asked_until_failure(run, outcomes);
    law_command_run(run, outcomes);
    assert(run.commands@.take(outcomes.len() as int) == run.commands@);
}

/// Commands are asked for as long as those before did not fail.
proof fn lemma_asked_until_failure(run: CommandRun, outcomes: Seq<bool>)
    requires
        run.is_fresh(),
        outcomes.len() <= run.commands@.len(),
        forall|i: int|
            0 <= i < outcomes.len() - 1 ==> #[trigger] outcomes[i]
                || !run.commands@[i].can_fail(),
    ensures
        run.asks_for_all(outcomes),
    decreases outcomes.len(),
{
    if outcomes.len() > 0 {
        let before = outcomes.drop_last();
        let last = outcomes.len() - 1;
        assert forall|i: int| 0 <= i < before.len() - 1 implies #[trigger] before[i]
            || !run.commands@[i].can_fail() by {
            assert(outcomes[i] || !run.commands@[i].can_fail());
        }
        lemma_asked_until_failure(run, before);
        law_command_run(run, before);
        assert(before.len() > 0 ==> before.last() == outcomes[last - 1]);
        assert forall|i: int| 0 <= i < outcomes.len() implies (#[trigger] run.after(
            outcomes.take(i),
        )).next() is Some by {
            if i < last {
                assert(before.take(i) == outcomes.take(i));
                assert(run.after(before.take(i)).next() is Some);
            } else {
                assert(outcomes.take(i) == before);
            }
        }
    }
}

/// Pausing `n` tasks: if task `k` is the first that cannot be held, the tasks up
/// to it have been asked to hold, once each and in order, and no other has; if
/// every task can, each has been.
pub proof fn law_pause_all(run: CommandRun, n: nat, k: nat, outcomes: Seq<bool>)
    requires
        run.is_fresh(),
        run.commands@ == holds(n),
        k <= n,
        outcomes.len() == if k < n {
            k + 1
        } else {
            n
        },
        forall|i: int| 0 <= i < outcomes.len() ==> (#[trigger] outcomes[i] <==> i < k),
    ensures
        run.asks_for_all(outcomes),
        run.asked(outcomes) == holds(outcomes.len()),
        run.asked(outcomes).len() == if k < n {
            k + 1
        } else {
            n
        },
        forall|i: int|
            0 <= i < outcomes.len() ==> #[trigger] run.asked(outcomes)[i] == TaskCommand::Hold(
                i as usize,
            ),
        run.after(outcomes).failed <==> k < n,
        run.after(outcomes).next() is None,
{
    if k < n {
        assert(outcomes[k as int] <==> k < k);
        law_first_failure(run, k, outcomes);
    } else {
        law_no_failure(run, outcomes);
    }
    assert(run.commands@.take(outcomes.len() as int) =~= holds(outcomes.len()));
    assert(holds(n).take(n as int) =~= holds(n));
}

/// Resuming `n` tasks: if task `k` is the first that cannot be run, the tasks up
/// to it have been asked to run, once each and in order, and no other has; if
/// every task can, each has been.
pub proof fn law_resume_all(run: CommandRun, n: nat, k: nat, outcomes: Seq<bool>)
    requires
        run.is_fresh(),
        run.commands@ == runs(n),
        k <= n,
        outcomes.len() == if k < n {
            k + 1
        } else {
            n
        },
        forall|i: int| 0 <= i < outcomes.len() ==> (#[trigger] outcomes[i] <==> i < k),
    ensures
        run.asks_for_all(outcomes),
        run.asked(outcomes) == runs(outcomes.len()),
        run.asked(outcomes).len() == if k < n {
            k + 1
        } else {
            n
        },
        forall|i: int|
            0 <= i < outcomes.len() ==> #[trigger] run.asked(outcomes)[i] == TaskCommand::Run(
                i as usize,
            ),
        run.after(outcomes).failed <==> k < n,
        run.after(outcomes).next() is None,
{
    if k < n {
        assert(outcomes[k as int] <==> k < k);
        law_first_failure(run, k, outcomes);
    } else {
        law_no_failure(run, outcomes);
    }
    assert(run.commands@.take(outcomes.len() as int) =~= runs(outcomes.len()));
    assert(runs(n).take(n as int) =~= runs(n));
}

/// Ending `n` tasks: every task is asked to come to an end before any thread is
/// waited for. If thread `k` is the first that failed, the threads up to it have
/// been waited for, in order, and no other has; if none failed, each has been.
/// `exited` are the outcomes of asking, which do not matter; `joined` those of
/// waiting.
pub proof fn law_exit_all(
    run: CommandRun,
    n: nat,
    k: nat,
    exited: Seq<bool>,
    joined: Seq<bool>,
)
    requires
        run.is_fresh(),
        run.commands@ == exits(n) + joins(n),
        k <= n,
        exited.len() == n,
        joined.len() == if k < n {
            k + 1
        } else {
            n
        },
        forall|i: int| 0 <= i < joined.len() ==> (#[trigger] joined[i] <==> i < k),
    ensures
        ({
            let outcomes = exited + joined;
            &&& run.asks_for_all(outcomes)
            &&& run.asked(outcomes) == exits(n) + joins(joined.len())
            &&& run.asked(outcomes).len() == n + joined.len()
            &&& forall|i: int|
                0 <= i < n ==> #[trigger] run.asked(outcomes)[i] == TaskCommand::Exit(i as usize)
            &&& forall|i: int|
                n <= i < n + joined.len() ==> #[trigger] run.asked(outcomes)[i]
                    == TaskCommand::Join((i - n) as usize)
            &&& run.after(outcomes).failed <==> k < n
            &&& run.after(outcomes).next() is None
        }),
{
    let outcomes = exited + joined;
    assert forall|i: int| 0 <= i < n + k && i < outcomes.len() implies #[trigger] outcomes[i]
        || !run.commands@[i].can_fail() by {
        if i >= n {
            assert(joined[i - n] <==> i - n < k);
        }
    }
    if k < n {
        assert(joined[k as int] <==> k < k);
        law_first_failure(run, n + k, outcomes);
    } else {
        law_no_failure(run, outcomes);
    }
    assert(run.commands@.take(outcomes.len() as int) =~= exits(n) + joins(joined.len()));
    assert(run.commands@.take((n + n) as int) =~= run.commands@);
}

/// Commands to `n` tasks name each task once, in order: the one at place `i` is
/// for task `i`.
pub proof fn law_every_task_is_named(n: nat, i: int)
    requires
        0 <= i < n,
    ensures
        holds(n).len() == n && holds(n)[i] == TaskCommand::Hold(i as usize),
        runs(n).len() == n && runs(n)[i] == TaskCommand::Run(i as usize),
        exits(n).len() == n && exits(n)[i] == TaskCommand::Exit(i as usize),
        joins(n).len() == n && joins(n)[i] == TaskCommand::Join(i as usize),
{
}

/// No two commands of a pause, and none of a resumption, are for the same task,
/// and every task is named by one of them.
pub proof fn law_no_task_twice(n: nat, task: usize)
    requires
        n <= usize::MAX,
    ensures
        task < n <==> holds(n).contains(TaskCommand::Hold(task)),
        task < n <==> runs(n).contains(TaskCommand::Run(task)),
        task < n <==> exits(n).contains(TaskCommand::Exit(task)),
        task < n <==> joins(n).contains(TaskCommand::Join(task)),
        holds(n).no_duplicates(),
        runs(n).no_duplicates(),
        exits(n).no_duplicates(),
        joins(n).no_duplicates(),
{
    if task < n {
        assert(holds(n)[task as int] == TaskCommand::Hold(task));
        assert(runs(n)[task as int] == TaskCommand::Run(task));
        assert(exits(n)[task as int] == TaskCommand::Exit(task));
        assert(joins(n)[task as int] == TaskCommand::Join(task));
    }
}

/// One command after another: carrying the next one out moves on by one. A run
/// goes on unless the command failed; a failed request to exit is no failure.
/// A fresh run starts at its first command.
pub proof fn law_one_command(run: CommandRun, ok: bool)
    ensures
        run.is_fresh() <==> run.position == 0 && !run.failed,
        run.next() is Some <==> !run.failed && run.position < run.commands@.len(),
        run.next() matches Some(command) ==> {
            let then = run.advanced(ok);
            &&& command == run.commands@[run.position as int]
            &&& then.commands == run.commands
            &&& then.position == run.position + 1
            &&& then.failed <==> !ok && (command is Hold || command is Run || command is Join)
        },
{
}

/// The host CPU for a vCPU is the one named at its place, where some are named;
/// they pair up exactly where as many are named as there are vCPUs, or none.
pub proof fn law_bindings(vcpus: nat, bind_cpus: Option<Vec<i32>>, i: int)
    requires
        0 <= i < vcpus,
    ensures
        cpu_bindings(vcpus, named(bind_cpus)).len() == vcpus,
        bind_cpus is None ==> pairs_up(vcpus, named(bind_cpus)) && cpu_bindings(
            vcpus,
            named(bind_cpus),
        )[i] is None,
        bind_cpus matches Some(cpus) ==> {
            &&& pairs_up(vcpus, named(bind_cpus)) <==> cpus@.len() == vcpus
            &&& cpu_bindings(vcpus, named(bind_cpus))[i] == Some(cpus@[i])
        },
{
}

/// Without vCPUs there is nothing to bind, and host CPUs pair up with that only
/// where none is named.
pub proof fn law_no_vcpus(bind_cpus: Option<Vec<i32>>)
    ensures
        cpu_bindings(0, named(bind_cpus)).len() == 0,
        pairs_up(0, named(bind_cpus)) <==> (bind_cpus matches Some(cpus) ==> cpus@.len() == 0),
{
}

/// A starter is sound exactly while no more threads have been started than
/// there are vCPUs.
pub proof fn law_starter<T>(starter: TaskStarter<T>)
    ensures
        starter.wf() <==> starter.started@.len() <= starter.bindings@.len(),
        starter.next() is Some <==> starter.started@.len() < starter.bindings@.len(),
        starter.next() matches Some(spawn) ==> spawn.vcpu == starter.started@.len()
            && spawn.bind_cpu == starter.bindings@[spawn.vcpu as int],
{
}

/// A reset moves on to the next generation, and from the last one to the first.
pub proof fn law_one_reset(generation: usize)
    ensures
        generation < usize::MAX ==> generation_after(generation, 1) == generation + 1,
        generation == usize::MAX ==> generation_after(generation, 1) == 0,
{
    lemma_generation_after(generation, 1);
}

} // verus!
