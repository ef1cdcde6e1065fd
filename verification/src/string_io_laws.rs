//! What holds of a string I/O emulation as a whole.
use vstd::prelude::*;

use crate::instruction::{StringIo, Width};
use crate::string_io::{
    address_register, element_addr, low_bytes, Register, Stage, StringIoAction, StringIoEmulation, FLOATING_BUS,
};

verus! {

impl StringIoEmulation {
    /// The state after a sequence of outcomes.
    pub open spec fn after(self, outcomes: Seq<Option<u64>>) -> Self
        decreases outcomes.len(),
    {
        if outcomes.len() == 0 {
            self
        } else {
            self.after(outcomes.drop_last()).next(outcomes.last())
        }
    }

    /// The actions that those were the outcomes of.
    pub open spec fn actions(self, outcomes: Seq<Option<u64>>) -> Seq<StringIoAction> {
        Seq::new(outcomes.len(), |i: int| self.after(outcomes.take(i)).wants())
    }

    /// How many outcomes it takes at most until nothing more is asked for.
    pub open spec fn rank(self) -> nat {
        match self.stage {
            Stage::Done { .. } => 0,
            Stage::WriteRip => 1,
            Stage::WriteCount => 2,
            Stage::WriteAddress => 3,
            Stage::Store { left, .. } => (2 * left + 4) as nat,
            Stage::Load { left } => (2 * left + 5) as nat,
            Stage::AcquireMemory { left } => (2 * left + 6) as nat,
            Stage::ReadCount => (2 * u64::MAX + 5) as nat,
            Stage::ReadAddress => (2 * u64::MAX + 6) as nat,
            Stage::ReadFlags => (2 * u64::MAX + 7) as nat,
            Stage::ReadPort => (2 * u64::MAX + 8) as nat,
        }
    }

    /// Whether the emulation is still finding out what to do.
    pub open spec fn preparing(self) -> bool {
        self.stage is ReadPort || self.stage is ReadFlags || self.stage is ReadAddress
            || self.stage is ReadCount || self.stage is AcquireMemory
    }

    /// Whether the emulation has all elements behind it.
    pub open spec fn concluding(self) -> bool {
        self.stage is WriteAddress || self.stage is WriteCount || self.stage is WriteRip
            || self.stage is Done
    }
}

/// Whether an action only looks at registers or memory.
pub open spec fn only_looks(action: StringIoAction) -> bool {
    action is ReadReg || action is AcquireMemory || action is ReadMem
}

/// Whether an action may fail without consequence.
pub open spec fn may_fail(action: StringIoAction) -> bool {
    action is PortIn || action is PortOut || action is WriteMem
}

/// The registers read first.
pub open spec fn register_reads(inst: StringIo) -> Seq<StringIoAction> {
    let always = seq![
        StringIoAction::ReadReg(Register::Rdx),
        StringIoAction::ReadReg(Register::Rflags),
        StringIoAction::ReadReg(address_register(inst)),
    ];
    if inst.has_rep {
        always.push(StringIoAction::ReadReg(Register::Rcx))
    } else {
        always
    }
}

/// Outcomes of those reads.
pub open spec fn register_values(
    inst: StringIo,
    rdx: u64,
    rflags: u64,
    addr: u64,
    rcx: u64,
) -> Seq<Option<u64>> {
    let always = seq![Some(rdx), Some(rflags), Some(addr)];
    if inst.has_rep {
        always.push(Some(rcx))
    } else {
        always
    }
}

/// What comes in with a fetch.
pub open spec fn fetched(outcome: Option<u64>, width: Width) -> u32 {
    low_bytes(
        match outcome {
            Some(value) => value,
            None => FLOATING_BUS,
        },
        width,
    )
}

/// Moving a string: element by element, a fetch with an outcome and a delivery
/// of what was fetched.
pub open spec fn moves(
    inst: StringIo,
    port: u16,
    backward: bool,
    addr: u64,
    outcomes: Seq<Option<u64>>,
) -> Seq<StringIoAction> {
    let width = inst.width;
    Seq::new(
        outcomes.len(),
        |j: int|
            {
                let at = element_addr(addr, backward, width, (j / 2) as nat);
                if j % 2 == 0 {
                    if inst.is_out {
                        StringIoAction::ReadMem { addr: at, width }
                    } else {
                        StringIoAction::PortIn { port, width }
                    }
                } else {
                    let data = fetched(outcomes[j - 1], width);
                    if inst.is_out {
                        StringIoAction::PortOut { port, width, data }
                    } else {
                        StringIoAction::WriteMem { addr: at, width, data }
                    }
                }
            },
    )
}

/// The registers written last.
pub open spec fn register_writes(inst: StringIo, addr: u64, rip: u64) -> Seq<StringIoAction> {
    let address = seq![StringIoAction::WriteReg(address_register(inst), addr)];
    let count = if inst.has_rep {
        seq![StringIoAction::WriteReg(Register::Rcx, 0)]
    } else {
        seq![]
    };
    address + count + seq![StringIoAction::WriteReg(Register::Rip, rip)]
}

proof fn lemma_after_concat(
    from: StringIoEmulation,
    first: Seq<Option<u64>>,
    second: Seq<Option<u64>>,
)
    ensures
        from.after(first + second) == from.after(first).after(second),
    decreases second.len(),
{
    if second.len() == 0 {
        assert(first + second == first);
    } else {
        assert((first + second).drop_last() == first + second.drop_last());
        lemma_after_concat(from, first, second.drop_last());
    }
}

proof fn lemma_actions_concat(
    from: StringIoEmulation,
    first: Seq<Option<u64>>,
    second: Seq<Option<u64>>,
)
    ensures
        from.actions(first + second) == from.actions(first) + from.after(first).actions(second),
{
    let both = first + second;
    assert forall|i: int| 0 <= i < both.len() implies from.actions(both)[i] == (from.actions(first)
        + from.after(first).actions(second))[i] by {
        if i < first.len() {
            assert(both.take(i) == first.take(i));
        } else {
            assert(both.take(i) == first + second.take(i - first.len()));
            lemma_after_concat(from, first, second.take(i - first.len()));
        }
    }
    assert(from.actions(both) =~= from.actions(first) + from.after(first).actions(second));
}

proof fn lemma_one_action(from: StringIoEmulation, outcome: Option<u64>)
    ensures
        from.after(seq![outcome]) == from.next(outcome),
        from.actions(seq![outcome]) == seq![from.wants()],
{
    let one = seq![outcome];
    assert(one.drop_last() == Seq::<Option<u64>>::empty());
    assert(from.after(one.drop_last()) == from);
    assert(one.take(0) == Seq::<Option<u64>>::empty());
    assert(from.actions(one) =~= seq![from.wants()]);
}

/// Element after element: what is next to element `i` is element `i + 1`.
proof fn lemma_next_element(addr: u64, backward: bool, width: Width, i: nat)
    ensures
        element_addr(element_addr(addr, backward, width, 1), backward, width, i) == element_addr(
            addr,
            backward,
            width,
            i + 1,
        ),
{
    assert((i + 1) * width.size() == i * width.size() + width.size()) by (nonlinear_arith);
}

/// The registers, when each can be read, tell the port, the direction, the
/// address and the count.
#[verifier::rlimit(40)]
proof fn lemma_registers(
    inst: StringIo,
    exit_rip: u64,
    rdx: u64,
    rflags: u64,
    addr: u64,
    rcx: u64,
)
    ensures
        ({
            let start = StringIoEmulation::start(inst, exit_rip);
            let values = register_values(inst, rdx, rflags, addr, rcx);
            &&& start.actions(values) == register_reads(inst)
            &&& start.after(values) == StringIoEmulation {
                inst,
                exit_rip,
                port: (rdx % 0x1_0000) as u16,
                backward: (rflags / 0x400) % 2 == 1,
                addr,
                stage: if !inst.has_rep {
                    Stage::AcquireMemory { left: 0 }
                } else if rcx == 0 {
                    Stage::WriteRip
                } else {
                    Stage::AcquireMemory { left: (rcx - 1) as u64 }
                },
            }
        }),
{
    let s0 = StringIoEmulation::start(inst, exit_rip);
    let s1 = s0.next(Some(rdx));
    let s2 = s1.next(Some(rflags));
    let s3 = s2.next(Some(addr));
    let first = seq![Some(rdx)];
    let second = seq![Some(rflags)];
    let third = seq![Some(addr)];
    lemma_one_action(s0, Some(rdx));
    lemma_one_action(s1, Some(rflags));
    lemma_one_action(s2, Some(addr));
    lemma_one_action(s3, Some(rcx));
    lemma_after_concat(s0, first, second);
    lemma_actions_concat(s0, first, second);
    lemma_after_concat(s0, first + second, third);
    lemma_actions_concat(s0, first + second, third);
    let three = first + second + third;
    assert(three == seq![Some(rdx), Some(rflags), Some(addr)]);
    assert(s0.actions(three) == seq![s0.wants(), s1.wants(), s2.wants()]);
    lemma_after_concat(s0, three, seq![Some(rcx)]);
    lemma_actions_concat(s0, three, seq![Some(rcx)]);
    assert(three + seq![Some(rcx)] == three.push(Some(rcx)));
    assert(s0.actions(three) + seq![s3.wants()] == s0.actions(three).push(s3.wants()));
}

/// Registers that can be read, with something to move, and memory that can be
/// had lead to the first element.
proof fn lemma_first_load(
    inst: StringIo,
    exit_rip: u64,
    rdx: u64,
    rflags: u64,
    addr: u64,
    count: u64,
    memory: u64,
)
    requires
        count > 0,
        !inst.has_rep ==> count == 1,
    ensures
        ({
            let start = StringIoEmulation::start(inst, exit_rip);
            let so_far = register_values(inst, rdx, rflags, addr, count) + seq![Some(memory)];
            &&& start.actions(so_far) == register_reads(inst)
                + seq![StringIoAction::AcquireMemory]
            &&& start.after(so_far) == StringIoEmulation {
                inst,
                exit_rip,
                port: (rdx % 0x1_0000) as u16,
                backward: (rflags / 0x400) % 2 == 1,
                addr,
                stage: Stage::Load { left: (count - 1) as u64 },
            }
        }),
{
    let start = StringIoEmulation::start(inst, exit_rip);
    let values = register_values(inst, rdx, rflags, addr, count);
    lemma_registers(inst, exit_rip, rdx, rflags, addr, count);
    lemma_one_action(start.after(values), Some(memory));
    lemma_after_concat(start, values, seq![Some(memory)]);
    lemma_actions_concat(start, values, seq![Some(memory)]);
}

/// Moving a string is moving its first element, and then the string behind it.
proof fn lemma_moves_first(
    inst: StringIo,
    port: u16,
    backward: bool,
    addr: u64,
    outcomes: Seq<Option<u64>>,
)
    requires
        outcomes.len() >= 2,
    ensures
        ({
            let all = moves(inst, port, backward, addr, outcomes);
            let beyond = element_addr(addr, backward, inst.width, 1);
            let rest = moves(inst, port, backward, beyond, outcomes.skip(2));
            all == moves(inst, port, backward, addr, outcomes.take(2)) + rest
        }),
{
    let all = moves(inst, port, backward, addr, outcomes);
    let beyond = element_addr(addr, backward, inst.width, 1);
    let tail = outcomes.skip(2);
    let rest = moves(inst, port, backward, beyond, tail);
    let first = moves(inst, port, backward, addr, outcomes.take(2));
    assert forall|j: int| 2 <= j < all.len() implies #[trigger] all[j] == rest[j - 2] by {
        lemma_next_element(addr, backward, inst.width, ((j - 2) / 2) as nat);
        assert(j / 2 == (j - 2) / 2 + 1);
        assert(j % 2 == (j - 2) % 2);
        assert(j % 2 == 1 ==> tail[j - 3] == outcomes[j - 1]);
    }
    assert(all =~= first + rest);
}

/// Moving one element takes two outcomes.
#[verifier::rlimit(40)]
proof fn lemma_move_one(from: StringIoEmulation, left: u64, outcomes: Seq<Option<u64>>)
    requires
        from.stage == (Stage::Load { left }),
        outcomes.len() == 2,
        from.inst.is_out ==> outcomes[0] is Some,
    ensures
        from.actions(outcomes) == moves(
            from.inst,
            from.port,
            from.backward,
            from.addr,
            outcomes,
        ),
        from.after(outcomes) == (StringIoEmulation {
            addr: element_addr(from.addr, from.backward, from.inst.width, 1),
            stage: if left == 0 {
                Stage::WriteAddress
            } else {
                Stage::Load { left: (left - 1) as u64 }
            },
            ..from
        }),
{
    let stored = from.next(outcomes[0]);
    lemma_one_action(from, outcomes[0]);
    lemma_one_action(stored, outcomes[1]);
    assert(outcomes == seq![outcomes[0]] + seq![outcomes[1]]);
    lemma_after_concat(from, seq![outcomes[0]], seq![outcomes[1]]);
    lemma_actions_concat(from, seq![outcomes[0]], seq![outcomes[1]]);
    assert(element_addr(from.addr, from.backward, from.inst.width, 0) == from.addr);
    assert(from.actions(outcomes) =~= moves(
        from.inst,
        from.port,
        from.backward,
        from.addr,
        outcomes,
    ));
}

/// Moving an element and `more` further ones takes two outcomes for each and
/// leaves the address behind the last one.
#[verifier::rlimit(40)]
proof fn lemma_moves(from: StringIoEmulation, left: u64, more: nat, outcomes: Seq<Option<u64>>)
    requires
        from.stage == (Stage::Load { left }),
        more <= left,
        outcomes.len() == 2 * (more + 1),
        from.inst.is_out ==> forall|i: int|
            0 <= i < outcomes.len() && i % 2 == 0 ==> #[trigger] outcomes[i] is Some,
    ensures
        from.actions(outcomes) == moves(
            from.inst,
            from.port,
            from.backward,
            from.addr,
            outcomes,
        ),
        from.after(outcomes) == (StringIoEmulation {
            addr: element_addr(from.addr, from.backward, from.inst.width, more + 1),
            stage: if more == left {
                Stage::WriteAddress
            } else {
                Stage::Load { left: (left - more - 1) as u64 }
            },
            ..from
        }),
    decreases more,
{
    let head = outcomes.take(2);
    let tail = outcomes.skip(2);
    assert(from.inst.is_out ==> outcomes[0] is Some);
    lemma_move_one(from, left, head);
    if more == 0 {
        assert(outcomes == head);
    } else {
        let then = from.after(head);
        assert forall|i: int| 0 <= i < tail.len() && i % 2 == 0 && from.inst.is_out implies (
        #[trigger] tail[i]) is Some by {
            assert(outcomes[i + 2] is Some);
        }
        lemma_moves(then, (left - 1) as u64, (more - 1) as nat, tail);
        assert(outcomes == head + tail);
        lemma_after_concat(from, head, tail);
        lemma_actions_concat(from, head, tail);
        lemma_next_element(from.addr, from.backward, from.inst.width, more);
        lemma_moves_first(from.inst, from.port, from.backward, from.addr, outcomes);
    }
}

/// Moving no elements leaves everything as it is.
proof fn lemma_no_moves(from: StringIoEmulation)
    ensures
        from.after(seq![]) == from,
        from.actions(seq![]) == moves(from.inst, from.port, from.backward, from.addr, seq![]),
        element_addr(from.addr, from.backward, from.inst.width, 0) == from.addr,
{
    assert(from.actions(seq![]) =~= moves(
        from.inst,
        from.port,
        from.backward,
        from.addr,
        seq![],
    ));
}

/// Writing the registers back ends the emulation.
proof fn lemma_register_writes(from: StringIoEmulation, outcomes: Seq<Option<u64>>)
    requires
        from.stage is WriteAddress,
        outcomes.len() == register_writes(from.inst, from.addr, from.next_rip() as u64).len(),
        forall|i: int| 0 <= i < outcomes.len() ==> #[trigger] outcomes[i] is Some,
    ensures
        from.actions(outcomes) == register_writes(from.inst, from.addr, from.next_rip() as u64),
        from.after(outcomes) == from.at(Stage::Done { handled: true }),
{
    let first = seq![outcomes[0]];
    let second = seq![outcomes[1]];
    let one = from.next(outcomes[0]);
    let two = one.next(outcomes[1]);
    assert(outcomes[0] is Some && outcomes[1] is Some);
    lemma_one_action(from, outcomes[0]);
    lemma_one_action(one, outcomes[1]);
    lemma_after_concat(from, first, second);
    lemma_actions_concat(from, first, second);
    if from.inst.has_rep {
        let third = seq![outcomes[2]];
        assert(outcomes[2] is Some);
        lemma_one_action(two, outcomes[2]);
        lemma_after_concat(from, first + second, third);
        lemma_actions_concat(from, first + second, third);
        assert(outcomes == first + second + third);
    } else {
        assert(outcomes == first + second);
    }
    assert(from.actions(outcomes) =~= register_writes(
        from.inst,
        from.addr,
        from.next_rip() as u64,
    ));
}

/// An instruction is carried out in full, and in this order: the registers
/// that say what to do are read; access to guest memory is got; each element is
/// fetched and delivered, the first at the address read and every further one
/// beside the one before, upward or, with the direction flag, downward; the
/// address behind the last element, a count of zero where there is one, and the
/// address of the next instruction are written back. It moves as many elements
/// as RCX says with a repeat prefix, and one without.
///
/// That is so whenever no register access, no access to memory and, for OUTS,
/// no read of memory fails. Ports that do not answer and writes to memory that
/// fail make no difference. An instruction at the very end of the address space
/// is left out: it has no next one to write the address of.
#[verifier::rlimit(40)]
pub proof fn law_complete_run(
    inst: StringIo,
    exit_rip: u64,
    rdx: u64,
    rflags: u64,
    addr: u64,
    count: u64,
    memory: u64,
    moved: Seq<Option<u64>>,
    written: Seq<Option<u64>>,
)
    requires
        exit_rip + inst.inst_len <= u64::MAX,
        count > 0,
        !inst.has_rep ==> count == 1,
        moved.len() == 2 * count,
        inst.is_out ==> forall|i: int|
            0 <= i < moved.len() && i % 2 == 0 ==> #[trigger] moved[i] is Some,
        written.len() == if inst.has_rep {
            3int
        } else {
            2
        },
        forall|i: int| 0 <= i < written.len() ==> #[trigger] written[i] is Some,
    ensures
        ({
            let start = StringIoEmulation::start(inst, exit_rip);
            let port = (rdx % 0x1_0000) as u16;
            let backward = (rflags / 0x400) % 2 == 1;
            let end = element_addr(addr, backward, inst.width, count as nat);
            let rip = (exit_rip + inst.inst_len) as u64;
            let outcomes = register_values(inst, rdx, rflags, addr, count) + seq![Some(memory)]
                + moved + written;
            &&& start.actions(outcomes) == register_reads(inst)
                + seq![StringIoAction::AcquireMemory] + moves(inst, port, backward, addr, moved)
                + register_writes(inst, end, rip)
            &&& start.after(outcomes).wants() == (StringIoAction::Finish { handled: true })
        }),
{
    let start = StringIoEmulation::start(inst, exit_rip);
    let so_far = register_values(inst, rdx, rflags, addr, count) + seq![Some(memory)];
    lemma_first_load(inst, exit_rip, rdx, rflags, addr, count, memory);
    let loading = start.after(so_far);
    lemma_moves(loading, (count - 1) as u64, (count - 1) as nat, moved);
    lemma_after_concat(start, so_far, moved);
    lemma_actions_concat(start, so_far, moved);
    let all_moved = start.after(so_far + moved);
    lemma_register_writes(all_moved, written);
    lemma_after_concat(start, so_far + moved, written);
    lemma_actions_concat(start, so_far + moved, written);
}

/// An OUTS whose memory cannot be read after `k` elements has moved exactly
/// those, and is declined.
#[verifier::rlimit(40)]
pub proof fn law_failed_read(
    inst: StringIo,
    exit_rip: u64,
    rdx: u64,
    rflags: u64,
    addr: u64,
    count: u64,
    memory: u64,
    k: nat,
    moved: Seq<Option<u64>>,
)
    requires
        inst.is_out,
        k < count,
        !inst.has_rep ==> count == 1,
        moved.len() == 2 * k,
        forall|i: int| 0 <= i < moved.len() && i % 2 == 0 ==> #[trigger] moved[i] is Some,
    ensures
        ({
            let start = StringIoEmulation::start(inst, exit_rip);
            let port = (rdx % 0x1_0000) as u16;
            let backward = (rflags / 0x400) % 2 == 1;
            let outcomes = register_values(inst, rdx, rflags, addr, count) + seq![Some(memory)]
                + moved + seq![None];
            let unread = StringIoAction::ReadMem {
                addr: element_addr(addr, backward, inst.width, k),
                width: inst.width,
            };
            &&& start.actions(outcomes) == register_reads(inst)
                + seq![StringIoAction::AcquireMemory] + moves(inst, port, backward, addr, moved)
                + seq![unread]
            &&& start.after(outcomes).wants() == (StringIoAction::Finish { handled: false })
        }),
{
    let start = StringIoEmulation::start(inst, exit_rip);
    let so_far = register_values(inst, rdx, rflags, addr, count) + seq![Some(memory)];
    lemma_first_load(inst, exit_rip, rdx, rflags, addr, count, memory);
    let loading = start.after(so_far);
    if k == 0 {
        assert(moved == Seq::<Option<u64>>::empty());
        lemma_no_moves(loading);
    } else {
        lemma_moves(loading, (count - 1) as u64, (k - 1) as nat, moved);
    }
    lemma_after_concat(start, so_far, moved);
    lemma_actions_concat(start, so_far, moved);
    lemma_one_action(start.after(so_far + moved), None);
    lemma_after_concat(start, so_far + moved, seq![None]);
    lemma_actions_concat(start, so_far + moved, seq![None]);
}

/// With a repeat prefix and a count of zero the instruction is skipped: only
/// the address of the next one is written, where there is one.
pub proof fn law_zero_count(
    inst: StringIo,
    exit_rip: u64,
    rdx: u64,
    rflags: u64,
    addr: u64,
    written: u64,
)
    requires
        exit_rip + inst.inst_len <= u64::MAX,
        inst.has_rep,
    ensures
        ({
            let start = StringIoEmulation::start(inst, exit_rip);
            let rip = (exit_rip + inst.inst_len) as u64;
            let outcomes = register_values(inst, rdx, rflags, addr, 0) + seq![Some(written)];
            &&& start.actions(outcomes) == register_reads(inst)
                + seq![StringIoAction::WriteReg(Register::Rip, rip)]
            &&& start.after(outcomes).wants() == (StringIoAction::Finish { handled: true })
        }),
{
    let start = StringIoEmulation::start(inst, exit_rip);
    let values = register_values(inst, rdx, rflags, addr, 0);
    lemma_registers(inst, exit_rip, rdx, rflags, addr, 0);
    lemma_one_action(start.after(values), Some(written));
    lemma_after_concat(start, values, seq![Some(written)]);
    lemma_actions_concat(start, values, seq![Some(written)]);
}

/// An action that fails ends the emulation with the instruction declined,
/// unless it is a port access or a write to memory: those may fail.
pub proof fn law_failure_declines(emulation: StringIoEmulation)
    requires
        !(emulation.stage is Done),
    ensures
        may_fail(emulation.wants()) <==> !(emulation.next(None).wants() is Finish),
        !may_fail(emulation.wants()) ==> emulation.next(None).wants() == (StringIoAction::Finish {
            handled: false,
        }),
{
}

/// What has ended stays as it ended.
pub proof fn law_end_is_final(emulation: StringIoEmulation, outcomes: Seq<Option<u64>>)
    requires
        emulation.stage is Done,
    ensures
        emulation.after(outcomes) == emulation,
    decreases outcomes.len(),
{
    if outcomes.len() > 0 {
        law_end_is_final(emulation, outcomes.drop_last());
    }
}

/// Every outcome brings an emulation closer to its end.
pub proof fn law_progress(emulation: StringIoEmulation, outcome: Option<u64>)
    requires
        !(emulation.stage is Done),
    ensures
        emulation.next(outcome).rank() < emulation.rank(),
{
}

/// Every emulation ends, whatever comes back.
pub proof fn law_termination(emulation: StringIoEmulation, outcomes: Seq<Option<u64>>)
    requires
        outcomes.len() >= emulation.rank(),
    ensures
        emulation.after(outcomes).wants() is Finish,
{
    lemma_rank_falls(emulation, outcomes);
}

proof fn lemma_rank_falls(emulation: StringIoEmulation, outcomes: Seq<Option<u64>>)
    ensures
        emulation.after(outcomes).stage is Done || emulation.after(outcomes).rank()
            + outcomes.len() <= emulation.rank(),
    decreases outcomes.len(),
{
    if outcomes.len() > 0 {
        lemma_rank_falls(emulation, outcomes.drop_last());
    }
}

/// Nothing is changed before it is certain what to do: a port access, a write
/// to memory or a write to a register comes only after access to memory was
/// got, or after a count of zero was read.
pub proof fn law_no_effect_before_memory(
    inst: StringIo,
    exit_rip: u64,
    outcomes: Seq<Option<u64>>,
    i: int,
)
    requires
        0 <= i < outcomes.len(),
    ensures
        ({
            let actions = StringIoEmulation::start(inst, exit_rip).actions(outcomes);
            only_looks(actions[i]) || actions[i] is Finish || exists|j: int|
                0 <= j < i && certain(#[trigger] actions[j], outcomes[j])
        }),
{
    let start = StringIoEmulation::start(inst, exit_rip);
    let actions = start.actions(outcomes);
    let before = outcomes.take(i);
    lemma_certain(start, before);
    if exists|j: int| 0 <= j < i && certain(#[trigger] start.actions(before)[j], before[j]) {
        let j = choose|j: int|
            0 <= j < i && certain(#[trigger] start.actions(before)[j], before[j]);
        assert(before.take(j) == outcomes.take(j));
        assert(certain(actions[j], outcomes[j]));
    }
}

/// Whether the outcome of an action settles what an instruction has to do.
pub open spec fn certain(action: StringIoAction, outcome: Option<u64>) -> bool {
    ||| action is AcquireMemory && outcome is Some
    ||| action == StringIoAction::ReadReg(Register::Rcx) && outcome == Some(0u64)
}

proof fn lemma_certain(start: StringIoEmulation, outcomes: Seq<Option<u64>>)
    requires
        start.stage is ReadPort,
    ensures
        ({
            let now = start.after(outcomes);
            now.preparing() || now.stage == (Stage::Done { handled: false }) || exists|j: int|
                0 <= j < outcomes.len() && certain(
                    #[trigger] start.actions(outcomes)[j],
                    outcomes[j],
                )
        }),
    decreases outcomes.len(),
{
    if outcomes.len() > 0 {
        let before = outcomes.drop_last();
        let last = outcomes.len() - 1;
        lemma_certain(start, before);
        assert(outcomes.take(last) == before);
        assert(start.actions(outcomes)[last] == start.after(before).wants());
        if exists|j: int|
            0 <= j < before.len() && certain(#[trigger] start.actions(before)[j], before[j]) {
            let j = choose|j: int|
                0 <= j < before.len() && certain(#[trigger] start.actions(before)[j], before[j]);
            assert(before.take(j) == outcomes.take(j));
            assert(certain(start.actions(outcomes)[j], outcomes[j]));
        } else if !start.after(outcomes).preparing() && start.after(outcomes).stage != (Stage::Done {
            handled: false,
        }) {
            assert(certain(start.actions(outcomes)[last], outcomes[last]));
        }
    }
}

/// Registers are written last: once one has been, only further registers are.
/// So an instruction that is declined half way, because memory could not be
/// read, leaves every register as it was.
pub proof fn law_registers_written_last(
    from: StringIoEmulation,
    outcomes: Seq<Option<u64>>,
    i: int,
    j: int,
)
    requires
        0 <= i < j < outcomes.len(),
        from.actions(outcomes)[i] is WriteReg,
    ensures
        from.actions(outcomes)[j] is WriteReg || from.actions(outcomes)[j] is Finish,
{
    let between = outcomes.subrange(i, j);
    assert(outcomes.take(j) == outcomes.take(i) + between);
    lemma_after_concat(from, outcomes.take(i), between);
    lemma_stays_concluding(from.after(outcomes.take(i)), between);
}

proof fn lemma_stays_concluding(from: StringIoEmulation, outcomes: Seq<Option<u64>>)
    requires
        from.concluding(),
    ensures
        from.after(outcomes).concluding(),
    decreases outcomes.len(),
{
    if outcomes.len() > 0 {
        lemma_stays_concluding(from, outcomes.drop_last());
    }
}

/// Going down undoes going up: stepping `i` elements forth and then `i`
/// elements back, in either order, ends at the same address.
pub proof fn law_directions_are_inverse(addr: u64, backward: bool, width: Width, i: nat)
    ensures
        element_addr(element_addr(addr, backward, width, i), !backward, width, i) == addr,
{
}

/// What is fetched is delivered. OUTS reads memory at the current address and
/// sends what stood there out at its port; INS reads its port and stores what
/// came in at the current address. What is delivered is the fetched value modulo
/// 2^8, 2^16 or 2^32, by the width, so a value that fits is delivered unchanged;
/// it is all ones where a port does not answer. An OUTS that cannot read memory
/// is declined.
pub proof fn law_element(emulation: StringIoEmulation, outcome: Option<u64>)
    requires
        emulation.stage is Load,
    ensures
        ({
            let StringIoEmulation { inst, port, addr, .. } = emulation;
            let width = inst.width;
            let delivery = emulation.next(outcome).wants();
            let data = if inst.is_out {
                delivery->PortOut_data
            } else {
                delivery->WriteMem_data
            };
            &&& inst.is_out ==> emulation.wants() == (StringIoAction::ReadMem { addr, width })
            &&& !inst.is_out ==> emulation.wants() == (StringIoAction::PortIn { port, width })
            &&& inst.is_out && outcome is None ==> delivery == (StringIoAction::Finish {
                handled: false,
            })
            &&& inst.is_out && outcome is Some ==> delivery == (StringIoAction::PortOut {
                port,
                width,
                data,
            })
            &&& !inst.is_out ==> delivery == (StringIoAction::WriteMem { addr, width, data })
            &&& outcome matches Some(value) ==> {
                &&& width is Byte ==> data == value % 0x100 && (value < 0x100 ==> data == value)
                &&& width is Word ==> data == value % 0x1_0000 && (value < 0x1_0000 ==> data
                    == value)
                &&& width is Dword ==> data == value % 0x1_0000_0000 && (value < 0x1_0000_0000
                    ==> data == value)
            }
            &&& outcome is None && !inst.is_out ==> {
                &&& width is Byte ==> data == 0xFF
                &&& width is Word ==> data == 0xFFFF
                &&& width is Dword ==> data == 0xFFFF_FFFF
            }
        }),
{
}

/// Behind an element stands the next, as many bytes on as the width has, upward
/// or, with the direction flag, downward, around the end of the address space.
/// Whether the delivery failed makes no difference. Behind the last element, and
/// nowhere else, the address is written back.
pub proof fn law_next_element(emulation: StringIoEmulation, outcome: Option<u64>)
    requires
        emulation.stage is Store,
    ensures
        ({
            let StringIoEmulation { inst, port, addr, backward, .. } = emulation;
            let left = emulation.stage->Store_left;
            let then = emulation.next(outcome);
            let bytes: int = match inst.width {
                Width::Byte => 1,
                Width::Word => 2,
                Width::Dword => 4,
            };
            let apart = if backward {
                addr - then.addr
            } else {
                then.addr - addr
            };
            &&& apart == bytes || apart == bytes - 0x1_0000_0000_0000_0000
            &&& then.inst == inst && then.port == port && then.backward == backward
                && then.exit_rip == emulation.exit_rip
            &&& left > 0 ==> then.stage == (Stage::Load { left: (left - 1) as u64 })
            &&& left == 0 && inst.is_out ==> then.wants() == StringIoAction::WriteReg(
                Register::Rsi,
                then.addr,
            )
            &&& left == 0 && !inst.is_out ==> then.wants() == StringIoAction::WriteReg(
                Register::Rdi,
                then.addr,
            )
        }),
{
}

/// The address of the next instruction can be written exactly where there is
/// one; everything else can always be asked for.
pub proof fn law_what_can_be_asked(emulation: StringIoEmulation)
    ensures
        emulation.rip_fits() <==> !(emulation.stage is WriteRip) || emulation.exit_rip
            + emulation.inst.inst_len <= u64::MAX,
        emulation.stage is WriteRip && emulation.rip_fits() ==> emulation.wants()
            == StringIoAction::WriteReg(
            Register::Rip,
            (emulation.exit_rip + emulation.inst.inst_len) as u64,
        ),
        emulation.stage is Done <==> emulation.wants() is Finish,
{
}

/// A failure of any of these ends an emulation with the instruction declined: a
/// register read, getting memory, a memory read, a register write.
pub proof fn law_what_must_not_fail(emulation: StringIoEmulation)
    requires
        emulation.wants() is ReadReg || emulation.wants() is AcquireMemory || emulation.wants()
            is ReadMem || emulation.wants() is WriteReg,
    ensures
        emulation.next(None).wants() == (StringIoAction::Finish { handled: false }),
{
}

/// The distance of an element from the first, in bytes.
proof fn lemma_element_addr(addr: u64, backward: bool, width: Width, i: nat)
    ensures
        ({
            let before: nat = match width {
                Width::Byte => i,
                Width::Word => 2 * i,
                Width::Dword => 4 * i,
            };
            element_addr(addr, backward, width, i) == (if backward {
                addr - before
            } else {
                addr + before
            }) % 0x1_0000_0000_0000_0000
        }),
{
}

/// What is fetched, by the number of values that the width holds.
proof fn lemma_fetched(outcome: Option<u64>, width: Width)
    ensures
        ({
            let value = match outcome {
                Some(value) => value as int,
                None => 0xFFFF_FFFF,
            };
            fetched(outcome, width) == match width {
                Width::Byte => value % 0x100,
                Width::Word => value % 0x1_0000,
                Width::Dword => value % 0x1_0000_0000,
            }
        }),
{
}

/// Where in the parts of a complete run, one behind the other, each action
/// stands.
proof fn lemma_places_in(
    inst: StringIo,
    port: u16,
    down: bool,
    addr: u64,
    count: u64,
    end: u64,
    rip: u64,
    moved: Seq<Option<u64>>,
    actions: Seq<StringIoAction>,
    i: int,
)
    requires
        0 <= i < count,
        moved.len() == 2 * count,
        actions == register_reads(inst) + seq![StringIoAction::AcquireMemory] + moves(
            inst,
            port,
            down,
            addr,
            moved,
        ) + register_writes(inst, end, rip),
    ensures
        ({
            let reads: int = if inst.has_rep {
                4
            } else {
                3
            };
            let behind = reads + 1 + 2 * count;
            let width = inst.width;
            let address = address_register(inst);
            let here = element_addr(addr, down, width, i as nat);
            let data = fetched(moved[2 * i], width);
            let fetch = actions[reads + 1 + 2 * i];
            let delivery = actions[reads + 2 + 2 * i];
            &&& actions[0] == StringIoAction::ReadReg(Register::Rdx)
            &&& actions[1] == StringIoAction::ReadReg(Register::Rflags)
            &&& actions[2] == StringIoAction::ReadReg(address)
            &&& inst.has_rep ==> actions[3] == StringIoAction::ReadReg(Register::Rcx)
            &&& actions[reads] == StringIoAction::AcquireMemory
            &&& inst.is_out ==> fetch == (StringIoAction::ReadMem { addr: here, width })
            &&& inst.is_out ==> delivery == (StringIoAction::PortOut { port, width, data })
            &&& !inst.is_out ==> fetch == (StringIoAction::PortIn { port, width })
            &&& !inst.is_out ==> delivery == (StringIoAction::WriteMem { addr: here, width, data })
            &&& actions[behind] == StringIoAction::WriteReg(address, end)
            &&& inst.has_rep ==> actions[behind + 1] == StringIoAction::WriteReg(Register::Rcx, 0)
            &&& actions.last() == StringIoAction::WriteReg(Register::Rip, rip)
        }),
{
    let reads: int = if inst.has_rep {
        4
    } else {
        3
    };
    let behind = reads + 1 + 2 * count;
    let head = register_reads(inst) + seq![StringIoAction::AcquireMemory];
    let middle = moves(inst, port, down, addr, moved);
    let last = register_writes(inst, end, rip);
    assert(head.len() == reads + 1);
    assert(actions[reads + 1 + 2 * i] == middle[2 * i]);
    assert(actions[reads + 2 + 2 * i] == middle[2 * i + 1]);
    assert((2 * i) / 2 == i && (2 * i + 1) / 2 == i);
    assert((2 * i) % 2 == 0 && (2 * i + 1) % 2 == 1);
    assert(actions[behind] == last[0]);
    assert(inst.has_rep ==> actions[behind + 1] == last[1]);
    assert(actions.last() == last.last());
}

/// The outcomes of a complete run in their parts: those of the register reads,
/// of getting memory, of the moves and of the register writes.
proof fn lemma_parts(
    inst: StringIo,
    rdx: u64,
    rflags: u64,
    addr: u64,
    count: u64,
    outcomes: Seq<Option<u64>>,
)
    requires
        count > 0,
        !inst.has_rep ==> count == 1,
        ({
            let reads: int = if inst.has_rep {
                4
            } else {
                3
            };
            let writes: int = if inst.has_rep {
                3
            } else {
                2
            };
            &&& outcomes.len() == reads + 1 + 2 * count + writes
            &&& outcomes[0] == Some(rdx)
            &&& outcomes[1] == Some(rflags)
            &&& outcomes[2] == Some(addr)
            &&& inst.has_rep ==> outcomes[3] == Some(count)
            &&& outcomes[reads] is Some
            &&& forall|j: int|
                reads < j <= reads + 2 * count && (j - reads) % 2 == 1 && inst.is_out ==> (
                #[trigger] outcomes[j]) is Some
            &&& forall|j: int|
                reads + 2 * count < j < outcomes.len() ==> (#[trigger] outcomes[j]) is Some
        }),
    ensures
        ({
            let reads: int = if inst.has_rep {
                4
            } else {
                3
            };
            let behind = reads + 1 + 2 * count;
            let moved = outcomes.subrange(reads + 1, behind);
            let written = outcomes.subrange(behind, outcomes.len() as int);
            &&& outcomes == register_values(inst, rdx, rflags, addr, count) + seq![
                Some(outcomes[reads]->0),
            ] + moved + written
            &&& inst.is_out ==> forall|j: int|
                0 <= j < moved.len() && j % 2 == 0 ==> #[trigger] moved[j] is Some
            &&& forall|j: int| 0 <= j < written.len() ==> #[trigger] written[j] is Some
        }),
{
    let reads: int = if inst.has_rep {
        4
    } else {
        3
    };
    let behind = reads + 1 + 2 * count;
    let memory = outcomes[reads]->0;
    let moved = outcomes.subrange(reads + 1, behind);
    let written = outcomes.subrange(behind, outcomes.len() as int);
    assert forall|j: int| 0 <= j < moved.len() && j % 2 == 0 && inst.is_out implies (
    #[trigger] moved[j]) is Some by {
        assert(outcomes[reads + 1 + j] is Some);
    }
    assert forall|j: int| 0 <= j < written.len() implies (#[trigger] written[j]) is Some by {
        assert(outcomes[behind + j] is Some);
    }
    assert(outcomes =~= register_values(inst, rdx, rflags, addr, count) + seq![Some(memory)]
        + moved + written);
}

/// Whether outcomes are those of `actions`, and `end` is asked for then.
#[verifier::opaque]
spec fn is_run(
    start: StringIoEmulation,
    outcomes: Seq<Option<u64>>,
    actions: Seq<StringIoAction>,
    end: StringIoAction,
) -> bool {
    start.actions(outcomes) == actions && start.after(outcomes).wants() == end
}

/// A complete run, from its parts.
proof fn lemma_is_run(
    inst: StringIo,
    exit_rip: u64,
    rdx: u64,
    rflags: u64,
    addr: u64,
    count: u64,
    memory: u64,
    moved: Seq<Option<u64>>,
    written: Seq<Option<u64>>,
)
    requires
        exit_rip + inst.inst_len <= u64::MAX,
        count > 0,
        !inst.has_rep ==> count == 1,
        moved.len() == 2 * count,
        inst.is_out ==> forall|i: int|
            0 <= i < moved.len() && i % 2 == 0 ==> #[trigger] moved[i] is Some,
        written.len() == if inst.has_rep {
            3int
        } else {
            2
        },
        forall|i: int| 0 <= i < written.len() ==> #[trigger] written[i] is Some,
    ensures
        is_run(
            StringIoEmulation::start(inst, exit_rip),
            register_values(inst, rdx, rflags, addr, count) + seq![Some(memory)] + moved + written,
            register_reads(inst) + seq![StringIoAction::AcquireMemory] + moves(
                inst,
                (rdx % 0x1_0000) as u16,
                (rflags / 0x400) % 2 == 1,
                addr,
                moved,
            ) + register_writes(
                inst,
                element_addr(addr, (rflags / 0x400) % 2 == 1, inst.width, count as nat),
                (exit_rip + inst.inst_len) as u64,
            ),
            StringIoAction::Finish { handled: true },
        ),
{
    reveal(is_run);
    law_complete_run(inst, exit_rip, rdx, rflags, addr, count, memory, moved, written);
}

/// A complete run, from its outcomes.
#[verifier::rlimit(40)]
proof fn lemma_whole_run(
    inst: StringIo,
    exit_rip: u64,
    rdx: u64,
    rflags: u64,
    addr: u64,
    count: u64,
    outcomes: Seq<Option<u64>>,
)
    requires
        exit_rip + inst.inst_len <= u64::MAX,
        count > 0,
        !inst.has_rep ==> count == 1,
        ({
            let reads: int = if inst.has_rep {
                4
            } else {
                3
            };
            let writes: int = if inst.has_rep {
                3
            } else {
                2
            };
            &&& outcomes.len() == reads + 1 + 2 * count + writes
            &&& outcomes[0] == Some(rdx)
            &&& outcomes[1] == Some(rflags)
            &&& outcomes[2] == Some(addr)
            &&& inst.has_rep ==> outcomes[3] == Some(count)
            &&& outcomes[reads] is Some
            &&& forall|j: int|
                reads < j <= reads + 2 * count && (j - reads) % 2 == 1 && inst.is_out ==> (
                #[trigger] outcomes[j]) is Some
            &&& forall|j: int|
                reads + 2 * count < j < outcomes.len() ==> (#[trigger] outcomes[j]) is Some
        }),
    ensures
        ({
            let reads: int = if inst.has_rep {
                4
            } else {
                3
            };
            let moved = outcomes.subrange(reads + 1, reads + 1 + 2 * count);
            is_run(
                StringIoEmulation::start(inst, exit_rip),
                outcomes,
                register_reads(inst) + seq![StringIoAction::AcquireMemory] + moves(
                    inst,
                    (rdx % 0x1_0000) as u16,
                    (rflags / 0x400) % 2 == 1,
                    addr,
                    moved,
                ) + register_writes(
                    inst,
                    element_addr(addr, (rflags / 0x400) % 2 == 1, inst.width, count as nat),
                    (exit_rip + inst.inst_len) as u64,
                ),
                StringIoAction::Finish { handled: true },
            )
        }),
{
    let reads: int = if inst.has_rep {
        4
    } else {
        3
    };
    let behind = reads + 1 + 2 * count;
    let memory = outcomes[reads]->0;
    let moved = outcomes.subrange(reads + 1, behind);
    let written = outcomes.subrange(behind, outcomes.len() as int);
    lemma_parts(inst, rdx, rflags, addr, count, outcomes);
    lemma_is_run(inst, exit_rip, rdx, rflags, addr, count, memory, moved, written);
}

/// Where in a complete run each action stands.
#[verifier::rlimit(40)]
proof fn lemma_places(
    inst: StringIo,
    exit_rip: u64,
    rdx: u64,
    rflags: u64,
    addr: u64,
    count: u64,
    outcomes: Seq<Option<u64>>,
    i: int,
) -> (actions: Seq<StringIoAction>)
    requires
        exit_rip + inst.inst_len <= u64::MAX,
        count > 0,
        !inst.has_rep ==> count == 1,
        0 <= i < count,
        ({
            let reads: int = if inst.has_rep {
                4
            } else {
                3
            };
            let writes: int = if inst.has_rep {
                3
            } else {
                2
            };
            &&& outcomes.len() == reads + 1 + 2 * count + writes
            &&& outcomes[0] == Some(rdx)
            &&& outcomes[1] == Some(rflags)
            &&& outcomes[2] == Some(addr)
            &&& inst.has_rep ==> outcomes[3] == Some(count)
            &&& outcomes[reads] is Some
            &&& forall|j: int|
                reads < j <= reads + 2 * count && (j - reads) % 2 == 1 && inst.is_out ==> (
                #[trigger] outcomes[j]) is Some
            &&& forall|j: int|
                reads + 2 * count < j < outcomes.len() ==> (#[trigger] outcomes[j]) is Some
        }),
    ensures
        ({
            let reads: int = if inst.has_rep {
                4
            } else {
                3
            };
            let behind = reads + 1 + 2 * count;
            let width = inst.width;
            let port = (rdx % 0x1_0000) as u16;
            let address = address_register(inst);
            let down = (rflags / 0x400) % 2 == 1;
            let here = element_addr(addr, down, width, i as nat);
            let end = element_addr(addr, down, width, count as nat);
            let data = fetched(outcomes[reads + 1 + 2 * i], width);
            let fetch = actions[reads + 1 + 2 * i];
            let delivery = actions[reads + 2 + 2 * i];
            &&& is_run(
                StringIoEmulation::start(inst, exit_rip),
                outcomes,
                actions,
                StringIoAction::Finish { handled: true },
            )
            &&& actions[0] == StringIoAction::ReadReg(Register::Rdx)
            &&& actions[1] == StringIoAction::ReadReg(Register::Rflags)
            &&& actions[2] == StringIoAction::ReadReg(address)
            &&& inst.has_rep ==> actions[3] == StringIoAction::ReadReg(Register::Rcx)
            &&& actions[reads] == StringIoAction::AcquireMemory
            &&& inst.is_out ==> fetch == (StringIoAction::ReadMem { addr: here, width })
            &&& inst.is_out ==> delivery == (StringIoAction::PortOut { port, width, data })
            &&& !inst.is_out ==> fetch == (StringIoAction::PortIn { port, width })
            &&& !inst.is_out ==> delivery == (StringIoAction::WriteMem { addr: here, width, data })
            &&& actions[behind] == StringIoAction::WriteReg(address, end)
            &&& inst.has_rep ==> actions[behind + 1] == StringIoAction::WriteReg(Register::Rcx, 0)
            &&& actions.last() == StringIoAction::WriteReg(
                Register::Rip,
                (exit_rip + inst.inst_len) as u64,
            )
        }),
{
    let reads: int = if inst.has_rep {
        4
    } else {
        3
    };
    let behind = reads + 1 + 2 * count;
    let moved = outcomes.subrange(reads + 1, behind);
    let port = (rdx % 0x1_0000) as u16;
    let down = (rflags / 0x400) % 2 == 1;
    lemma_whole_run(inst, exit_rip, rdx, rflags, addr, count, outcomes);
    let end = element_addr(addr, down, inst.width, count as nat);
    let rip = (exit_rip + inst.inst_len) as u64;
    let actions = register_reads(inst) + seq![StringIoAction::AcquireMemory] + moves(
        inst,
        port,
        down,
        addr,
        moved,
    ) + register_writes(inst, end, rip);
    lemma_places_in(inst, port, down, addr, count, end, rip, moved, actions, i);
    assert(moved[2 * i] == outcomes[reads + 1 + 2 * i]);
    actions
}

/// A string I/O instruction as a whole, place by place. `outcomes` are those of
/// a run in which no register access, no getting of memory and, for OUTS, no
/// memory read fails; `i` is any of its elements.
///
/// First RDX, RFLAGS and RSI (OUTS) or RDI (INS) are read, and with a repeat
/// prefix RCX; then memory is got. Element `i` is at the address read plus or,
/// with bit 10 of RFLAGS, minus `i` times the width, modulo 2^64; it is fetched
/// and then delivered, modulo 2^8, 2^16 or 2^32, through the port that the low
/// 16 bits of RDX name. Last the address behind the last element is written to
/// the register it came from, with a repeat prefix zero to RCX, and the address
/// behind the instruction to RIP.
#[verifier::rlimit(80)]
pub proof fn law_place_by_place(
    inst: StringIo,
    exit_rip: u64,
    rdx: u64,
    rflags: u64,
    addr: u64,
    count: u64,
    outcomes: Seq<Option<u64>>,
    i: int,
)
    requires
        exit_rip + inst.inst_len <= u64::MAX,
        count > 0,
        !inst.has_rep ==> count == 1,
        0 <= i < count,
        ({
            let reads: int = if inst.has_rep {
                4
            } else {
                3
            };
            let writes: int = if inst.has_rep {
                3
            } else {
                2
            };
            &&& outcomes.len() == reads + 1 + 2 * count + writes
            &&& outcomes[0] == Some(rdx)
            &&& outcomes[1] == Some(rflags)
            &&& outcomes[2] == Some(addr)
            &&& inst.has_rep ==> outcomes[3] == Some(count)
            &&& outcomes[reads] is Some
            &&& forall|j: int|
                reads < j <= reads + 2 * count && (j - reads) % 2 == 1 && inst.is_out ==> (
                #[trigger] outcomes[j]) is Some
            &&& forall|j: int|
                reads + 2 * count < j < outcomes.len() ==> (#[trigger] outcomes[j]) is Some
        }),
    ensures
        ({
            let reads: int = if inst.has_rep {
                4
            } else {
                3
            };
            let behind = reads + 1 + 2 * count;
            let start = StringIoEmulation::start(inst, exit_rip);
            let actions = start.actions(outcomes);
            let width = inst.width;
            let port = (rdx % 0x1_0000) as u16;
            let address = if inst.is_out {
                Register::Rsi
            } else {
                Register::Rdi
            };
            let (before, all, values): (int, int, int) = match width {
                Width::Byte => (i, count as int, 0x100),
                Width::Word => (2 * i, 2 * count, 0x1_0000),
                Width::Dword => (4 * i, 4 * count, 0x1_0000_0000),
            };
            let down = rflags & 0x400 != 0;
            let here = (if down {
                addr - before
            } else {
                addr + before
            }) % 0x1_0000_0000_0000_0000;
            let end = (if down {
                addr - all
            } else {
                addr + all
            }) % 0x1_0000_0000_0000_0000;
            let fetched = match outcomes[reads + 1 + 2 * i] {
                Some(value) => value as int,
                None => 0xFFFF_FFFF,
            };
            let data = (fetched % values) as u32;
            let fetch = actions[reads + 1 + 2 * i];
            let delivery = actions[reads + 2 + 2 * i];
            &&& actions.len() == outcomes.len()
            &&& actions[0] == StringIoAction::ReadReg(Register::Rdx)
            &&& actions[1] == StringIoAction::ReadReg(Register::Rflags)
            &&& actions[2] == StringIoAction::ReadReg(address)
            &&& inst.has_rep ==> actions[3] == StringIoAction::ReadReg(Register::Rcx)
            &&& actions[reads] == StringIoAction::AcquireMemory
            &&& inst.is_out ==> fetch == (StringIoAction::ReadMem { addr: here as u64, width })
            &&& inst.is_out ==> delivery == (StringIoAction::PortOut { port, width, data })
            &&& !inst.is_out ==> fetch == (StringIoAction::PortIn { port, width })
            &&& !inst.is_out ==> delivery == (StringIoAction::WriteMem {
                addr: here as u64,
                width,
                data,
            })
            &&& actions[behind] == StringIoAction::WriteReg(address, end as u64)
            &&& inst.has_rep ==> actions[behind + 1] == StringIoAction::WriteReg(Register::Rcx, 0)
            &&& actions.last() == StringIoAction::WriteReg(
                Register::Rip,
                (exit_rip + inst.inst_len) as u64,
            )
            &&& start.after(outcomes).wants() == (StringIoAction::Finish { handled: true })
        }),
{
    let reads: int = if inst.has_rep {
        4
    } else {
        3
    };
    let down = (rflags / 0x400) % 2 == 1;
    assert((rflags & 0x400 != 0) == ((rflags / 0x400) % 2 == 1)) by (bit_vector);
    let actions = lemma_places(inst, exit_rip, rdx, rflags, addr, count, outcomes, i);
    reveal(is_run);
    lemma_element_addr(addr, down, inst.width, i as nat);
    lemma_element_addr(addr, down, inst.width, count as nat);
    lemma_fetched(outcomes[reads + 1 + 2 * i], inst.width);
}

/// A repeat of nothing, place by place: the registers are read, the address
/// behind the instruction is written to RIP, and that is all.
pub proof fn law_repeat_of_nothing(
    inst: StringIo,
    exit_rip: u64,
    outcomes: Seq<Option<u64>>,
)
    requires
        inst.has_rep,
        exit_rip + inst.inst_len <= u64::MAX,
        outcomes.len() == 5,
        forall|j: int| 0 <= j < 5 ==> (#[trigger] outcomes[j]) is Some,
        outcomes[3] == Some(0u64),
    ensures
        ({
            let start = StringIoEmulation::start(inst, exit_rip);
            let address = if inst.is_out {
                Register::Rsi
            } else {
                Register::Rdi
            };
            &&& start.actions(outcomes) == seq![
                StringIoAction::ReadReg(Register::Rdx),
                StringIoAction::ReadReg(Register::Rflags),
                StringIoAction::ReadReg(address),
                StringIoAction::ReadReg(Register::Rcx),
                StringIoAction::WriteReg(Register::Rip, (exit_rip + inst.inst_len) as u64),
            ]
            &&& start.after(outcomes).wants() == (StringIoAction::Finish { handled: true })
        }),
{
    let rdx = outcomes[0]->0;
    let rflags = outcomes[1]->0;
    let addr = outcomes[2]->0;
    let written = outcomes[4]->0;
    assert(outcomes =~= register_values(inst, rdx, rflags, addr, 0) + seq![Some(written)]);
    law_zero_count(inst, exit_rip, rdx, rflags, addr, written);
    assert(StringIoEmulation::start(inst, exit_rip).actions(outcomes) =~= seq![
        StringIoAction::ReadReg(Register::Rdx),
        StringIoAction::ReadReg(Register::Rflags),
        StringIoAction::ReadReg(address_register(inst)),
        StringIoAction::ReadReg(Register::Rcx),
        StringIoAction::WriteReg(Register::Rip, (exit_rip + inst.inst_len) as u64),
    ]);
}

} // verus!
