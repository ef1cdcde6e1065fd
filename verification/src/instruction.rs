//! Recognising the string I/O instructions.
use vstd::prelude::*;

verus! {

/// Prefix that repeats a string instruction RCX times.
pub const REP: u8 = 0xF3;

/// Prefix that makes the operand 16 bits wide instead of 32.
pub const OPERAND_SIZE: u8 = 0x66;

/// How much one element of a string I/O instruction moves.
#[derive(Clone, Copy, Debug, PartialEq, Eq, Structural)]
pub enum Width {
    Byte,
    Word,
    Dword,
}

impl Width {
    /// The width in bytes.
    pub open spec fn size(self) -> nat {
        match self {
            Width::Byte => 1,
            Width::Word => 2,
            Width::Dword => 4,
        }
    }

    /// How many values the width can hold.
    pub open spec fn modulus(self) -> nat {
        match self {
            Width::Byte => 0x100,
            Width::Word => 0x1_0000,
            Width::Dword => 0x1_0000_0000,
        }
    }

    /// The width in bytes.
    pub fn bytes(self) -> (bytes: u8)
        ensures
            bytes == self.size(),
            self is Byte ==> bytes == 1,
            self is Word ==> bytes == 2,
            self is Dword ==> bytes == 4,
    {
        match self {
            Width::Byte => 1,
            Width::Word => 2,
            Width::Dword => 4,
        }
    }
}

/// A string I/O instruction.
#[derive(Clone, Copy, Debug, PartialEq, Eq, Structural)]
pub struct StringIo {
    /// Whether it moves memory to a port (OUTS) or a port to memory (INS).
    pub is_out: bool,
    /// Whether it is repeated RCX times.
    pub has_rep: bool,
    pub width: Width,
    /// The length of the instruction in bytes, prefixes and opcode.
    pub inst_len: u64,
}

pub open spec fn is_prefix(byte: u8) -> bool {
    byte == REP || byte == OPERAND_SIZE
}

/// How many prefixes the instruction starts with.
pub open spec fn prefix_len(bytes: Seq<u8>) -> nat
    decreases bytes.len(),
{
    if bytes.len() > 0 && is_prefix(bytes[0]) {
        1 + prefix_len(bytes.drop_first())
    } else {
        0
    }
}

pub open spec fn is_string_io_opcode(opcode: u8) -> bool {
    0x6C <= opcode <= 0x6F
}

/// The instruction that `bytes` start with, if it is one of string I/O: any
/// number of prefixes in any order, then the opcode. INS has the opcodes 6C and
/// 6D, OUTS has 6E and 6F; the even ones move a byte.
pub open spec fn decoded(bytes: Seq<u8>) -> Option<StringIo> {
    let n = prefix_len(bytes);
    let prefixes = bytes.take(n as int);
    if n < bytes.len() && is_string_io_opcode(bytes[n as int]) {
        let opcode = bytes[n as int];
        Some(
            StringIo {
                is_out: opcode >= 0x6E,
                has_rep: prefixes.contains(REP),
                width: if opcode % 2 == 0 {
                    Width::Byte
                } else if prefixes.contains(OPERAND_SIZE) {
                    Width::Word
                } else {
                    Width::Dword
                },
                inst_len: (n + 1) as u64,
            },
        )
    } else {
        None
    }
}

/// The prefixes end at the first byte that is none, and nowhere else.
pub proof fn lemma_prefix_len(bytes: Seq<u8>, n: nat)
    requires
        n <= bytes.len(),
        forall|i: int| 0 <= i < n ==> is_prefix(#[trigger] bytes[i]),
        n < bytes.len() ==> !is_prefix(bytes[n as int]),
    ensures
        prefix_len(bytes) == n,
    decreases bytes.len(),
{
    if n > 0 {
        assert(is_prefix(bytes[0]));
        let rest = bytes.drop_first();
        assert forall|i: int| 0 <= i < n - 1 implies is_prefix(#[trigger] rest[i]) by {
            assert(is_prefix(bytes[i + 1]));
        }
        lemma_prefix_len(rest, (n - 1) as nat);
    }
}

/// What precedes the end of the prefixes are prefixes; what stands there is none.
pub proof fn lemma_prefixes(bytes: Seq<u8>)
    ensures
        prefix_len(bytes) <= bytes.len(),
        forall|i: int| 0 <= i < prefix_len(bytes) ==> is_prefix(#[trigger] bytes[i]),
        prefix_len(bytes) < bytes.len() ==> !is_prefix(bytes[prefix_len(bytes) as int]),
    decreases bytes.len(),
{
    if bytes.len() > 0 && is_prefix(bytes[0]) {
        let rest = bytes.drop_first();
        lemma_prefixes(rest);
        assert forall|i: int| 0 <= i < prefix_len(bytes) implies is_prefix(#[trigger] bytes[i]) by {
            if i > 0 {
                assert(is_prefix(rest[i - 1]));
            }
        }
    }
}

/// A run of prefixes in front only adds to the prefixes behind it.
proof fn lemma_prefixes_in_front(front: Seq<u8>, rest: Seq<u8>)
    requires
        forall|i: int| 0 <= i < front.len() ==> is_prefix(#[trigger] front[i]),
    ensures
        prefix_len(front + rest) == front.len() + prefix_len(rest),
    decreases front.len(),
{
    if front.len() > 0 {
        assert(is_prefix(front[0]));
        assert((front + rest).drop_first() == front.drop_first() + rest);
        assert forall|i: int| 0 <= i < front.len() - 1 implies is_prefix(
            #[trigger] front.drop_first()[i],
        ) by {
            assert(is_prefix(front[i + 1]));
        }
        lemma_prefixes_in_front(front.drop_first(), rest);
    } else {
        assert(front + rest == rest);
    }
}

/// Which prefixes there are is all that matters of them: with others in front
/// that say the same, in any order and any number of times, an instruction
/// means the same. Only its length may differ, by as much as the prefixes do.
pub proof fn law_prefixes_matter_as_a_set(one: Seq<u8>, other: Seq<u8>, rest: Seq<u8>)
    requires
        forall|i: int| 0 <= i < one.len() ==> is_prefix(#[trigger] one[i]),
        forall|byte: u8| #[trigger] one.contains(byte) <==> other.contains(byte),
    ensures
        decoded(one + rest) is Some <==> decoded(other + rest) is Some,
        decoded(one + rest) matches Some(inst) ==> decoded(other + rest) == Some(
            StringIo {
                inst_len: (other.len() + prefix_len(rest) + 1) as u64,
                ..inst
            },
        ),
{
    assert forall|i: int| 0 <= i < other.len() implies is_prefix(#[trigger] other[i]) by {
        assert(other.contains(other[i]));
        assert(one.contains(other[i]));
    }
    lemma_prefixes_in_front(one, rest);
    lemma_prefixes_in_front(other, rest);
    lemma_prefixes(rest);
    let more = rest.take(prefix_len(rest) as int);
    assert((one + rest).take((one.len() + prefix_len(rest)) as int) == one + more);
    assert((other + rest).take((other.len() + prefix_len(rest)) as int) == other + more);
    assert forall|byte: u8|
        #![auto]
        (one + more).contains(byte) == (other + more).contains(byte) by {
        vstd::seq_lib::lemma_seq_concat_contains_all_elements(one, more, byte);
        vstd::seq_lib::lemma_seq_concat_contains_all_elements(other, more, byte);
        assert(one.contains(byte) <==> other.contains(byte));
    }
    assert((one + more).contains(REP) == (other + more).contains(REP));
    assert((one + more).contains(OPERAND_SIZE) == (other + more).contains(OPERAND_SIZE));
}

/// The order of the prefixes does not matter: an instruction means the same
/// with its prefixes rearranged.
pub proof fn law_prefix_order(one: Seq<u8>, other: Seq<u8>, rest: Seq<u8>)
    requires
        forall|i: int| 0 <= i < one.len() ==> is_prefix(#[trigger] one[i]),
        one.to_multiset() == other.to_multiset(),
    ensures
        decoded(one + rest) == decoded(other + rest),
{
    one.to_multiset_ensures();
    other.to_multiset_ensures();
    assert(one.len() == other.len());
    assert forall|byte: u8| #[trigger] one.contains(byte) <==> other.contains(byte) by {
        assert(one.contains(byte) <==> one.to_multiset().count(byte) > 0);
        assert(other.contains(byte) <==> other.to_multiset().count(byte) > 0);
    }
    law_prefixes_matter_as_a_set(one, other, rest);
    lemma_prefixes_in_front(one, rest);
}

/// An instruction ends with its opcode: bytes that follow it do not matter.
pub proof fn law_bytes_after_opcode(bytes: Seq<u8>, more: Seq<u8>)
    requires
        decoded(bytes) is Some,
    ensures
        decoded(bytes + more) == decoded(bytes),
{
    let n = prefix_len(bytes);
    lemma_prefixes(bytes);
    assert forall|i: int| 0 <= i < n implies is_prefix(#[trigger] (bytes + more)[i]) by {
        assert(is_prefix(bytes[i]));
    }
    lemma_prefix_len(bytes + more, n);
    assert((bytes + more).take(n as int) == bytes.take(n as int));
}

/// The length of an instruction counts its prefixes and its opcode, all of
/// which are among the bytes given.
pub proof fn law_instruction_length(bytes: Seq<u8>)
    requires
        bytes.len() <= u64::MAX,
    ensures
        decoded(bytes) matches Some(inst) ==> inst.inst_len == prefix_len(bytes) + 1
            && inst.inst_len <= bytes.len(),
{
}

/// A width is as many bytes as its name says, and holds as many values as that
/// many bytes do.
pub proof fn law_width(width: Width)
    ensures
        width is Byte ==> width.size() == 1 && width.modulus() == 256,
        width is Word ==> width.size() == 2 && width.modulus() == 65_536,
        width is Dword ==> width.size() == 4 && width.modulus() == 4_294_967_296,
{
}

/// What prefixes F3 and 66, then an opcode that is neither, then anything, mean.
/// It is string I/O exactly with the opcodes 6C to 6F. 6C and 6D bring in from a
/// port, 6E and 6F send out to one, whatever the prefixes. 6C and 6E move a
/// byte, whatever the prefixes; 6D and 6F move two bytes exactly with a 66 among
/// the prefixes, and four without, repeated or not. It is repeated exactly with
/// an F3 among the prefixes. Its length is the prefixes' and one more.
pub proof fn law_meaning(prefixes: Seq<u8>, opcode: u8, rest: Seq<u8>)
    requires
        forall|i: int|
            0 <= i < prefixes.len() ==> #[trigger] prefixes[i] == 0xF3 || prefixes[i] == 0x66,
        opcode != 0xF3,
        opcode != 0x66,
        prefixes.len() < u64::MAX,
    ensures
        ({
            let meant = decoded(prefixes + seq![opcode] + rest);
            let repeated = exists|i: int| 0 <= i < prefixes.len() && #[trigger] prefixes[i] == 0xF3;
            let narrowed = exists|i: int| 0 <= i < prefixes.len() && #[trigger] prefixes[i] == 0x66;
            &&& meant is Some <==> opcode == 0x6C || opcode == 0x6D || opcode == 0x6E || opcode
                == 0x6F
            &&& meant matches Some(inst) ==> {
                &&& inst.is_out <==> opcode == 0x6E || opcode == 0x6F
                &&& inst.has_rep <==> repeated
                &&& inst.width is Byte <==> opcode == 0x6C || opcode == 0x6E
                &&& inst.width is Word <==> (opcode == 0x6D || opcode == 0x6F) && narrowed
                &&& inst.width is Dword <==> (opcode == 0x6D || opcode == 0x6F) && !narrowed
                &&& inst.inst_len == prefixes.len() + 1
            }
        }),
{
    let bytes = prefixes + seq![opcode] + rest;
    let n = prefixes.len();
    assert forall|i: int| 0 <= i < n implies is_prefix(#[trigger] bytes[i]) by {
        assert(bytes[i] == prefixes[i]);
    }
    assert(bytes[n as int] == opcode);
    lemma_prefix_len(bytes, n);
    assert(bytes.take(n as int) == prefixes);
}

/// Bytes that hold nothing but prefixes, or nothing at all, mean nothing.
pub proof fn law_no_opcode(prefixes: Seq<u8>)
    requires
        forall|i: int|
            0 <= i < prefixes.len() ==> #[trigger] prefixes[i] == 0xF3 || prefixes[i] == 0x66,
    ensures
        decoded(prefixes) is None,
{
    assert forall|i: int| 0 <= i < prefixes.len() implies is_prefix(#[trigger] prefixes[i]) by {
        assert(prefixes[i] == 0xF3 || prefixes[i] == 0x66);
    }
    lemma_prefix_len(prefixes, prefixes.len());
}

/// Recognises INS and OUTS, with any number of repeat and operand-size
/// prefixes in any order. `None` for every other instruction, and for bytes
/// that end before the opcode.
pub fn decode(bytes: &[u8]) -> (inst: Option<StringIo>)
    ensures
        inst == decoded(bytes@),
{
    let mut cursor: usize = 0;
    let mut has_rep = false;
    let mut size_override = false;
    while cursor < bytes.len() && (bytes[cursor] == REP || bytes[cursor] == OPERAND_SIZE)
        invariant
            cursor <= bytes@.len(),
            forall|i: int| 0 <= i < cursor ==> is_prefix(#[trigger] bytes@[i]),
            has_rep == bytes@.take(cursor as int).contains(REP),
            size_override == bytes@.take(cursor as int).contains(OPERAND_SIZE),
        decreases bytes@.len() - cursor,
    {
        let byte = bytes[cursor];
        proof {
            let before = bytes@.take(cursor as int);
            assert(bytes@.take(cursor + 1) == before.push(byte));
            vstd::seq_lib::lemma_seq_contains_after_push(before, byte, REP);
            vstd::seq_lib::lemma_seq_contains_after_push(before, byte, OPERAND_SIZE);
        }
        if byte == REP {
            has_rep = true;
        } else {
            size_override = true;
        }
        cursor += 1;
    }
    proof {
        lemma_prefix_len(bytes@, cursor as nat);
    }
    if cursor >= bytes.len() {
        return None;
    }
    let wide = if size_override {
        Width::Word
    } else {
        Width::Dword
    };
    let (is_out, width) = match bytes[cursor] {
        0x6C => (false, Width::Byte),
        0x6D => (false, wide),
        0x6E => (true, Width::Byte),
        0x6F => (true, wide),
        _ => return None,
    };
    Some(StringIo { is_out, has_rep, width, inst_len: (cursor + 1) as u64 })
}

} // verus!
