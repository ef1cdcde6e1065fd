//! Errors of bringing vCPU tasks up.
use vstd::prelude::*;
use vstd::string::{to_string_from_display_ensures, StringExecFns};

verus! {

/// `std::io::Error`, of which nothing is looked at but how it is displayed.
#[verifier::external_type_specification]
#[verifier::external_body]
pub struct ExIoError(std::io::Error);

/// Why the backing threads of a set of vCPUs could not be brought up.
#[derive(Debug)]
pub enum VcpuTaskError {
    /// The operating system refused to start a backing thread.
    BackingThreadSpawnFailed(std::io::Error),
    /// The host CPUs to bind to do not pair up with the vCPUs.
    CpuBindingMismatch { bindings: usize, vcpus: usize },
}

/// The character for a number below ten.
pub open spec fn digit(n: nat) -> char {
    ('0' as u8 + n) as char
}

/// A number in decimal, without leading zeros.
pub open spec fn decimal(n: nat) -> Seq<char>
    decreases n,
{
    if n < 10 {
        seq![digit(n)]
    } else {
        decimal(n / 10).push(digit(n % 10))
    }
}

/// What is said of host CPUs that do not pair up with the vCPUs.
pub open spec fn binding_mismatch_words(bindings: usize, vcpus: usize) -> Seq<char> {
    "CPU bindings did not match vCPUs: "@ + decimal(bindings as nat) + " bindings for "@ + decimal(
        vcpus as nat,
    ) + " vCPUs"@
}

/// What is said of a thread that could not be started, for the reason given.
pub open spec fn spawn_failure_words(reason: Seq<char>) -> Seq<char> {
    "Failed to spawn a vCPU backing thread: "@ + reason
}

/// Puts the character for a number below ten behind `text`.
fn push_digit(text: &mut String, n: usize)
    requires
        n < 10,
    ensures
        final(text)@ == old(text)@.push(digit(n as nat)),
{
    let character = match n {
        0 => "0",
        1 => "1",
        2 => "2",
        3 => "3",
        4 => "4",
        5 => "5",
        6 => "6",
        7 => "7",
        8 => "8",
        _ => "9",
    };
    proof {
        reveal_strlit("0");
        reveal_strlit("1");
        reveal_strlit("2");
        reveal_strlit("3");
        reveal_strlit("4");
        reveal_strlit("5");
        reveal_strlit("6");
        reveal_strlit("7");
        reveal_strlit("8");
        reveal_strlit("9");
        assert(character@ =~= seq![digit(n as nat)]);
        assert(text@ + character@ =~= text@.push(digit(n as nat)));
    }
    text.append(character);
}

/// Puts a number in decimal behind `text`.
fn push_decimal(text: &mut String, n: usize)
    ensures
        final(text)@ == old(text)@ + decimal(n as nat),
    decreases n,
{
    if n >= 10 {
        push_decimal(text, n / 10);
    }
    push_digit(text, n % 10);
}

/// What to say of `bindings` host CPUs for `vcpus` vCPUs.
pub fn binding_mismatch_text(bindings: usize, vcpus: usize) -> (text: String)
    ensures
        text@ == binding_mismatch_words(bindings, vcpus),
        text@ == "CPU bindings did not match vCPUs: "@ + decimal(bindings as nat)
            + " bindings for "@ + decimal(vcpus as nat) + " vCPUs"@,
{
    let mut text = String::new();
    text.append("CPU bindings did not match vCPUs: ");
    push_decimal(&mut text, bindings);
    text.append(" bindings for ");
    push_decimal(&mut text, vcpus);
    text.append(" vCPUs");
    text
}

/// What to say of a thread that could not be started, for the reason given.
pub fn spawn_failure_text(reason: &str) -> (text: String)
    ensures
        text@ == spawn_failure_words(reason@),
        text@ == "Failed to spawn a vCPU backing thread: "@ + reason@,
{
    let mut text = String::new();
    text.append("Failed to spawn a vCPU backing thread: ");
    text.append(reason);
    text
}

impl VcpuTaskError {
    /// The error in words. The reason why a thread could not be started is in
    /// the words that the operating system's error is displayed with.
    pub fn to_string(&self) -> (text: String)
        ensures
            match *self {
                VcpuTaskError::BackingThreadSpawnFailed(error) => exists|reason: String| #[trigger]
                    to_string_from_display_ensures::<std::io::Error>(&error, reason) && text@
                        == spawn_failure_words(reason@),
                VcpuTaskError::CpuBindingMismatch { bindings, vcpus } => text@
                    == binding_mismatch_words(bindings, vcpus),
            },
    {
        match self {
            VcpuTaskError::BackingThreadSpawnFailed(error) => {
                let reason = error.to_string();
                spawn_failure_text(reason.as_str())
            },
            VcpuTaskError::CpuBindingMismatch { bindings, vcpus } => {
                binding_mismatch_text(*bindings, *vcpus)
            },
        }
    }
}

/// What the words of an error are.
pub proof fn law_words(bindings: usize, vcpus: usize, reason: Seq<char>)
    ensures
        binding_mismatch_words(bindings, vcpus) == "CPU bindings did not match vCPUs: "@ + decimal(
            bindings as nat,
        ) + " bindings for "@ + decimal(vcpus as nat) + " vCPUs"@,
        spawn_failure_words(reason) == "Failed to spawn a vCPU backing thread: "@ + reason,
{
}

/// The number that a text of decimal digits stands for.
pub open spec fn number(text: Seq<char>) -> int
    decreases text.len(),
{
    if text.len() == 0 {
        0
    } else {
        10 * number(text.drop_last()) + (text.last() as int - '0' as int)
    }
}

/// A number in decimal reads back as that number. It is made of digits alone,
/// and starts with a zero only where it is zero.
pub proof fn law_decimal(n: nat)
    ensures
        number(decimal(n)) == n,
        decimal(n).len() > 0,
        forall|i: int| 0 <= i < decimal(n).len() ==> '0' <= #[trigger] decimal(n)[i] <= '9',
        n > 0 ==> decimal(n)[0] != '0',
        n == 0 ==> decimal(n).len() == 1,
    decreases n,
{
    let text = decimal(n);
    if n >= 10 {
        law_decimal(n / 10);
        assert(text.drop_last() == decimal(n / 10));
        assert forall|i: int| 0 <= i < text.len() implies '0' <= #[trigger] text[i] <= '9' by {
            if i < text.len() - 1 {
                assert(text[i] == decimal(n / 10)[i]);
            }
        }
    } else {
        assert(text.drop_last() == Seq::<char>::empty());
        assert(number(text.drop_last()) == 0);
    }
}

} // verus!
