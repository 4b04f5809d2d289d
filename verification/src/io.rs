//! The host I/O bridge: the state a running program writes into and the
//! host reads from. It is an explicit context object created per run, so
//! separate runs can never interfere: a text accumulator (appended to one
//! character or one decimal-formatted number at a time), the index of the
//! instruction currently executing, and a termination flag.

use vstd::prelude::*;

verus! {

/// The character a word value is written to the text port as: the low
/// eight bits of the value, read as a one-byte character code.
pub open spec fn char_of_word(v: u64) -> char {
    ((v % 256) as u8) as char
}

/// The character for one decimal digit.
pub open spec fn digit_char(d: nat) -> char {
    ((d + 48) as u8) as char
}

/// The decimal representation of `n`: its digits in order, most
/// significant first, with no sign and no separator.
pub open spec fn dec_rep(n: nat) -> Seq<char>
    decreases n,
{
    if n < 10 {
        seq![digit_char(n)]
    } else {
        dec_rep(n / 10).push(digit_char(n % 10))
    }
}

/// Per-run shared state between a running program and the host.
pub struct ExecContext {
    /// Everything the program has written to the text and number ports,
    /// in write order.
    pub text_io_buffer: Vec<char>,
    /// The index of the instruction currently executing, for external
    /// monitoring.
    pub current_instruction: u64,
    /// Set once the program has halted.
    pub terminated: bool,
}

impl ExecContext {
    /// A fresh context: nothing written, position zero, not terminated.
    pub fn new() -> (r: ExecContext)
        ensures
            r.text_io_buffer@ == Seq::<char>::empty(),
            r.current_instruction == 0,
            !r.terminated,
    {
        ExecContext { text_io_buffer: Vec::new(), current_instruction: 0, terminated: false }
    }

    /// Record the index of the instruction about to execute.
    pub fn set_current_instruction(&mut self, instruction: u64)
        ensures
            final(self).text_io_buffer@ == old(self).text_io_buffer@,
            final(self).current_instruction == instruction,
            final(self).terminated == old(self).terminated,
    {
        self.current_instruction = instruction;
    }

    /// Append exactly one character to the accumulator: the low byte of
    /// `input` read as a character code.
    pub fn putc(&mut self, input: u64)
        ensures
            final(self).text_io_buffer@ == old(self).text_io_buffer@.push(char_of_word(input)),
            final(self).current_instruction == old(self).current_instruction,
            final(self).terminated == old(self).terminated,
    {
        let byte: u8 = (input % 256) as u8;
        self.text_io_buffer.push(byte as char);
    }

    /// Append the decimal representation of `input` to the accumulator,
    /// with no separator.
    pub fn putnumber(&mut self, input: u64)
        ensures
            final(self).text_io_buffer@ == old(self).text_io_buffer@ + dec_rep(input as nat),
            final(self).current_instruction == old(self).current_instruction,
            final(self).terminated == old(self).terminated,
    {
        push_decimal(&mut self.text_io_buffer, input);
    }

    /// Mark the run as finished.
    pub fn set_terminated(&mut self)
        ensures
            final(self).text_io_buffer@ == old(self).text_io_buffer@,
            final(self).current_instruction == old(self).current_instruction,
            final(self).terminated,
    {
        self.terminated = true;
    }
}

/// Append the decimal representation of `input` to a character buffer.
pub fn push_decimal(buf: &mut Vec<char>, input: u64)
    ensures
        final(buf)@ == old(buf)@ + dec_rep(input as nat),
{
    let ghost start = buf@;
    let mut rev: Vec<char> = Vec::new();
    let mut n: u64 = input;
    while n >= 10
        invariant
            dec_rep(input as nat) == dec_rep(n as nat) + rev@.reverse(),
        decreases n,
    {
        let d: u8 = (n % 10) as u8;
        proof {
            assert(rev@.push(digit_char((n % 10) as nat)).reverse() =~= seq![
                digit_char((n % 10) as nat),
            ] + rev@.reverse());
            assert(dec_rep(n as nat) + rev@.reverse() == dec_rep((n / 10) as nat) + (seq![
                digit_char((n % 10) as nat),
            ] + rev@.reverse())) by {
                assert(dec_rep(n as nat) == dec_rep((n / 10) as nat).push(
                    digit_char((n % 10) as nat),
                ));
                assert(dec_rep((n / 10) as nat).push(digit_char((n % 10) as nat))
                    + rev@.reverse() =~= dec_rep((n / 10) as nat) + (seq![
                    digit_char((n % 10) as nat),
                ] + rev@.reverse()));
            }
        }
        rev.push((48 + d) as char);
        n = n / 10;
    }
    let d: u8 = n as u8;
    proof {
        assert(rev@.push(digit_char(n as nat)).reverse() =~= seq![digit_char(n as nat)]
            + rev@.reverse());
        assert(dec_rep(n as nat) =~= seq![digit_char(n as nat)]);
    }
    rev.push((48 + d) as char);
    proof {
        assert(dec_rep(input as nat) =~= rev@.reverse());
    }
    let len: usize = rev.len();
    let mut j: usize = 0;
    while j < len
        invariant
            len == rev@.len(),
            j <= len,
            dec_rep(input as nat) == rev@.reverse(),
            buf@ == start + rev@.reverse().take(j as int),
        decreases len - j,
    {
        let c: char = rev[len - 1 - j];
        proof {
            assert(rev@.reverse()[j as int] == rev@[len - 1 - j]);
            assert((start + rev@.reverse().take(j as int)).push(rev@.reverse()[j as int])
                =~= start + rev@.reverse().take(j as int + 1));
        }
        buf.push(c);
        j = j + 1;
    }
    proof {
        assert(rev@.reverse().take(len as int) =~= rev@.reverse());
    }
}

} // verus!
