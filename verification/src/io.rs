//! The character channel between the machine and its host.
//!
//! [`IOTarget`] is what a host implements: a terminal, a browser console, a
//! test double. [`Lc3IO`] is what the machine talks to. It queues input that
//! the host hands over ahead of time, keeps a transcript of everything the
//! machine wrote, and passes both kinds of traffic on to the target.
use crate::vm::memory::{Memory, MEMORY_SIZE};
use crate::vm::registers::Registers;
use std::collections::VecDeque;
use vstd::prelude::*;

verus! {

/// The character a word is written as: the one whose code is the word's low
/// byte.
pub open spec fn low_char(word: u16) -> char {
    ((word % 256) as u8) as char
}

/// The word a character is read as: its code, cut to sixteen bits.
pub open spec fn char_word(c: char) -> u16 {
    (c as u32 % 0x1_0000) as u16
}

/// The text stored at address `addr` of `mem`: one character per word, up to
/// the first zero word or, if there is none, the top of the address space.
pub open spec fn string_at(mem: Seq<u16>, addr: int) -> Seq<char>
    decreases MEMORY_SIZE - addr,
{
    if addr < 0 || addr >= MEMORY_SIZE || mem[addr] == 0 {
        Seq::empty()
    } else {
        seq![low_char(mem[addr])] + string_at(mem, addr + 1)
    }
}

/// The character whose code is the low byte of `word`.
pub fn word_to_char(word: u16) -> (c: char)
    ensures
        c == low_char(word),
{
    assert(word & 0xFF == word % 256) by (bit_vector);
    (word & 0xFF) as u8 as char
}

/// The code of `c`, cut to sixteen bits.
pub fn char_to_word(c: char) -> (word: u16)
    ensures
        word == char_word(c),
{
    let code: u32 = c as u32;
    (code % 0x1_0000) as u16
}

/// A host's side of the channel.
///
/// `get_char` answers `None` when no character is ready right now; that is
/// not the end of the input. A terminal may instead block until a key is
/// pressed. `put_char` has made the character visible when it returns.
pub trait IOTarget {
    fn get_char(&mut self) -> Option<char>;

    fn put_char(&mut self, c: char);
}

/// The machine's side of the channel.
pub struct Lc3IO {
    input_stream: VecDeque<char>,
    output_stream: Vec<char>,
    target: Box<dyn IOTarget>,
}

impl Lc3IO {
    /// The characters queued with [`Lc3IO::push_input`] and not read yet,
    /// oldest first.
    pub closed spec fn pending(&self) -> Seq<char> {
        self.input_stream@
    }

    /// Every character written through this channel and not yet taken with
    /// [`Lc3IO::take_output`], oldest first.
    pub closed spec fn transcript(&self) -> Seq<char> {
        self.output_stream@
    }

    /// A channel to `target` with nothing queued and nothing written.
    pub fn new(target: Box<dyn IOTarget>) -> (io: Lc3IO)
        ensures
            io.pending() == Seq::<char>::empty(),
            io.transcript() == Seq::<char>::empty(),
    {
        Lc3IO { input_stream: VecDeque::new(), output_stream: Vec::new(), target }
    }

    /// Queues `c` as input for the machine, behind what is already queued.
    pub fn push_input(&mut self, c: char)
        ensures
            final(self).pending() == old(self).pending().push(c),
            final(self).transcript() == old(self).transcript(),
    {
        self.input_stream.push_back(c);
    }

    /// The next input character. Queued input is served first; with nothing
    /// queued the target is asked, and whatever it answers is returned.
    pub fn get_char(&mut self) -> (c: Option<char>)
        ensures
            old(self).pending().len() > 0 ==> c == Some(old(self).pending()[0]),
            final(self).pending() == if old(self).pending().len() > 0 {
                old(self).pending().skip(1)
            } else {
                old(self).pending()
            },
            final(self).transcript() == old(self).transcript(),
    {
        match self.input_stream.pop_front() {
            Some(c) => Some(c),
            None => self.target.get_char(),
        }
    }

    /// Writes `c`: it is appended to the transcript and handed to the target.
    pub fn put_char(&mut self, c: char)
        ensures
            final(self).transcript() == old(self).transcript().push(c),
            final(self).pending() == old(self).pending(),
    {
        self.output_stream.push(c);
        self.target.put_char(c);
    }

    /// Writes the characters of `text` in order.
    pub fn put_str(&mut self, text: &str)
        ensures
            final(self).transcript() == old(self).transcript() + text@,
            final(self).pending() == old(self).pending(),
    {
        let chars = text.chars();
        for c in it: chars
            invariant
                it.seq() == text@,
                self.transcript() == old(self).transcript() + text@.take(it.index()),
                self.pending() == old(self).pending(),
        {
            self.put_char(c);
        }
    }

    /// Writes the low byte of `R0` as a character.
    pub fn print_single_char(&mut self, reg: &Registers)
        ensures
            final(self).transcript() == old(self).transcript().push(low_char(reg@.r[0])),
            final(self).pending() == old(self).pending(),
    {
        self.put_char(word_to_char(reg.get(0)));
    }

    /// Writes the text that `R0` points to: the low byte of each word from
    /// that address on, up to the first zero word.
    pub fn print_string(&mut self, reg: &Registers, mem: &Memory)
        ensures
            final(self).transcript() == old(self).transcript() + string_at(
                mem@,
                reg@.r[0] as int,
            ),
            final(self).pending() == old(self).pending(),
    {
        let mut addr: u32 = reg.get(0) as u32;
        while addr < 0x1_0000 && mem.get(addr as u16) != 0
            invariant
                old(self).transcript() + string_at(mem@, reg@.r[0] as int) == self.transcript()
                    + string_at(mem@, addr as int),
                self.pending() == old(self).pending(),
                addr <= 0x1_0000,
            decreases 0x1_0000 - addr,
        {
            let c = word_to_char(mem.get(addr as u16));
            self.put_char(c);
            addr += 1;
        }
    }

    /// Reports a failure of the machine to the host: the name of the error
    /// and what happened, separated by `": "` and ended by a line break.
    pub fn print_vm_error(&mut self, error_name: &str, error_msg: &str)
        ensures
            final(self).transcript() == old(self).transcript() + error_name@ + seq![':', ' ']
                + error_msg@ + seq!['\n'],
            final(self).pending() == old(self).pending(),
    {
        self.put_str(error_name);
        self.put_char(':');
        self.put_char(' ');
        self.put_str(error_msg);
        self.put_char('\n');
    }

    /// Reports one diagnostic of the assembler to the host, on a line of its
    /// own.
    pub fn print_asm_error(&mut self, error: &str)
        ensures
            final(self).transcript() == old(self).transcript() + error@ + seq!['\n'],
            final(self).pending() == old(self).pending(),
    {
        self.put_str(error);
        self.put_char('\n');
    }

    /// The transcript: what was written and not taken yet.
    pub fn output(&self) -> (out: &Vec<char>)
        ensures
            out@ == self.transcript(),
    {
        &self.output_stream
    }

    /// Hands out the transcript and starts a new, empty one.
    pub fn take_output(&mut self) -> (out: Vec<char>)
        ensures
            out@ == old(self).transcript(),
            final(self).transcript() == Seq::<char>::empty(),
            final(self).pending() == old(self).pending(),
    {
        let mut out: Vec<char> = Vec::new();
        std::mem::swap(&mut out, &mut self.output_stream);
        out
    }
}

/// A target for tests and headless runs: it reads from a queue of bytes that
/// the test filled, and collects what is written.
pub struct DebugIO {
    input_stream: VecDeque<u8>,
    output_stream: VecDeque<u8>,
}

impl DebugIO {
    /// The bytes waiting to be read, oldest first.
    pub closed spec fn input(&self) -> Seq<u8> {
        self.input_stream@
    }

    /// The bytes written so far, oldest first.
    pub closed spec fn output(&self) -> Seq<u8> {
        self.output_stream@
    }

    /// A target with no input waiting and nothing written.
    pub fn new() -> (io: DebugIO)
        ensures
            io.input() == Seq::<u8>::empty(),
            io.output() == Seq::<u8>::empty(),
    {
        DebugIO { input_stream: VecDeque::new(), output_stream: VecDeque::new() }
    }

    /// The bytes written so far, oldest first.
    pub fn collected(&self) -> (out: &VecDeque<u8>)
        ensures
            out@ == self.output(),
    {
        &self.output_stream
    }

    /// A target with `input` waiting to be read.
    pub fn with_input(input: VecDeque<u8>) -> (io: DebugIO)
        ensures
            io.input() == input@,
            io.output() == Seq::<u8>::empty(),
    {
        DebugIO { input_stream: input, output_stream: VecDeque::new() }
    }
}

impl IOTarget for DebugIO {
    /// The oldest waiting byte as a character, or `None` when none waits.
    fn get_char(&mut self) -> (c: Option<char>)
        ensures
            old(self).input().len() == 0 ==> c.is_none(),
            old(self).input().len() > 0 ==> c == Some(old(self).input()[0] as char),
            final(self).input() == if old(self).input().len() > 0 {
                old(self).input().skip(1)
            } else {
                old(self).input()
            },
            final(self).output() == old(self).output(),
    {
        match self.input_stream.pop_front() {
            Some(b) => Some(b as char),
            None => None,
        }
    }

    /// Collects the low byte of the character's code.
    fn put_char(&mut self, c: char)
        ensures
            final(self).output() == old(self).output().push((c as u32 % 256) as u8),
            final(self).input() == old(self).input(),
    {
        let code: u32 = c as u32;
        self.output_stream.push_back((code % 256) as u8);
    }
}

} // verus!
