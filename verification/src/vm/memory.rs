//! The word store: 65536 words of 16 bits each, one for every address.
use vstd::prelude::*;

verus! {

/// Number of words in the store: one for each 16-bit address.
pub const MEMORY_SIZE: usize = 65536;

/// Whether `file` is a word image that can be loaded: it starts with its
/// origin, and the words after the origin fit between the origin and the top
/// of the address space.
pub open spec fn image_fits(file: Seq<u16>) -> bool {
    file.len() >= 1 && file[0] + (file.len() - 1) <= MEMORY_SIZE
}

/// The store `mem` after the words of `file` that follow its origin were
/// copied to consecutive addresses starting at the origin.
pub open spec fn loaded(mem: Seq<u16>, file: Seq<u16>) -> Seq<u16> {
    Seq::new(
        mem.len(),
        |a: int|
            if file[0] <= a < file[0] + (file.len() - 1) {
                file[a - file[0] + 1]
            } else {
                mem[a]
            },
    )
}

/// The flat address space of the machine.
pub struct Memory {
    inner: [u16; 65536],
}

impl View for Memory {
    type V = Seq<u16>;

    /// The words of the store, indexed by address.
    closed spec fn view(&self) -> Seq<u16> {
        self.inner@
    }
}

impl Memory {
    /// Every store holds exactly one word per address.
    pub proof fn lemma_len(&self)
        ensures
            self@.len() == MEMORY_SIZE,
    {
    }

    /// A store whose words are all zero.
    pub fn new() -> (mem: Memory)
        ensures
            mem@ == Seq::new(MEMORY_SIZE as nat, |a: int| 0u16),
    {
        let mem = Memory { inner: [0u16; 65536] };
        mem
    }

    /// Copies the image `file` into the store: `file[0]` is the origin, and
    /// `file[1..]` goes to the addresses from the origin upwards. All other
    /// words keep their value.
    pub fn load_file(&mut self, file: Vec<u16>)
        requires
            image_fits(file@),
        ensures
            final(self)@ == loaded(old(self)@, file@),
    {
        let origin: usize = file[0] as usize;
        let mut vec_i: usize = 1;
        while vec_i < file.len()
            invariant
                image_fits(file@),
                origin == file@[0],
                1 <= vec_i <= file.len(),
                self@.len() == MEMORY_SIZE,
                forall|a: int|
                    0 <= a < MEMORY_SIZE ==> self@[a] == if origin <= a < origin + (vec_i - 1) {
                        file@[a - origin + 1]
                    } else {
                        old(self)@[a]
                    },
            decreases file.len() - vec_i,
        {
            self.inner[origin + (vec_i - 1)] = file[vec_i];
            vec_i += 1;
        }
    }

    /// The word at address `loc`.
    pub fn get(&self, loc: u16) -> (val: u16)
        ensures
            val == self@[loc as int],
    {
        self.inner[loc as usize]
    }

    /// Stores `val` at address `loc` and leaves every other word alone.
    pub fn set(&mut self, loc: u16, val: u16)
        ensures
            final(self)@ == old(self)@.update(loc as int, val),
    {
        self.inner[loc as usize] = val;
    }

    /// The store that holds `words`, which has to be one word for every
    /// address; `None` for any other number of words.
    pub fn from_words(words: &Vec<u16>) -> (mem: Option<Memory>)
        ensures
            mem.is_some() == (words@.len() == MEMORY_SIZE),
            mem matches Some(m) ==> m@ == words@,
    {
        if words.len() != MEMORY_SIZE {
            return None;
        }
        let mut mem = Memory::new();
        let mut index: usize = 0;
        while index < MEMORY_SIZE
            invariant
                index <= MEMORY_SIZE,
                words@.len() == MEMORY_SIZE,
                mem@.len() == MEMORY_SIZE,
                forall|a: int| 0 <= a < index ==> mem@[a] == words@[a],
            decreases MEMORY_SIZE - index,
        {
            mem.inner[index] = words[index];
            index += 1;
        }
        Some(mem)
    }

    /// All words of the store, by address.
    pub fn to_words(&self) -> (words: Vec<u16>)
        ensures
            words@ == self@,
    {
        let mut words: Vec<u16> = Vec::new();
        let mut index: usize = 0;
        while index < MEMORY_SIZE
            invariant
                index <= MEMORY_SIZE,
                words@.len() == index,
                forall|a: int| 0 <= a < index ==> words@[a] == self@[a],
            decreases MEMORY_SIZE - index,
        {
            words.push(self.inner[index]);
            index += 1;
        }
        words
    }

    /// Resets every word to zero.
    pub fn clear(&mut self)
        ensures
            final(self)@ == Seq::new(MEMORY_SIZE as nat, |a: int| 0u16),
    {
        self.inner = [0u16; 65536];
    }
}

} // verus!
