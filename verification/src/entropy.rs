//! The injected entropy capability: the one instruction that needs a random
//! byte draws it from a source chosen at construction, either a fixed
//! deterministic sequence or the operating system through the `rand` crate.

use vstd::prelude::*;

verus! {

/// What an entropy source looks like as mathematics: the fixed byte sequence
/// and the cursor into it, or `None` for the system source.
#[verifier::ext_equal]
pub ghost struct EntropyView {
    /// The fixed sequence, while one is configured.
    pub fixed: Option<Seq<u8>>,
    /// The index of the byte the next draw returns.
    pub cursor: nat,
}

/// A source of single random bytes, swappable at construction: a fixed
/// sequence cycled deterministically, or the process-wide generator of the
/// `rand` crate.
pub struct Entropy {
    fixed: Option<Vec<u8>>,
    next: usize,
}

impl View for Entropy {
    type V = EntropyView;

    closed spec fn view(&self) -> EntropyView {
        EntropyView {
            fixed: match self.fixed {
                Some(bytes) => Some(bytes@),
                None => None,
            },
            cursor: self.next as nat,
        }
    }
}

/// Relies on rand::random: one call of the thread-local generator; nothing
/// can be promised of the value drawn.
pub assume_specification<T>[ rand::random::<T> ]() -> (r: T)
    where
        rand::distributions::Standard: rand::distributions::Distribution<T>,
;

impl Entropy {
    /// The cursor of a fixed sequence stays inside it.
    pub open spec fn wf(self) -> bool {
        match self@.fixed {
            Some(bytes) => bytes.len() == 0 || self@.cursor < bytes.len(),
            None => true,
        }
    }

    /// A deterministic source that hands out `bytes` in order, cycling.
    pub fn fixed(bytes: Vec<u8>) -> (r: Entropy)
        ensures
            r.wf(),
            r@.fixed == Some(bytes@),
            r@.cursor == 0,
    {
        Entropy { fixed: Some(bytes), next: 0 }
    }

    /// The operating system's entropy, through the `rand` crate.
    pub fn system() -> (r: Entropy)
        ensures
            r.wf(),
            r@.fixed is None,
    {
        Entropy { fixed: None, next: 0 }
    }

    /// Draws one byte. A fixed source hands out the byte under its cursor
    /// and moves on, wrapping at the end, or 0 forever when its sequence is
    /// empty; of a byte from the system source nothing is promised.
    pub fn next_byte(&mut self) -> (b: u8)
        requires
            old(self).wf(),
        ensures
            final(self).wf(),
            final(self)@.fixed == old(self)@.fixed,
            match old(self)@.fixed {
                Some(bytes) => {
                    &&& bytes.len() == 0 ==> b == 0 && final(self)@.cursor == old(self)@.cursor
                    &&& bytes.len() > 0 ==> b == bytes[old(self)@.cursor as int]
                        && final(self)@.cursor == (old(self)@.cursor + 1) % bytes.len()
                },
                None => final(self)@.cursor == old(self)@.cursor,
            },
    {
        match &self.fixed {
            Some(bytes) => {
                if bytes.len() == 0 {
                    0
                } else {
                    let b = bytes[self.next];
                    self.next = (self.next + 1) % bytes.len();
                    b
                }
            },
            None => rand::random::<u8>(),
        }
    }
}

} // verus!
