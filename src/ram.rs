//! The chip's memory: a fixed-size, zero-initialised byte store with byte
//! and big-endian word access, and mutable views of byte ranges.

use vstd::prelude::*;

verus! {

/// The capacity of the memory in bytes: the classic 4 KiB address space,
/// with programs loaded from 0x200.
pub const RAM_SIZE: usize = 4096;

/// The big-endian word made of `hi` and `lo`.
pub open spec fn word(hi: u8, lo: u8) -> u16 {
    (hi as int * 256 + lo as int) as u16
}

/// Reading a value of type `T` at an address.
pub trait Read<T>: Sized {
    /// Whether a value of type `T` lies wholly inside the memory at `addr`.
    spec fn can_read(&self, addr: usize) -> bool;

    /// The value of type `T` stored at `addr`.
    spec fn read_spec(&self, addr: usize) -> T;

    fn read(&mut self, addr: usize) -> (r: T)
        requires
            old(self).can_read(addr),
        ensures
            r == old(self).read_spec(addr),
            *final(self) == *old(self),
    ;
}

/// Writing a value of type `T` at an address.
pub trait Write<T>: View {
    /// Whether a value of type `T` fits wholly inside the memory at `addr`.
    spec fn can_write(&self, addr: usize) -> bool;

    /// The contents after `value` is stored at `addr`.
    spec fn written(&self, addr: usize, value: T) -> Self::V;

    fn write(&mut self, addr: usize, value: T)
        requires
            old(self).can_write(addr),
        ensures
            final(self)@ == old(self).written(addr, value),
    ;
}

/// A mutable view of `num` consecutive values of type `T`.
pub trait Slice<T>: View {
    /// Whether `num` values of type `T` from `start` lie inside the memory.
    spec fn can_slice(&self, start: usize, num: usize) -> bool;

    /// The `num` values of type `T` stored from `start`.
    spec fn sliced(&self, start: usize, num: usize) -> Seq<T>;

    /// The contents once the `num` values from `start` are replaced by `s`.
    spec fn with_slice(&self, start: usize, num: usize, s: Seq<T>) -> Self::V;

    /// `num` is a number of values of type `T`, not of bytes.
    fn slice(&mut self, start: usize, num: usize) -> (r: &mut [T])
        requires
            old(self).can_slice(start, num),
        ensures
            r@ == old(self).sliced(start, num),
            final(self)@ == old(self).with_slice(start, num, final(r)@),
    ;
}

pub struct Ram {
    mem: Vec<u8>,
}

impl View for Ram {
    type V = Seq<u8>;

    closed spec fn view(&self) -> Seq<u8> {
        self.mem@
    }
}

impl Ram {
    /// The memory holds exactly `RAM_SIZE` bytes.
    pub open spec fn wf(&self) -> bool {
        self@.len() == RAM_SIZE
    }

    /// A memory of `RAM_SIZE` zero bytes.
    pub fn new() -> (r: Ram)
        ensures
            r.wf(),
            r@ == Seq::new(RAM_SIZE as nat, |i: int| 0u8),
    {
        let mut mem: Vec<u8> = Vec::new();
        let mut k: usize = 0;
        while k < RAM_SIZE
            invariant
                k <= RAM_SIZE,
                mem@ == Seq::new(k as nat, |i: int| 0u8),
            decreases RAM_SIZE - k,
        {
            mem.push(0);
            k = k + 1;
        }
        Ram { mem }
    }
}

impl Ram {
    /// The byte at `addr`.
    pub fn get(&self, addr: usize) -> (r: u8)
        requires
            addr < self@.len(),
        ensures
            r == self@[addr as int],
    {
        self.mem[addr]
    }
}

impl Default for Ram {
    fn default() -> (r: Ram)
        ensures
            r.wf(),
            r@ == Seq::new(RAM_SIZE as nat, |i: int| 0u8),
    {
        Ram::new()
    }
}

impl Read<u8> for Ram {
    open spec fn can_read(&self, addr: usize) -> bool {
        addr < self@.len()
    }

    open spec fn read_spec(&self, addr: usize) -> u8 {
        self@[addr as int]
    }

    fn read(&mut self, addr: usize) -> (r: u8) {
        self.mem[addr]
    }
}

impl Read<u16> for Ram {
    open spec fn can_read(&self, addr: usize) -> bool {
        addr + 1 < self@.len()
    }

    open spec fn read_spec(&self, addr: usize) -> u16 {
        word(self@[addr as int], self@[addr + 1])
    }

    fn read(&mut self, addr: usize) -> (r: u16) {
        assert(self.mem@.len() == self.mem.len());
        let hi = self.mem[addr] as u16;
        let lo = self.mem[addr + 1] as u16;
        hi * 256 + lo
    }
}

impl Write<u8> for Ram {
    open spec fn can_write(&self, addr: usize) -> bool {
        addr < self@.len()
    }

    open spec fn written(&self, addr: usize, value: u8) -> Seq<u8> {
        self@.update(addr as int, value)
    }

    fn write(&mut self, addr: usize, value: u8) {
        self.mem.set(addr, value);
    }
}

impl Write<u16> for Ram {
    open spec fn can_write(&self, addr: usize) -> bool {
        addr + 1 < self@.len()
    }

    open spec fn written(&self, addr: usize, value: u16) -> Seq<u8> {
        self@.update(addr as int, (value / 256) as u8).update(addr + 1, (value % 256) as u8)
    }

    fn write(&mut self, addr: usize, value: u16) {
        assert(self.mem@.len() == self.mem.len());
        self.mem.set(addr, (value / 256) as u8);
        self.mem.set(addr + 1, (value % 256) as u8);
    }
}

impl Slice<u8> for Ram {
    open spec fn can_slice(&self, start: usize, num: usize) -> bool {
        start + num <= self@.len()
    }

    open spec fn sliced(&self, start: usize, num: usize) -> Seq<u8> {
        self@.subrange(start as int, start + num)
    }

    open spec fn with_slice(&self, start: usize, num: usize, s: Seq<u8>) -> Seq<u8> {
        self@.subrange(0, start as int) + s + self@.subrange(start + num, self@.len() as int)
    }

    fn slice(&mut self, start: usize, num: usize) -> (r: &mut [u8]) {
        let whole: &mut [u8] = self.mem.as_mut_slice();
        let (before, rest) = whole.split_at_mut(start);
        let (mid, after) = rest.split_at_mut(num);
        assert(final(before)@ == before@ && final(after)@ == after@);
        assert(old(self).with_slice(start, num, final(mid)@) =~= before@ + (final(mid)@ + after@));
        mid
    }
}

} // verus!
