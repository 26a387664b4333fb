use vstd::prelude::*;

use vstd::string::*;

use crate::cpu::CpuError;
use crate::text::{dump_line, push_bytes, push_hex_padded};
use crate::{hi_byte, lo_byte, to_be_bytes};

verus! {

/// The largest number of cells a memory buffer may hold.
pub const MAX_MEMORY: usize = 65535;

/// A flat buffer of 8-bit cells, addressable by 16-bit addresses.
pub struct Memory {
    memory: Vec<u8>,
}

impl View for Memory {
    type V = Seq<u8>;

    closed spec fn view(&self) -> Seq<u8> {
        self.memory@
    }
}

/// `n` zero bytes.
pub open spec fn zeros(n: nat) -> Seq<u8> {
    Seq::new(n, |i: int| 0u8)
}

/// `mem` with the cells `from..from + value.len()` replaced by `value`.
pub open spec fn splice(mem: Seq<u8>, from: int, value: Seq<u8>) -> Seq<u8> {
    mem.subrange(0, from) + value + mem.subrange(from + value.len(), mem.len() as int)
}

impl Memory {
    /// Every buffer fits the 16-bit address space.
    pub open spec fn wf(&self) -> bool {
        self@.len() <= MAX_MEMORY
    }

    /// A buffer of `size` zeroed cells.
    pub fn new(size: u16) -> (m: Memory)
        ensures
            m@ == zeros(size as nat),
            m.wf(),
    {
        let mut memory: Vec<u8> = Vec::new();
        let mut i: u16 = 0;
        while i < size
            invariant
                i <= size,
                memory@ == zeros(i as nat),
            decreases size - i,
        {
            memory.push(0);
            i = i + 1;
            assert(memory@ =~= zeros(i as nat));
        }
        Memory { memory }
    }

    /// The cell at `index`, if it exists.
    pub fn get(&self, index: usize) -> (r: Option<u8>)
        ensures
            r == (if index < self@.len() {
                Some(self@[index as int])
            } else {
                None
            }),
    {
        if index < self.memory.len() {
            Some(self.memory[index])
        } else {
            None
        }
    }

    /// The cells `from..to`, if that range lies inside the buffer.
    pub fn get_buf(&self, from: usize, to: usize) -> (r: Option<Vec<u8>>)
        ensures
            r.is_some() == (from <= to && to <= self@.len()),
            r.is_some() ==> r.unwrap()@ == self@.subrange(from as int, to as int),
    {
        if from > to || to > self.memory.len() {
            return None;
        }
        let mut buf: Vec<u8> = Vec::new();
        let mut i: usize = from;
        while i < to
            invariant
                from <= i <= to,
                to <= self@.len(),
                buf@ == self@.subrange(from as int, i as int),
            decreases to - i,
        {
            buf.push(self.memory[i]);
            i = i + 1;
            assert(buf@ =~= self@.subrange(from as int, i as int));
        }
        Some(buf)
    }

    /// Sets the cell at `index` to `value`.
    pub fn set(&mut self, index: usize, value: u8)
        requires
            index < old(self)@.len(),
        ensures
            final(self)@ == old(self)@.update(index as int, value),
    {
        self.memory[index] = value;
    }

    /// Overwrites the cells `from..to` with `value`.
    pub fn set_buf(&mut self, from: usize, to: usize, value: &[u8])
        requires
            from <= to <= old(self)@.len(),
            value@.len() == to - from,
        ensures
            final(self)@ == splice(old(self)@, from as int, value@),
    {
        let ghost start = self@;
        let mut i: usize = from;
        while i < to
            invariant
                from <= i <= to,
                to <= start.len(),
                value@.len() == to - from,
                self@ == splice(start, from as int, value@.subrange(0, i - from)),
            decreases to - i,
        {
            self.memory[i] = value[i - from];
            i = i + 1;
            assert(self@ =~= splice(start, from as int, value@.subrange(0, i - from)));
        }
        assert(value@.subrange(0, to - from) =~= value@);
    }

    /// The number of cells.
    pub fn len(&self) -> (r: usize)
        ensures
            r == self@.len(),
    {
        self.memory.len()
    }

    /// A dump of up to eight cells from `addr` on: `0xAAAA: 0xBB 0xBB ...`. An
    /// address past the end of the buffer is a fault.
    pub fn inspect_addr(&self, addr: u16) -> (r: Result<String, CpuError>)
        ensures
            addr > self@.len() ==> r == Err::<String, CpuError>(CpuError::InvalidAddress(addr)),
            addr <= self@.len() ==> (r matches Ok(s) && s@ == dump_line(self@, addr as int)),
    {
        let len = self.memory.len();
        if len < addr as usize {
            return Err(CpuError::InvalidAddress(addr));
        }
        let end = if (addr as usize) + 8 > len {
            len
        } else {
            addr as usize + 8
        };
        let bytes = self.get_buf(addr as usize, end).unwrap();
        let mut out = String::new();
        proof {
            reveal_strlit("0x");
            reveal_strlit(":");
        }
        out.append("0x");
        push_hex_padded(&mut out, addr, 4);
        out.append(":");
        push_bytes(&mut out, &bytes);
        Ok(out)
    }

    /// Whether the buffer has no cells.
    pub fn is_empty(&self) -> (r: bool)
        ensures
            r == (self@.len() == 0),
    {
        self.len() == 0
    }
}

impl Default for Memory {
    /// The largest buffer: every 16-bit address below `0xFFFF`.
    fn default() -> (m: Memory)
        ensures
            m@ == zeros(MAX_MEMORY as nat),
    {
        Memory::new(65535)
    }
}

/// Writes a memory buffer front to back through a cursor that can also be moved.
pub struct MemoryBuilder {
    memory: Memory,
    counter: usize,
}

impl MemoryBuilder {
    /// The cells written so far.
    pub closed spec fn mem(&self) -> Seq<u8> {
        self.memory@
    }

    /// Where the next cell is written.
    pub closed spec fn counter(&self) -> nat {
        self.counter as nat
    }

    /// The buffer fits the 16-bit address space.
    pub open spec fn wf(&self) -> bool {
        self.mem().len() <= MAX_MEMORY
    }

    /// A builder that writes into `memory` from its first cell on.
    pub fn new(memory: Memory) -> (b: MemoryBuilder)
        ensures
            b.mem() == memory@,
            b.counter() == 0,
    {
        MemoryBuilder { memory, counter: 0 }
    }

    /// Writes `value` at the cursor and moves the cursor past it. Returns the
    /// new cursor.
    pub fn push(&mut self, value: u8) -> (r: usize)
        requires
            old(self).wf(),
            old(self).counter() < old(self).mem().len(),
        ensures
            final(self).wf(),
            final(self).mem() == old(self).mem().update(old(self).counter() as int, value),
            final(self).counter() == old(self).counter() + 1,
            r == final(self).counter(),
    {
        self.memory.set(self.counter, value);
        self.counter = self.counter + 1;
        self.counter
    }

    /// Writes `value` big-endian at the cursor and moves the cursor past it.
    /// Returns the new cursor.
    pub fn push_u16(&mut self, value: u16) -> (r: usize)
        requires
            old(self).wf(),
            old(self).counter() + 2 <= old(self).mem().len(),
        ensures
            final(self).wf(),
            final(self).mem() == old(self).mem().update(old(self).counter() as int, hi_byte(value)).update(
                old(self).counter() + 1int,
                lo_byte(value),
            ),
            final(self).counter() == old(self).counter() + 2,
            r == final(self).counter(),
    {
        let bytes = to_be_bytes(value);
        self.push(bytes[0]);
        self.push(bytes[1]);
        self.counter
    }

    /// Where the next cell is written.
    pub fn get_counter(&self) -> (r: usize)
        ensures
            r == self.counter(),
    {
        self.counter
    }

    /// Moves the cursor one cell on without writing; the cell keeps its value.
    pub fn incr(&mut self)
        requires
            old(self).counter() < usize::MAX,
        ensures
            final(self).mem() == old(self).mem(),
            final(self).counter() == old(self).counter() + 1,
    {
        self.counter = self.counter + 1;
    }

    /// Moves the cursor to `counter`; the cells it passes keep their values.
    pub fn set_counter(&mut self, counter: usize)
        ensures
            final(self).mem() == old(self).mem(),
            final(self).counter() == counter,
    {
        self.counter = counter;
    }

    /// The buffer written.
    pub fn build(self) -> (m: Memory)
        ensures
            m@ == self.mem(),
    {
        self.memory
    }
}

} // verus!
