//! Plain data payloads handed to the hosting shell's views, and the
//! row-chunking of the memory display.
use vstd::prelude::*;

verus! {

use crate::bits::{Byte, Word, AddressSize, Checksum};

/// One row of the memory view.
pub const MEMORY_ROW_SIZE: usize = 16;

pub struct RegistersPayload {
    pub register_array: Vec<Word>,
}

impl Default for RegistersPayload {
    fn default() -> (r: Self)
        ensures
            r.register_array@ == seq![0u32, 0u32],
    {
        let r = RegistersPayload { register_array: vec![0, 0] };
        proof {
            assert(r.register_array@ =~= seq![0u32, 0u32]);
        }
        r
    }
}

pub struct FlagsPayload {
    pub n: bool,
    pub c: bool,
    pub z: bool,
    pub v: bool,
    pub i: bool,
}

impl Default for FlagsPayload {
    fn default() -> (r: Self)
        ensures
            !r.n && !r.c && !r.z && !r.v && !r.i,
    {
        FlagsPayload { n: false, c: false, z: false, v: false, i: false }
    }
}

pub struct RAMPayload {
    pub checksum: Checksum,
    pub memory_array: Vec<Vec<Byte>>,
}

impl Default for RAMPayload {
    fn default() -> (r: Self)
        ensures
            r.checksum == 0,
            r.memory_array@ == Seq::<Vec<Byte>>::empty(),
    {
        RAMPayload { checksum: 0, memory_array: Vec::new() }
    }
}

pub struct MemoryPayload {
    pub checksum: Checksum,
    pub loaded: bool,
    pub memory_array: Vec<Byte>,
    pub error: String,
}

impl Default for MemoryPayload {
    fn default() -> (r: Self)
        ensures
            r.checksum == 0,
            !r.loaded,
            r.memory_array@ == Seq::<Byte>::empty(),
            r.error@ == Seq::<char>::empty(),
    {
        MemoryPayload {
            checksum: 0,
            loaded: false,
            memory_array: Vec::new(),
            error: String::new(),
        }
    }
}

/// A stack view entry: an address and the word stored there.
pub struct StackPayload {
    pub sp: Word,
    pub addresses: Vec<(Word, Word)>,
}

/// A disassembly view line: breakpoint state, address, raw word, and text.
pub struct DisassemblyPayload {
    pub pc: Word,
    pub instructions: Vec<(bool, Word, Word, String)>,
}

/// The memory rows the shell's table shows: a short leading row aligns the
/// display offset, full rows hold sixteen bytes, and the remainder closes
/// the table. An input shorter than one row yields only the leading slice.
pub open spec fn chunk_rows(input: Seq<Byte>, offset: Word) -> Seq<Seq<Byte>> {
    let off2: int = if offset < input.len() {
        offset as int
    } else {
        0
    };
    let f = off2 % 16;
    let first: Seq<Seq<Byte>> = if f > 0 {
        seq![input.take(f)]
    } else {
        Seq::empty()
    };
    if input.len() < 16 {
        first
    } else {
        first + chunk_rows_from(input, f, ((input.len() - f) % 16) as int)
    }
}

/// The rows from `pos` on: full rows of sixteen, then the remainder.
pub open spec fn chunk_rows_from(input: Seq<Byte>, pos: int, last: int) -> Seq<Seq<Byte>>
    recommends
        0 <= pos <= input.len(),
        0 <= last < 16,
    decreases input.len() - pos,
{
    if pos < 0 || pos > input.len() {
        Seq::empty()
    } else if input.len() - pos > last && pos + 16 <= input.len() {
        seq![input.subrange(pos, pos + 16)] + chunk_rows_from(input, pos + 16, last)
    } else if last > 0 && pos < input.len() {
        seq![input.subrange(pos, input.len() as int)]
    } else {
        Seq::empty()
    }
}

/// A copied slice of the byte vector.
fn sub_vec(input: &Vec<Byte>, start: usize, end: usize) -> (r: Vec<Byte>)
    requires
        start <= end <= input@.len(),
    ensures
        r@ == input@.subrange(start as int, end as int),
{
    let mut r: Vec<Byte> = Vec::new();
    let mut i = start;
    while i < end
        invariant
            start <= i <= end <= input@.len(),
            r@ == input@.subrange(start as int, i as int),
        decreases end - i,
    {
        r.push(input[i]);
        i = i + 1;
        proof {
            assert(r@ =~= input@.subrange(start as int, i as int));
        }
    }
    r
}

/// Chunks the memory bytes into display rows; an offset past the end is
/// treated as zero.
pub fn chunk_memory(payload_memory_array: Vec<Byte>, offset: AddressSize)
    -> (r: Vec<Vec<Byte>>)
    ensures
        r@.map_values(|v: Vec<Byte>| v@) == chunk_rows(payload_memory_array@, offset),
{
    let input = payload_memory_array;
    let len = input.len();
    let off2: AddressSize = if (offset as u64) >= (len as u64) {
        0
    } else {
        offset
    };
    let f = (off2 % 16) as usize;
    let mut rows: Vec<Vec<Byte>> = Vec::new();
    if f > 0 {
        let head = sub_vec(&input, 0, f);
        rows.push(head);
    }
    proof {
        assert(rows@.map_values(|v: Vec<Byte>| v@) =~= (
            if f > 0 {
                seq![input@.take(f as int)]
            } else {
                Seq::<Seq<Byte>>::empty()
            }));
    }
    if len < 16 {
        return rows;
    }
    let last = (len - f) % 16;
    let mut pos = f;
    while len - pos > last
        invariant
            f <= pos <= len,
            len == input@.len(),
            len >= 16,
            last == ((len - f) % 16) as int,
            last < 16,
            pos % 16 == f % 16,
            rows@.map_values(|v: Vec<Byte>| v@) + chunk_rows_from(input@, pos as int,
                last as int) == chunk_rows(input@, offset),
        decreases len - pos,
    {
        proof {
            vstd::arithmetic::div_mod::lemma_sub_mod_noop(len as int, pos as int, 16);
            vstd::arithmetic::div_mod::lemma_sub_mod_noop(len as int, f as int, 16);
        }
        let row = sub_vec(&input, pos, pos + 16);
        rows.push(row);
        pos = pos + 16;
        proof {
            assert(rows@.map_values(|v: Vec<Byte>| v@) + chunk_rows_from(input@, pos as int,
                last as int) =~= chunk_rows(input@, offset));
        }
    }
    if last > 0 {
        let tail = sub_vec(&input, pos, len);
        rows.push(tail);
    }
    proof {
        assert(rows@.map_values(|v: Vec<Byte>| v@) =~= chunk_rows(input@, offset));
    }
    rows
}

} // verus!
