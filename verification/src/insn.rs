//! The instructions of programs.

use crate::endian::{
    read_i16, read_i32, signed16, signed32, u16_bytes, u16_of, u32_bytes, u32_of, unsigned16,
    unsigned32, Endianness,
};
use crate::error::{ParseError, ParseErrorView};
use vstd::prelude::*;

verus! {

/// One instruction of the virtual machine.
#[allow(non_camel_case_types)]
#[derive(Debug, Copy, Clone)]
pub struct bpf_insn {
    /// The operation.
    pub code: u8,
    /// The numbers of the destination and source registers, four bits each.
    pub registers: u8,
    /// The signed offset.
    pub off: i16,
    /// The signed immediate constant.
    pub imm: i32,
}

/// The instruction that eight bytes stand for in the memory of a machine with
/// the given byte order.
pub open spec fn insn_of(bytes: Seq<u8>, host: Endianness) -> bpf_insn {
    bpf_insn {
        code: bytes[0],
        registers: bytes[1],
        off: signed16(u16_of(bytes.subrange(2, 4), host)),
        imm: signed32(u32_of(bytes.subrange(4, 8), host)),
    }
}

/// The eight bytes of an instruction in the memory of a machine with the
/// given byte order.
pub open spec fn insn_bytes(insn: bpf_insn, host: Endianness) -> Seq<u8> {
    seq![insn.code, insn.registers] + u16_bytes(unsigned16(insn.off), host)
        + u32_bytes(unsigned32(insn.imm), host)
}

/// The bytes of a sequence of instructions.
pub open spec fn code_bytes(insns: Seq<bpf_insn>, host: Endianness) -> Seq<u8>
    decreases insns.len(),
{
    if insns.len() == 0 {
        Seq::empty()
    } else {
        code_bytes(insns.drop_last(), host) + insn_bytes(insns.last(), host)
    }
}

/// The whole instructions in `data`, one after the other.
pub open spec fn insns_of(data: Seq<u8>, host: Endianness) -> Seq<bpf_insn> {
    Seq::new(
        data.len() / 8,
        |i: int| insn_of(data.subrange(8 * i, 8 * i + 8), host),
    )
}

/// The instructions that a piece of code holds, which has to be a whole
/// number of them.
pub open spec fn code_of(data: Seq<u8>, host: Endianness) -> Result<
    Seq<bpf_insn>,
    ParseErrorView,
> {
    if data.len() % 8 == 0 {
        Ok(insns_of(data, host))
    } else {
        Err(ParseErrorView::InvalidProgramCode)
    }
}

/// Copies the instructions out of `data`, as a machine with the byte order
/// `host` finds them in its memory.
pub fn copy_instructions(data: &[u8], host: Endianness) -> (result: Result<
    Vec<bpf_insn>,
    ParseError,
>)
    ensures
        match result {
            Ok(insns) => code_of(data@, host) == Ok::<Seq<bpf_insn>, ParseErrorView>(insns@),
            Err(error) => code_of(data@, host) == Err::<Seq<bpf_insn>, ParseErrorView>(error@),
        },
{
    let length: usize = data.len();
    if length % 8 > 0 {
        return Err(ParseError::InvalidProgramCode);
    }
    let count: usize = length / 8;
    let mut insns: Vec<bpf_insn> = Vec::new();
    let mut i: usize = 0;
    while i < count
        invariant
            i <= count,
            length == data@.len(),
            count == length / 8,
            insns@.len() == i,
            forall|j: int| 0 <= j < i ==> insns@[j] == insns_of(data@, host)[j],
        decreases count - i,
    {
        let at: usize = 8 * i;
        let ghost bytes = data@.subrange(at as int, at + 8);
        assert(bytes.subrange(2, 4) == data@.subrange(at + 2, at + 4));
        assert(bytes.subrange(4, 8) == data@.subrange(at + 4, at + 8));
        let off: i16 = read_i16(data, at + 2, host);
        let imm: i32 = read_i32(data, at + 4, host);
        insns.push(bpf_insn { code: data[at], registers: data[at + 1], off, imm });
        i = i + 1;
    }
    assert(insns@ == insns_of(data@, host));
    Ok(insns)
}

/// Law: an instruction comes back from its bytes.
pub proof fn law_insn_round_trip(insn: bpf_insn, host: Endianness)
    ensures
        insn_bytes(insn, host).len() == 8,
        insn_of(insn_bytes(insn, host), host) == insn,
{
    let bytes = insn_bytes(insn, host);
    crate::endian::law_u16_round_trip(unsigned16(insn.off), host);
    crate::endian::law_u32_round_trip(unsigned32(insn.imm), host);
    assert(bytes.subrange(2, 4) == u16_bytes(unsigned16(insn.off), host));
    assert(bytes.subrange(4, 8) == u32_bytes(unsigned32(insn.imm), host));
}

/// Law: the code of two pieces put together is the code of the first piece
/// followed by that of the second.
pub proof fn law_code_concatenates(front: Seq<u8>, back: Seq<u8>, host: Endianness)
    requires
        front.len() % 8 == 0,
        back.len() % 8 == 0,
    ensures
        (front + back).len() % 8 == 0,
        insns_of(front + back, host) == insns_of(front, host) + insns_of(back, host),
{
    let whole = insns_of(front + back, host);
    let parts = insns_of(front, host) + insns_of(back, host);
    let count = front.len() / 8;
    assert(whole.len() == parts.len());
    assert forall|i: int| 0 <= i < whole.len() implies whole[i] == parts[i] by {
        if i < count {
            assert((front + back).subrange(8 * i, 8 * i + 8) == front.subrange(8 * i, 8 * i + 8));
        } else {
            let j = i - count;
            assert((front + back).subrange(8 * i, 8 * i + 8) == back.subrange(8 * j, 8 * j + 8));
        }
    }
    assert(whole == parts);
}

/// Law: a program comes back from its bytes, instruction by instruction.
#[verifier::spinoff_prover]
pub proof fn law_code_round_trip(insns: Seq<bpf_insn>, host: Endianness)
    ensures
        code_of(code_bytes(insns, host), host) == Ok::<Seq<bpf_insn>, ParseErrorView>(insns),
    decreases insns.len(),
{
    if insns.len() == 0 {
        assert(insns_of(Seq::empty(), host) == insns);
    } else {
        let last = insn_bytes(insns.last(), host);
        law_code_round_trip(insns.drop_last(), host);
        law_insn_round_trip(insns.last(), host);
        law_code_concatenates(code_bytes(insns.drop_last(), host), last, host);
        assert(last.subrange(0, 8) == last);
        assert(insns_of(last, host) == seq![insns.last()]);
        assert(insns.drop_last() + seq![insns.last()] == insns);
    }
}

} // verus!
