//! Decoding of x86-64 machine code, through the iced-x86 decoder.

use vstd::prelude::*;

use iced_x86::{Decoder, DecoderOptions, Mnemonic, OpKind};

verus! {

/// The mnemonics that the module scanner tells apart.
#[derive(Debug, Clone, Copy, PartialEq, Eq, Structural)]
pub enum X86Mnemonic {
    Lea,
    Ret,
    Other,
}

/// What the scanner knows of one decoded instruction.
#[derive(Debug, Clone, Copy, PartialEq, Eq, Structural)]
pub struct ScannedInstruction {
    pub mnemonic: X86Mnemonic,
    /// Whether the second operand is a memory operand.
    pub op1_memory: bool,
    /// The memory displacement, or the absolute address of a RIP-relative
    /// operand.
    pub displacement: u64,
}

/// What iced-x86 decodes, in 64-bit mode without options, as the first
/// instruction of `code` placed at address `ip`: the instruction as the
/// scanner sees it, and the number of bytes it takes.
pub uninterp spec fn x86_first_instruction(code: Seq<u8>, ip: u64) -> (ScannedInstruction, nat);

/// Decodes the first instruction of `code`, placed at address `ip`, with a
/// `Decoder::with_ip` in 64-bit mode without options and its `decode`, and
/// keeps of the `Instruction` its mnemonic (as far as the scanner tells them
/// apart), whether `op1_kind` is a memory operand, its
/// `memory_displacement64` and its `len`. The result is named
/// `x86_first_instruction` of the arguments; the decoder consumes at least
/// one byte (an undecodable instruction too) and no more than there are.
/// (The decoder also refuses a slice that ends within a few bytes of the top
/// of the address space, which no allocation does.)
#[verifier::external_body]
pub(crate) fn decode_first(code: &[u8], ip: u64) -> (r: (ScannedInstruction, usize))
    requires
        code@.len() > 0,
    ensures
        r.0 == x86_first_instruction(code@, ip).0,
        r.1 == x86_first_instruction(code@, ip).1,
        1 <= r.1 <= code@.len(),
{
    let instruction = Decoder::with_ip(64, code, ip, DecoderOptions::NONE).decode();
    let mnemonic = match instruction.mnemonic() {
        Mnemonic::Lea => X86Mnemonic::Lea,
        Mnemonic::Ret => X86Mnemonic::Ret,
        _ => X86Mnemonic::Other,
    };
    let op1_memory = matches!(instruction.op1_kind(), OpKind::Memory);
    let scanned = ScannedInstruction { mnemonic, op1_memory, displacement: instruction.memory_displacement64() };
    (scanned, instruction.len())
}

} // verus!
