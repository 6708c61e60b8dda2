//! Instruction decoding, done by iced-x86, and the plain model of a decoded
//! instruction that the argument recovery works on.

use vstd::prelude::*;

use iced_x86::{Decoder, DecoderOptions, Instruction, Mnemonic, OpKind};

verus! {

#[verifier::external_type_specification]
#[verifier::external_body]
pub struct ExInstruction(Instruction);

/// The mnemonics that argument recovery tells apart.
#[derive(Debug, Clone, Copy, PartialEq, Eq, Structural)]
pub enum Mnem {
    Mov,
    Lea,
    Xor,
    Other,
}

/// The operand kinds that argument recovery tells apart.
#[derive(Debug, Clone, Copy, PartialEq, Eq, Structural)]
pub enum OpClass {
    Register,
    Immediate,
    Memory,
    Other,
}

/// One operand of a decoded instruction. Registers are given by the number
/// of the full register that holds them, in iced-x86's `Register` numbering.
#[derive(Debug, Clone, Copy, PartialEq, Eq, Structural)]
pub enum Operand {
    Register(u16),
    Immediate(u64),
    /// A memory operand addressed from a base register.
    Memory { base: u16, displacement: u64 },
    /// A memory operand relative to the instruction pointer, by the address it
    /// designates.
    IpRelative(u64),
    Other,
}

/// A decoded instruction: its mnemonic and its first two operands.
#[derive(Debug, Clone, Copy, PartialEq, Eq, Structural)]
pub struct Insn {
    pub mnemonic: Mnem,
    pub op0: Operand,
    pub op1: Operand,
}

/// The instructions that `code` decodes to in 64-bit mode, the first at `ip`.
pub uninterp spec fn decoded(code: Seq<u8>, ip: u64) -> Seq<Instruction>;

pub uninterp spec fn mnemonic_class(i: Instruction) -> Mnem;

pub uninterp spec fn operand_class(i: Instruction, n: u32) -> OpClass;

pub uninterp spec fn operand_full_register(i: Instruction, n: u32) -> u16;

pub uninterp spec fn immediate_value(i: Instruction, n: u32) -> u64;

pub uninterp spec fn memory_base_full_register(i: Instruction) -> u16;

pub uninterp spec fn memory_displacement(i: Instruction) -> u64;

pub uninterp spec fn is_ip_relative(i: Instruction) -> bool;

pub uninterp spec fn ip_relative_address(i: Instruction) -> u64;

/// Relies on iced_x86::Decoder::with_ip and its iterator: the instructions of
/// `code` in 64-bit mode, in order, the first at address `ip`.
#[verifier::external_body]
fn decode(code: &[u8], ip: u64) -> (r: Vec<Instruction>)
    ensures
        r@ == decoded(code@, ip),
{
    let mut decoder = Decoder::with_ip(64, code, ip, DecoderOptions::NONE);
    decoder.iter().collect()
}

/// Relies on iced_x86::Instruction::mnemonic.
#[verifier::external_body]
fn mnemonic_of(i: &Instruction) -> (r: Mnem)
    ensures
        r == mnemonic_class(*i),
{
    match i.mnemonic() {
        Mnemonic::Mov => Mnem::Mov,
        Mnemonic::Lea => Mnem::Lea,
        Mnemonic::Xor => Mnem::Xor,
        _ => Mnem::Other,
    }
}

/// Relies on iced_x86::Instruction::op_kind, which takes operands 0 to 4.
#[verifier::external_body]
fn op_class_of(i: &Instruction, n: u32) -> (r: OpClass)
    requires
        n < 5,
    ensures
        r == operand_class(*i, n),
{
    match i.op_kind(n) {
        OpKind::Register => OpClass::Register,
        OpKind::Immediate8 | OpKind::Immediate8_2nd | OpKind::Immediate16 | OpKind::Immediate32
        | OpKind::Immediate64 | OpKind::Immediate8to16 | OpKind::Immediate8to32
        | OpKind::Immediate8to64 | OpKind::Immediate32to64 => OpClass::Immediate,
        OpKind::Memory => OpClass::Memory,
        _ => OpClass::Other,
    }
}

/// Relies on iced_x86::Instruction::op_register, which takes operands 0 to 4,
/// and Register::full_register.
#[verifier::external_body]
fn op_register_of(i: &Instruction, n: u32) -> (r: u16)
    requires
        n < 5,
    ensures
        r == operand_full_register(*i, n),
{
    i.op_register(n).full_register() as u16
}

/// Relies on iced_x86::Instruction::immediate, which asserts that the operand
/// is an immediate.
#[verifier::external_body]
fn immediate_of(i: &Instruction, n: u32) -> (r: u64)
    requires
        n < 5,
        operand_class(*i, n) == OpClass::Immediate,
    ensures
        r == immediate_value(*i, n),
{
    i.immediate(n)
}

/// Relies on iced_x86::Instruction::memory_base and Register::full_register.
#[verifier::external_body]
fn memory_base_of(i: &Instruction) -> (r: u16)
    ensures
        r == memory_base_full_register(*i),
{
    i.memory_base().full_register() as u16
}

/// Relies on iced_x86::Instruction::memory_displacement64.
#[verifier::external_body]
fn displacement_of(i: &Instruction) -> (r: u64)
    ensures
        r == memory_displacement(*i),
{
    i.memory_displacement64()
}

/// Relies on iced_x86::Instruction::is_ip_rel_memory_operand.
#[verifier::external_body]
fn is_ip_rel_of(i: &Instruction) -> (r: bool)
    ensures
        r == is_ip_relative(*i),
{
    i.is_ip_rel_memory_operand()
}

/// Relies on iced_x86::Instruction::ip_rel_memory_address.
#[verifier::external_body]
fn ip_rel_address_of(i: &Instruction) -> (r: u64)
    ensures
        r == ip_relative_address(*i),
{
    i.ip_rel_memory_address()
}

/// The model of operand `n` of `i`.
pub open spec fn operand_model(i: Instruction, n: u32) -> Operand {
    match operand_class(i, n) {
        OpClass::Register => Operand::Register(operand_full_register(i, n)),
        OpClass::Immediate => Operand::Immediate(immediate_value(i, n)),
        OpClass::Memory => if is_ip_relative(i) {
            Operand::IpRelative(ip_relative_address(i))
        } else {
            Operand::Memory { base: memory_base_full_register(i), displacement: memory_displacement(i) }
        },
        OpClass::Other => Operand::Other,
    }
}

/// The model of `i`.
pub open spec fn insn_model(i: Instruction) -> Insn {
    Insn { mnemonic: mnemonic_class(i), op0: operand_model(i, 0), op1: operand_model(i, 1) }
}

fn operand_of(i: &Instruction, n: u32) -> (r: Operand)
    requires
        n < 2,
    ensures
        r == operand_model(*i, n),
{
    match op_class_of(i, n) {
        OpClass::Register => Operand::Register(op_register_of(i, n)),
        OpClass::Immediate => Operand::Immediate(immediate_of(i, n)),
        OpClass::Memory => if is_ip_rel_of(i) {
            Operand::IpRelative(ip_rel_address_of(i))
        } else {
            Operand::Memory { base: memory_base_of(i), displacement: displacement_of(i) }
        },
        OpClass::Other => Operand::Other,
    }
}

/// Decodes `code`, the first instruction at `ip`, into the plain model.
pub fn decode_insns(code: &[u8], ip: u64) -> (r: Vec<Insn>)
    ensures
        r@ == decoded(code@, ip).map_values(|i: Instruction| insn_model(i)),
{
    let raw = decode(code, ip);
    let mut out: Vec<Insn> = Vec::new();
    let mut k: usize = 0;
    while k < raw.len()
        invariant
            raw@ == decoded(code@, ip),
            k <= raw@.len(),
            out@ == raw@.take(k as int).map_values(|i: Instruction| insn_model(i)),
        decreases raw@.len() - k,
    {
        let i = &raw[k];
        let insn = Insn { mnemonic: mnemonic_of(i), op0: operand_of(i, 0), op1: operand_of(i, 1) };
        out.push(insn);
        k = k + 1;
        assert(out@ =~= raw@.take(k as int).map_values(|i: Instruction| insn_model(i)));
    }
    assert(raw@.take(k as int) =~= raw@);
    out
}

} // verus!
