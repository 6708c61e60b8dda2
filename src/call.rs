//! Call sites, and the argument values recovered at them.

use vstd::prelude::*;

use crate::decode::{decode_insns, decoded, insn_model, Insn, Mnem, Operand};
use crate::function::Function;
use crate::pointer::Pointer;
use crate::section::SectionScanner;

use iced_x86::Instruction;

verus! {

/// A call instruction, with the function that makes it.
pub struct Call {
    /// Where the call instruction stands in its section.
    pub pointer: Pointer,
    /// The function that holds the call.
    pub calling_func: Function,
    /// Offset of the call instruction inside `calling_func`'s bytes.
    pub call_pos: usize,
}

impl Call {
    /// The call at `pointer`, with the function around it recovered.
    pub fn from_xref(scanner: &SectionScanner, pointer: Pointer) -> (r: Self)
        requires
            pointer.value < scanner.data@.len(),
        ensures
            r.pointer == pointer,
            scanner.function_at(pointer.value as int, r.calling_func),
            r.call_pos == pointer.value - crate::function::func_start(scanner.data@, pointer.value as int),
    {
        let mut call_pos: usize = 0;
        let calling_func = scanner.get_func_at(pointer, &mut call_pos);
        Call { pointer, calling_func, call_pos }
    }

    /// The argument state after the instructions that precede the call
    /// inside the calling function, decoded from the function's virtual
    /// address.
    pub fn get_call_values(&self) -> (r: CallValues)
        requires
            self.call_pos <= self.calling_func.bytes@.len(),
            self.calling_func.pointer.value + self.calling_func.pointer.virtual_offset <= u64::MAX,
        ensures
            r.values@ == fold_log(
                decoded(
                    self.calling_func.bytes@.take(self.call_pos as int),
                    (self.calling_func.pointer.value + self.calling_func.pointer.virtual_offset) as u64,
                ).map_values(|i: Instruction| insn_model(i)),
            ),
    {
        let code = slice_prefix(self.calling_func.bytes.as_slice(), self.call_pos);
        let ip = self.calling_func.pointer.value as u64 + self.calling_func.pointer.virtual_offset as u64;
        let insns = decode_insns(code.as_slice(), ip);
        CallValues::from_insns(&insns)
    }
}

fn slice_prefix(b: &[u8], n: usize) -> (r: Vec<u8>)
    requires
        n <= b@.len(),
    ensures
        r@ == b@.take(n as int),
{
    let mut v: Vec<u8> = Vec::new();
    let mut k: usize = 0;
    while k < n
        invariant
            k <= n <= b@.len(),
            v@ == b@.take(k as int),
        decreases n - k,
    {
        v.push(b[k]);
        k = k + 1;
        assert(v@ =~= b@.take(k as int));
    }
    v
}

/// Numbers of the registers that carry the first four integer arguments
/// (iced-x86's `Register` numbering).
pub const REG_RCX: u16 = 54;
pub const REG_RDX: u16 = 55;
pub const REG_R8: u16 = 61;
pub const REG_R9: u16 = 62;
/// Bytes of shadow space above the return address; stack arguments follow.
pub const SHADOW_SPACE: u64 = 32;
/// Size of one stack slot.
pub const SLOT_SIZE: u64 = 8;

/// Where a value is written: a register, or a stack slot keyed by its
/// displacement.
#[derive(Debug, Clone, Copy, PartialEq, Eq, Structural)]
pub enum OpDst {
    Reg(u16),
    Stack(u64),
}

/// What is known of a value.
#[derive(Debug, Clone, Copy, PartialEq, Eq, Structural)]
pub enum OpVal {
    Unknown,
    Immediate(u64),
    Relative(u64),
}

/// `a + b` modulo 2^64.
pub open spec fn add_wrapping(a: u64, b: u64) -> u64 {
    if a + b > u64::MAX {
        (a + b - 0x1_0000_0000_0000_0000) as u64
    } else {
        (a + b) as u64
    }
}

pub open spec fn offset_value(v: OpVal, d: u64) -> OpVal {
    match v {
        OpVal::Unknown => OpVal::Unknown,
        OpVal::Immediate(o) => OpVal::Immediate(add_wrapping(o, d)),
        OpVal::Relative(o) => OpVal::Relative(add_wrapping(o, d)),
    }
}

impl OpVal {
    /// The value moved by a displacement; an unknown value stays unknown.
    pub fn add(self, other: u64) -> (r: OpVal)
        ensures
            r == offset_value(self, other),
    {
        match self {
            OpVal::Unknown => OpVal::Unknown,
            OpVal::Immediate(o) => OpVal::Immediate(o.wrapping_add(other)),
            OpVal::Relative(o) => OpVal::Relative(o.wrapping_add(other)),
        }
    }
}

/// The value last written to `k` in `log`.
pub open spec fn lookup(log: Seq<(OpDst, OpVal)>, k: OpDst) -> Option<OpVal>
    decreases log.len(),
{
    if log.len() == 0 {
        None
    } else if log.last().0 == k {
        Some(log.last().1)
    } else {
        lookup(log.drop_last(), k)
    }
}

pub open spec fn known(log: Seq<(OpDst, OpVal)>, k: OpDst) -> OpVal {
    match lookup(log, k) {
        Some(v) => v,
        None => OpVal::Unknown,
    }
}

/// Where a write to `op` goes.
pub open spec fn destination(op: Operand) -> Option<OpDst> {
    match op {
        Operand::Register(r) => Some(OpDst::Reg(r)),
        Operand::Memory { displacement, .. } => Some(OpDst::Stack(displacement)),
        Operand::IpRelative(a) => Some(OpDst::Stack(a)),
        _ => None,
    }
}

/// What is known of the value of `op`.
pub open spec fn source_value(log: Seq<(OpDst, OpVal)>, op: Operand) -> OpVal {
    match op {
        Operand::Immediate(v) => OpVal::Immediate(v),
        Operand::IpRelative(a) => OpVal::Relative(a),
        Operand::Memory { base, displacement } => offset_value(known(log, OpDst::Reg(base)), displacement),
        Operand::Register(r) => known(log, OpDst::Reg(r)),
        Operand::Other => OpVal::Unknown,
    }
}

/// The effect of a move or address load.
pub open spec fn move_step(log: Seq<(OpDst, OpVal)>, i: Insn) -> Seq<(OpDst, OpVal)> {
    match destination(i.op0) {
        Some(d) => log.push((d, source_value(log, i.op1))),
        None => log,
    }
}

/// The effect of one instruction on the argument state.
pub open spec fn step(log: Seq<(OpDst, OpVal)>, i: Insn) -> Seq<(OpDst, OpVal)> {
    match i.mnemonic {
        Mnem::Mov | Mnem::Lea => move_step(log, i),
        Mnem::Xor => match (i.op0, i.op1) {
            (Operand::Register(a), Operand::Register(b)) => if a == b {
                log.push((OpDst::Reg(a), OpVal::Immediate(0)))
            } else {
                log
            },
            _ => log,
        },
        Mnem::Other => log,
    }
}

/// The argument state after `insns`, in order.
pub open spec fn fold_log(insns: Seq<Insn>) -> Seq<(OpDst, OpVal)>
    decreases insns.len(),
{
    if insns.len() == 0 {
        seq![]
    } else {
        step(fold_log(insns.drop_last()), insns.last())
    }
}

/// Where argument `p` is passed: the first four in RCX, RDX, R8, R9, the
/// rest in stack slots above the shadow space.
pub open spec fn arg_slot(p: int) -> OpDst {
    if p == 0 {
        OpDst::Reg(REG_RCX)
    } else if p == 1 {
        OpDst::Reg(REG_RDX)
    } else if p == 2 {
        OpDst::Reg(REG_R8)
    } else if p == 3 {
        OpDst::Reg(REG_R9)
    } else {
        OpDst::Stack((SHADOW_SPACE + (p - 4) * SLOT_SIZE) as u64)
    }
}

/// The value of argument `p`; zero where nothing was written to its slot.
pub open spec fn arg_value(log: Seq<(OpDst, OpVal)>, p: int) -> OpVal {
    match lookup(log, arg_slot(p)) {
        Some(v) => v,
        None => OpVal::Immediate(0),
    }
}

/// The argument state: every write, in order; a later write to a
/// destination hides the earlier ones.
pub struct CallValues {
    pub values: Vec<(OpDst, OpVal)>,
}

impl CallValues {
    pub fn new() -> (r: Self)
        ensures
            r.values@ == Seq::<(OpDst, OpVal)>::empty(),
    {
        CallValues { values: Vec::new() }
    }

    /// The state after `insns`.
    pub fn from_insns(insns: &Vec<Insn>) -> (r: Self)
        ensures
            r.values@ == fold_log(insns@),
    {
        let mut state = CallValues::new();
        let mut k: usize = 0;
        while k < insns.len()
            invariant
                k <= insns@.len(),
                state.values@ == fold_log(insns@.take(k as int)),
            decreases insns@.len() - k,
        {
            let op = &insns[k];
            proof {
                assert(insns@.take(k + 1).drop_last() =~= insns@.take(k as int));
            }
            match op.mnemonic {
                Mnem::Mov | Mnem::Lea => {
                    state.set_val_op(op);
                },
                Mnem::Xor => {
                    if let (Operand::Register(a), Operand::Register(b)) = (op.op0, op.op1) {
                        if a == b {
                            state.values.push((OpDst::Reg(a), OpVal::Immediate(0)));
                        }
                    }
                },
                Mnem::Other => {},
            }
            k = k + 1;
        }
        assert(insns@.take(k as int) =~= insns@);
        state
    }

    /// Records a move or address load.
    pub fn set_val_op(&mut self, op: &Insn)
        ensures
            final(self).values@ == move_step(old(self).values@, *op),
    {
        let dst = match op.op0 {
            Operand::Register(r) => OpDst::Reg(r),
            Operand::Memory { displacement, .. } => OpDst::Stack(displacement),
            Operand::IpRelative(a) => OpDst::Stack(a),
            _ => {
                return;
            },
        };
        let val = match op.op1 {
            Operand::Immediate(v) => OpVal::Immediate(v),
            Operand::IpRelative(a) => OpVal::Relative(a),
            Operand::Memory { base, displacement } => self.get_val_reg(base).add(displacement),
            Operand::Register(r) => self.get_val_reg(r),
            Operand::Other => OpVal::Unknown,
        };
        self.values.push((dst, val));
    }

    /// What is known of register `reg`.
    pub fn get_val_reg(&self, reg: u16) -> (r: OpVal)
        ensures
            r == known(self.values@, OpDst::Reg(reg)),
    {
        match self.lookup(OpDst::Reg(reg)) {
            Some(v) => v,
            None => OpVal::Unknown,
        }
    }

    /// The value last written to `dst`.
    pub fn lookup(&self, dst: OpDst) -> (r: Option<OpVal>)
        ensures
            r == lookup(self.values@, dst),
    {
        let mut k: usize = self.values.len();
        assert(self.values@.take(k as int) =~= self.values@);
        while k > 0
            invariant
                k <= self.values@.len(),
                lookup(self.values@, dst) == lookup(self.values@.take(k as int), dst),
            decreases k,
        {
            let ghost pre = self.values@.take(k as int);
            assert(pre.drop_last() =~= self.values@.take(k - 1));
            if self.values[k - 1].0 == dst {
                return Some(self.values[k - 1].1);
            }
            k = k - 1;
        }
        None
    }

    /// The first `ct` arguments under the Microsoft x64 convention.
    pub fn get_args(&self, ct: usize) -> (r: Vec<OpVal>)
        requires
            ct <= 0x1000_0000_0000_0000,
        ensures
            r@.len() == ct,
            forall|p: int| 0 <= p < ct ==> #[trigger] r@[p] == arg_value(self.values@, p),
    {
        let mut args: Vec<OpVal> = Vec::new();
        let mut p: usize = 0;
        while p < ct
            invariant
                p <= ct <= 0x1000_0000_0000_0000,
                args@.len() == p,
                forall|q: int| 0 <= q < p ==> #[trigger] args@[q] == arg_value(self.values@, q),
            decreases ct - p,
        {
            let slot = if p == 0 {
                OpDst::Reg(REG_RCX)
            } else if p == 1 {
                OpDst::Reg(REG_RDX)
            } else if p == 2 {
                OpDst::Reg(REG_R8)
            } else if p == 3 {
                OpDst::Reg(REG_R9)
            } else {
                OpDst::Stack(SHADOW_SPACE + (p as u64 - 4) * SLOT_SIZE)
            };
            let v = match self.lookup(slot) {
                Some(v) => v,
                None => OpVal::Immediate(0),
            };
            args.push(v);
            p = p + 1;
        }
        args
    }
}

/// After `MOV RCX, imm; MOV RDX, reg; LEA R8, [RIP + x]`, the first three
/// arguments are the immediate, what was known of `reg` before, and the
/// address that the load designates.
pub proof fn lemma_constructor_args(pre: Seq<Insn>, imm: u64, reg: u16, address: u64)
    requires
        reg != REG_RCX,
    ensures
        ({
            let insns = pre + seq![
                Insn { mnemonic: Mnem::Mov, op0: Operand::Register(REG_RCX), op1: Operand::Immediate(imm) },
                Insn { mnemonic: Mnem::Mov, op0: Operand::Register(REG_RDX), op1: Operand::Register(reg) },
                Insn { mnemonic: Mnem::Lea, op0: Operand::Register(REG_R8), op1: Operand::IpRelative(address) },
            ];
            &&& arg_value(fold_log(insns), 0) == OpVal::Immediate(imm)
            &&& arg_value(fold_log(insns), 1) == known(fold_log(pre), OpDst::Reg(reg))
            &&& arg_value(fold_log(insns), 2) == OpVal::Relative(address)
        }),
{
    let i0 = Insn { mnemonic: Mnem::Mov, op0: Operand::Register(REG_RCX), op1: Operand::Immediate(imm) };
    let i1 = Insn { mnemonic: Mnem::Mov, op0: Operand::Register(REG_RDX), op1: Operand::Register(reg) };
    let i2 = Insn { mnemonic: Mnem::Lea, op0: Operand::Register(REG_R8), op1: Operand::IpRelative(address) };
    let s1 = pre.push(i0);
    let s2 = s1.push(i1);
    let s3 = s2.push(i2);
    assert(pre + seq![i0, i1, i2] =~= s3);
    assert(s1.drop_last() =~= pre);
    assert(s2.drop_last() =~= s1);
    assert(s3.drop_last() =~= s2);
    let l0 = fold_log(pre);
    let l1 = fold_log(s1);
    let l2 = fold_log(s2);
    let l3 = fold_log(s3);
    assert(l1 == l0.push((OpDst::Reg(REG_RCX), OpVal::Immediate(imm))));
    assert(lookup(l1, OpDst::Reg(reg)) == lookup(l0, OpDst::Reg(reg))) by {
        assert(l1.drop_last() =~= l0);
    }
    assert(l2 == l1.push((OpDst::Reg(REG_RDX), known(l0, OpDst::Reg(reg)))));
    assert(l3 == l2.push((OpDst::Reg(REG_R8), OpVal::Relative(address))));
    assert(l3.drop_last() =~= l2);
    assert(l2.drop_last() =~= l1);
    assert(l1.drop_last() =~= l0);
    assert(lookup(l3, OpDst::Reg(REG_RCX)) == lookup(l2, OpDst::Reg(REG_RCX)));
    assert(lookup(l2, OpDst::Reg(REG_RCX)) == lookup(l1, OpDst::Reg(REG_RCX)));
    assert(lookup(l1, OpDst::Reg(REG_RCX)) == Some(OpVal::Immediate(imm)));
    assert(lookup(l3, OpDst::Reg(REG_RDX)) == lookup(l2, OpDst::Reg(REG_RDX)));
    assert(lookup(l2, OpDst::Reg(REG_RDX)) == Some(known(l0, OpDst::Reg(reg))));
    assert(lookup(l3, OpDst::Reg(REG_R8)) == Some(OpVal::Relative(address)));
    assert(arg_slot(0) == OpDst::Reg(REG_RCX));
    assert(arg_slot(1) == OpDst::Reg(REG_RDX));
    assert(arg_slot(2) == OpDst::Reg(REG_R8));
}

/// After `XOR reg, reg`, reading `reg` as a source gives zero.
pub proof fn lemma_xor_zeroes(pre: Seq<Insn>, reg: u16)
    ensures
        known(
            fold_log(pre.push(Insn { mnemonic: Mnem::Xor, op0: Operand::Register(reg), op1: Operand::Register(reg) })),
            OpDst::Reg(reg),
        ) == OpVal::Immediate(0),
{
    let i = Insn { mnemonic: Mnem::Xor, op0: Operand::Register(reg), op1: Operand::Register(reg) };
    assert(pre.push(i).drop_last() =~= pre);
}

} // verus!
