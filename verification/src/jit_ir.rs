//! The parts of a trace's IR, and of the analyses over it, that code
//! generation reads: instruction result types, constants, the abstract stack,
//! the reverse analysis and the instructions the register allocator emits.

use crate::regs::{AnyRegister, Rq, Rx};
use vstd::prelude::*;

verus! {

/// The index of an instruction in a trace.
pub type InstIdx = usize;

/// The index of a constant in a trace's constant pool.
pub type ConstIdx = usize;

/// Why a trace could not be compiled.
#[derive(Debug, Clone, Copy, PartialEq, Eq, Structural)]
pub enum CompilationError {
    /// The trace uses something the compiler does not handle.
    General,
    /// The trace exceeds a limit of the compiler, such as its length or the
    /// size of its frame.
    LimitExceeded,
    /// An invariant of the compiler itself does not hold.
    InternalError,
    /// Memory for the compiled code could not be had.
    ResourceExhausted,
}

/// An operand of an instruction: the result of an earlier instruction, or a
/// constant.
#[derive(Debug, Clone, Copy, PartialEq, Eq, Structural)]
pub enum Operand {
    Var(InstIdx),
    Const(ConstIdx),
}

/// The type of a value.
#[derive(Debug, Clone, Copy, PartialEq, Eq, Structural)]
pub enum Ty {
    Void,
    /// An integer of the given width in bits.
    Int(u32),
    Ptr,
    /// A 32 bit float.
    Float,
    /// A 64 bit float.
    Double,
}

impl Ty {
    /// The width of a value of this type in bits.
    pub open spec fn spec_bitw(self) -> u32 {
        match self {
            Ty::Void => 0,
            Ty::Int(b) => b,
            Ty::Ptr => 64,
            Ty::Float => 32,
            Ty::Double => 64,
        }
    }

    /// The number of bytes a value of this type takes in memory: its bits
    /// rounded up to whole bytes.
    pub open spec fn spec_byte_size(self) -> usize {
        (self.spec_bitw() / 8 + if self.spec_bitw() % 8 == 0 {
            0u32
        } else {
            1u32
        }) as usize
    }

    pub open spec fn spec_is_float(self) -> bool {
        self is Float || self is Double
    }

    /// The width of a value of this type in bits.
    pub fn bitw(&self) -> (b: u32)
        ensures
            b == self.spec_bitw(),
    {
        match self {
            Ty::Void => 0,
            Ty::Int(b) => *b,
            Ty::Ptr => 64,
            Ty::Float => 32,
            Ty::Double => 64,
        }
    }

    /// The number of bytes a value of this type takes in memory.
    pub fn byte_size(&self) -> (n: usize)
        ensures
            n == self.spec_byte_size(),
            n <= 0x2000_0000,
    {
        let b = self.bitw();
        let extra: u32 = if b % 8 == 0 {
            0
        } else {
            1
        };
        (b / 8 + extra) as usize
    }

    /// Is this one of the two floating point types?
    pub fn is_float(&self) -> (r: bool)
        ensures
            r == self.spec_is_float(),
    {
        match self {
            Ty::Float | Ty::Double => true,
            _ => false,
        }
    }
}

/// A constant of the constant pool.
#[derive(Debug, Clone, Copy, PartialEq, Eq, Structural)]
pub enum Const {
    /// An integer of `bitw` bits, zero extended into `v`.
    Int { bitw: u32, v: u64 },
    /// A floating point number, as its IEEE 754 bit pattern.
    Float { double: bool, bits: u64 },
    /// A pointer.
    Ptr(usize),
}

impl Const {
    pub open spec fn spec_ty(self) -> Ty {
        match self {
            Const::Int { bitw, .. } => Ty::Int(bitw),
            Const::Float { double, .. } => if double {
                Ty::Double
            } else {
                Ty::Float
            },
            Const::Ptr(_) => Ty::Ptr,
        }
    }

    /// The type of the constant.
    pub fn ty(&self) -> (t: Ty)
        ensures
            t == self.spec_ty(),
    {
        match self {
            Const::Int { bitw, .. } => Ty::Int(*bitw),
            Const::Float { double, .. } => if *double {
                Ty::Double
            } else {
                Ty::Float
            },
            Const::Ptr(_) => Ty::Ptr,
        }
    }
}

/// What an instruction is, as far as the register allocator cares.
#[derive(Debug, Clone, Copy, PartialEq, Eq, Structural)]
pub enum InstKind {
    /// The instruction stands for a constant of the pool.
    Const(ConstIdx),
    /// The instruction forwards the value of another.
    Copy(InstIdx),
    /// Any other instruction.
    Other,
}

/// An instruction: what it is and the type of the value it defines.
#[derive(Debug, Clone, Copy, PartialEq, Eq, Structural)]
pub struct Inst {
    pub kind: InstKind,
    pub ty: Ty,
}

/// A trace's instructions and constants.
#[derive(Debug)]
pub struct Module {
    pub insts: Vec<Inst>,
    pub consts: Vec<Const>,
}

impl Module {
    /// Constant instructions and copies name constants and instructions that
    /// exist.
    pub open spec fn wf(&self) -> bool {
        forall|i: int|
            0 <= i < self.insts@.len() ==> match (#[trigger] self.insts@[i]).kind {
                InstKind::Const(c) => c < self.consts@.len(),
                InstKind::Copy(j) => j < self.insts@.len(),
                InstKind::Other => true,
            }
    }

    /// Is `op` an operand of this trace?
    pub open spec fn valid_op(&self, op: Operand) -> bool {
        match op {
            Operand::Var(i) => i < self.insts@.len(),
            Operand::Const(c) => c < self.consts@.len(),
        }
    }

    /// The type of the value `op` stands for.
    pub open spec fn spec_op_ty(&self, op: Operand) -> Ty {
        match op {
            Operand::Var(i) => self.insts@[i as int].ty,
            Operand::Const(c) => self.consts@[c as int].spec_ty(),
        }
    }

    /// Creates a trace of the given instructions and constants.
    pub fn new(insts: Vec<Inst>, consts: Vec<Const>) -> (m: Self)
        ensures
            m.insts == insts,
            m.consts == consts,
    {
        Module { insts, consts }
    }

    /// The number of instructions.
    pub fn insts_len(&self) -> (n: usize)
        ensures
            n == self.insts@.len(),
    {
        self.insts.len()
    }

    /// The instruction at `iidx`.
    pub fn inst(&self, iidx: InstIdx) -> (i: Inst)
        requires
            iidx < self.insts@.len(),
        ensures
            i == self.insts@[iidx as int],
    {
        self.insts[iidx]
    }

    /// The constant at `cidx`.
    pub fn const_(&self, cidx: ConstIdx) -> (c: Const)
        requires
            cidx < self.consts@.len(),
        ensures
            c == self.consts@[cidx as int],
    {
        self.consts[cidx]
    }

    /// The type of the value `op` stands for.
    pub fn op_ty(&self, op: &Operand) -> (t: Ty)
        requires
            self.valid_op(*op),
        ensures
            t == self.spec_op_ty(*op),
    {
        match op {
            Operand::Var(i) => self.insts[*i].ty,
            Operand::Const(c) => self.consts[*c].ty(),
        }
    }
}

/// The stack of a frame as the compiler lays it out: only its size matters.
#[derive(Debug, Clone, Copy, PartialEq, Eq, Structural)]
pub struct AbstractStack {
    size: usize,
}

/// `size` rounded up to the next multiple of `to`.
pub open spec fn aligned_up(size: int, to: int) -> int
    recommends
        to > 0,
{
    if size % to == 0 {
        size
    } else {
        size + (to - size % to)
    }
}

impl AbstractStack {
    pub closed spec fn spec_size(&self) -> usize {
        self.size
    }

    /// An empty stack.
    pub fn new() -> (s: Self)
        ensures
            s.spec_size() == 0,
    {
        AbstractStack { size: 0 }
    }

    /// The size of the stack in bytes.
    #[verifier::when_used_as_spec(spec_size)]
    pub fn size(&self) -> (n: usize)
        ensures
            n == self.spec_size(),
    {
        self.size
    }

    /// Round the size of the stack up to a multiple of `to`.
    pub fn align(&mut self, to: usize)
        requires
            to > 0,
            aligned_up(old(self).spec_size() as int, to as int) <= usize::MAX,
        ensures
            final(self).spec_size() == aligned_up(old(self).spec_size() as int, to as int),
    {
        let rem = self.size % to;
        if rem != 0 {
            self.size = self.size + (to - rem);
        }
    }

    /// Grow the stack by `nbytes` and return its new size.
    pub fn grow(&mut self, nbytes: usize) -> (n: usize)
        requires
            old(self).spec_size() + nbytes <= usize::MAX,
        ensures
            n == old(self).spec_size() + nbytes,
            final(self).spec_size() == n,
    {
        self.size = self.size + nbytes;
        self.size
    }
}

/// A pointer addition folded into the load or store that uses it.
#[derive(Debug, Clone, Copy, PartialEq, Eq, Structural)]
pub struct PtrAddInst {
    pub ptr: Operand,
    pub off: i32,
}

/// What a backwards pass over a trace found out about the lifetime of each
/// instruction's value.
#[derive(Debug)]
pub struct RevAnalyse {
    /// For each instruction, the last instruction that uses its value.
    pub alive_until: Vec<InstIdx>,
    /// For each instruction, the instructions that use its value, in
    /// ascending order.
    pub def_use: Vec<Vec<InstIdx>>,
    /// For each instruction, the register its value would best be put in.
    pub reg_hints: Vec<Option<AnyRegister>>,
    /// For each instruction, the pointer addition folded into it.
    pub ptradds: Vec<Option<PtrAddInst>>,
}

/// The first element of `uses` from position `from` on that is greater than `cur`.
pub open spec fn first_use_after(uses: Seq<InstIdx>, cur: InstIdx, from: int) -> Option<InstIdx>
    decreases uses.len() - from,
{
    if from < 0 || from >= uses.len() {
        None
    } else if uses[from] > cur {
        Some(uses[from])
    } else {
        first_use_after(uses, cur, from + 1)
    }
}

impl RevAnalyse {
    /// The analysis covers a trace of `n` instructions.
    pub open spec fn wf(&self, n: nat) -> bool {
        &&& self.alive_until@.len() == n
        &&& self.def_use@.len() == n
        &&& self.reg_hints@.len() == n
        &&& self.ptradds@.len() == n
    }

    /// Is the value of `query` used by `cur` or a later instruction?
    pub open spec fn used_at(&self, cur: InstIdx, query: InstIdx) -> bool {
        cur <= self.alive_until@[query as int]
    }

    /// Is the value of `query` used by an instruction after `cur`?
    pub open spec fn used_after(&self, cur: InstIdx, query: InstIdx) -> bool {
        cur < self.alive_until@[query as int]
    }

    /// The first use of the value of `query` after `cur`.
    pub open spec fn spec_next_use(&self, cur: InstIdx, query: InstIdx) -> Option<InstIdx> {
        first_use_after(self.def_use@[query as int]@, cur, 0)
    }

    /// Is the value of `query` used by `cur` or a later instruction?
    pub fn is_inst_var_still_used_at(&self, cur: InstIdx, query: InstIdx) -> (r: bool)
        requires
            query < self.alive_until@.len(),
        ensures
            r == self.used_at(cur, query),
    {
        cur <= self.alive_until[query]
    }

    /// Is the value of `query` used by an instruction after `cur`?
    pub fn is_inst_var_still_used_after(&self, cur: InstIdx, query: InstIdx) -> (r: bool)
        requires
            query < self.alive_until@.len(),
        ensures
            r == self.used_after(cur, query),
    {
        cur < self.alive_until[query]
    }

    /// The first use of the value of `query` after `cur`, if there is one.
    pub fn next_use(&self, cur: InstIdx, query: InstIdx) -> (r: Option<InstIdx>)
        requires
            query < self.def_use@.len(),
        ensures
            r == self.spec_next_use(cur, query),
    {
        let uses = &self.def_use[query];
        let mut i: usize = 0;
        while i < uses.len()
            invariant
                i <= uses@.len(),
                uses@ == self.def_use@[query as int]@,
                first_use_after(uses@, cur, 0) == first_use_after(uses@, cur, i as int),
            decreases uses@.len() - i,
        {
            if uses[i] > cur {
                return Some(uses[i]);
            }
            i = i + 1;
        }
        None
    }

    /// The register hint for the value of `iidx`.
    pub fn reg_hint(&self, iidx: InstIdx) -> (r: Option<AnyRegister>)
        requires
            iidx < self.reg_hints@.len(),
        ensures
            r == self.reg_hints@[iidx as int],
    {
        self.reg_hints[iidx]
    }
}

/// An instruction that the register allocator emits. Stack slots are named by
/// their distance below the frame's base pointer.
#[allow(inconsistent_fields)]
#[derive(Debug, Clone, Copy, PartialEq, Eq, Structural)]
pub enum AsmInst {
    /// Copy the 64 bits of `src` into `dst`.
    MovRR { dst: Rq, src: Rq },
    /// Exchange the contents of two registers.
    Xchg { a: Rq, b: Rq },
    /// Store the low `bytes` bytes of `reg` at `off` below the base pointer.
    Store { off: i32, reg: Rq, bytes: u8 },
    /// Load `bytes` bytes from `off` below the base pointer into `reg`,
    /// clearing the rest of the register.
    LoadZx { reg: Rq, off: i32, bytes: u8 },
    /// Put the address `off` above the base pointer into `reg`.
    Lea { reg: Rq, off: i32 },
    /// Put a 32 bit immediate into the low half of `reg`, clearing the rest.
    MovImm32 { reg: Rq, v: i32 },
    /// Put a 64 bit immediate into `reg`.
    MovImm64 { reg: Rq, v: i64 },
    /// And the low half of `reg` with `mask`, clearing the high half.
    AndImm32 { reg: Rq, mask: i32 },
    /// And all of `reg` with 1.
    AndOne { reg: Rq },
    /// Negate `reg`.
    Neg { reg: Rq },
    /// Copy the low half of `reg` onto itself, clearing the high half.
    MovZx32 { reg: Rq },
    /// Sign extend the low `from_bits` bits of `reg` to all of it.
    MovSx { reg: Rq, from_bits: u8 },
    /// Copy a floating point register.
    MovFpRR { dst: Rx, src: Rx },
    /// Exchange two floating point registers.
    SwapFp { a: Rx, b: Rx },
    /// Store the low `bytes` bytes of `reg` at `off` below the base pointer.
    StoreFp { off: i32, reg: Rx, bytes: u8 },
    /// Load `bytes` bytes from `off` below the base pointer into `reg`.
    LoadFp { reg: Rx, off: i32, bytes: u8 },
    /// Put a floating point constant, given as its bit pattern, into `reg`
    /// without disturbing any general purpose register.
    LoadFpImm { reg: Rx, double: bool, bits: u64 },
}

/// Where the value of an instruction is to be found.
#[allow(inconsistent_fields)]
#[derive(Debug, Clone, Copy, PartialEq, Eq, Structural)]
pub enum VarLocation {
    /// In a register.
    Register(AnyRegister),
    /// On the stack, `frame_off` bytes below the base pointer.
    Stack { frame_off: u32, size: usize },
    /// The value is the address `frame_off` bytes from the base pointer.
    Direct { frame_off: i32, size: usize },
    /// An integer constant of `bits` bits.
    ConstInt { bits: u32, v: u64 },
    /// A floating point constant, as its bit pattern.
    ConstFloat { bits: u64 },
}

} // verus!
