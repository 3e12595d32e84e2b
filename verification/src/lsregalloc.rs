//! A linear scan register allocator for a single straight-line trace.
//!
//! The code generator states what registers an instruction needs as a list of
//! constraints; the allocator picks a register for each, emits the moves,
//! spills and reloads that bring the operands there, and keeps track of which
//! value each register holds and of where on the stack a value was spilled. A
//! value is spilled to at most one place.

use crate::jit_ir::{
    aligned_up, AbstractStack, AsmInst, CompilationError, Const, ConstIdx, InstIdx, InstKind,
    Module, Operand, PtrAddInst, RevAnalyse, Ty, VarLocation,
};
use crate::regs::{gp_reserved, AnyRegister, RegSet, Register, Rq, Rx};
use vstd::prelude::*;

pub mod assign;
pub mod choice;
pub mod fp;
pub mod fp_plan;
pub mod gp;
pub mod place;
pub mod plan;
pub mod state;

verus! {

/// What is known, or wanted, of the bits of a 64 bit register above the width
/// of the value it holds.
#[derive(Debug, Clone, Copy, PartialEq, Eq, Structural)]
pub enum RegExtension {
    /// Nothing is known of the upper bits, or it does not matter what they are.
    Undefined,
    /// The upper bits are zero.
    ZeroExtended,
    /// The upper bits repeat the value's sign bit.
    SignExtended,
}

impl RegExtension {
    /// The extension of a register that was `self` once it has been brought in
    /// line with `want`: it changes only where something else is wanted.
    pub open spec fn aligned_with(self, want: RegExtension) -> RegExtension {
        if want is Undefined || want == self {
            self
        } else {
            want
        }
    }

    /// Does a register of this extension meet the demand `want`?
    pub open spec fn satisfies(self, want: RegExtension) -> bool {
        want is Undefined || want == self
    }
}

/// What a register holds.
#[derive(Debug, Clone, Copy, PartialEq, Eq, Structural)]
pub enum RegState {
    /// The register is never handed out.
    Reserved,
    /// The register holds nothing of use.
    Empty,
    /// The register holds a constant of the pool.
    FromConst(ConstIdx, RegExtension),
    /// The register holds the value of an instruction.
    FromInst(InstIdx, RegExtension),
}

impl RegState {
    /// Does the register hold the value of `op`?
    pub open spec fn holds(self, op: Operand) -> bool {
        match (op, self) {
            (Operand::Const(c), RegState::FromConst(d, _)) => c == d,
            (Operand::Var(i), RegState::FromInst(j, _)) => i == j,
            _ => false,
        }
    }

    /// Does the register hold a value?
    pub open spec fn occupied(self) -> bool {
        self is FromConst || self is FromInst
    }

    /// The extension of the value held; `Undefined` where nothing is held.
    pub open spec fn ext(self) -> RegExtension {
        match self {
            RegState::FromConst(_, e) => e,
            RegState::FromInst(_, e) => e,
            _ => RegExtension::Undefined,
        }
    }

    /// The same value with extension `e`.
    pub open spec fn with_ext(self, e: RegExtension) -> RegState {
        match self {
            RegState::FromConst(c, _) => RegState::FromConst(c, e),
            RegState::FromInst(i, _) => RegState::FromInst(i, e),
            s => s,
        }
    }

    /// The state of a register that holds `op` with extension `e`.
    pub open spec fn of(op: Operand, e: RegExtension) -> RegState {
        match op {
            Operand::Const(c) => RegState::FromConst(c, e),
            Operand::Var(i) => RegState::FromInst(i, e),
        }
    }

    fn holds_exec(&self, op: &Operand) -> (r: bool)
        ensures
            r == self.holds(*op),
    {
        match (op, self) {
            (Operand::Const(c), RegState::FromConst(d, _)) => *c == *d,
            (Operand::Var(i), RegState::FromInst(j, _)) => *i == *j,
            _ => false,
        }
    }
}

/// Where the value of an instruction has been spilled, if anywhere.
#[derive(Debug, Clone, Copy, PartialEq, Eq, Structural)]
pub enum SpillState {
    /// The value has not been spilled.
    Empty,
    /// The value is on the stack, this many bytes below the base pointer.
    Stack(i32),
    /// The value is the address this many bytes from the base pointer.
    Direct(i32),
    /// The value is a constant.
    ConstInt { bits: u32, v: u64 },
}

/// A constraint on a general purpose register. Each constraint is answered
/// with one register.
#[allow(inconsistent_fields)]
#[derive(Debug, Clone, Copy, PartialEq, Eq, Structural)]
pub enum GPConstraint {
    /// `op` must be in a register with its upper bits as `in_ext` says; in
    /// `force_reg` if that is given. With `clobber_reg` the instruction
    /// destroys the register's content.
    Input { op: Operand, in_ext: RegExtension, force_reg: Option<Rq>, clobber_reg: bool },
    /// `op` must be in a register as for `Input`; the instruction leaves its
    /// result in the same register, with its upper bits as `out_ext` says.
    InputOutput { op: Operand, in_ext: RegExtension, out_ext: RegExtension, force_reg: Option<Rq> },
    /// The instruction leaves its result in a register, with its upper bits
    /// as `out_ext` says; in `force_reg` if that is given.
    Output { out_ext: RegExtension, force_reg: Option<Rq>, can_be_same_as_input: bool },
    /// The instruction destroys the content of `force_reg`.
    Clobber { force_reg: Rq },
    /// The instruction needs a register to scribble in.
    Temporary,
    /// A placeholder: some register is named in answer and must not be used.
    Ignore,
}

impl GPConstraint {
    /// The operand the constraint wants in its register, if it wants one.
    pub open spec fn spec_op(self) -> Option<Operand> {
        match self {
            GPConstraint::Input { op, .. } => Some(op),
            GPConstraint::InputOutput { op, .. } => Some(op),
            _ => None,
        }
    }

    /// The extension the constraint wants of its operand.
    pub open spec fn spec_in_ext(self) -> RegExtension {
        match self {
            GPConstraint::Input { in_ext, .. } => in_ext,
            GPConstraint::InputOutput { in_ext, .. } => in_ext,
            _ => RegExtension::Undefined,
        }
    }

    /// The register the constraint insists on, if it insists on one.
    pub open spec fn spec_force_reg(self) -> Option<Rq> {
        match self {
            GPConstraint::Input { force_reg, .. } => force_reg,
            GPConstraint::InputOutput { force_reg, .. } => force_reg,
            GPConstraint::Output { force_reg, .. } => force_reg,
            GPConstraint::Clobber { force_reg } => Some(force_reg),
            _ => None,
        }
    }

    /// Does the instruction leave its result in the constraint's register?
    pub open spec fn is_output(self) -> bool {
        self is InputOutput || self is Output
    }

    /// Is the content of the constraint's register gone after the instruction?
    pub open spec fn clobbers(self) -> bool {
        match self {
            GPConstraint::Input { clobber_reg, .. } => clobber_reg,
            GPConstraint::Ignore => false,
            _ => true,
        }
    }

    /// What the constraint's register holds once the instruction `iidx` has
    /// run, given that it held `before` when the instruction's operands were
    /// in place.
    pub open spec fn state_after(self, iidx: InstIdx, before: RegState) -> RegState {
        match self {
            GPConstraint::Input { clobber_reg, .. } => if clobber_reg {
                RegState::Empty
            } else {
                before
            },
            GPConstraint::InputOutput { out_ext, .. } => RegState::FromInst(iidx, out_ext),
            GPConstraint::Output { out_ext, .. } => RegState::FromInst(iidx, out_ext),
            GPConstraint::Clobber { .. } => RegState::Empty,
            GPConstraint::Temporary => RegState::Empty,
            GPConstraint::Ignore => before,
        }
    }

    /// The operand the constraint wants in its register, if it wants one.
    pub fn op(&self) -> (r: Option<Operand>)
        ensures
            r == self.spec_op(),
    {
        match self {
            GPConstraint::Input { op, .. } => Some(*op),
            GPConstraint::InputOutput { op, .. } => Some(*op),
            _ => None,
        }
    }

    /// The register the constraint insists on, if it insists on one.
    pub fn force_reg(&self) -> (r: Option<Rq>)
        ensures
            r == self.spec_force_reg(),
    {
        match self {
            GPConstraint::Input { force_reg, .. } => *force_reg,
            GPConstraint::InputOutput { force_reg, .. } => *force_reg,
            GPConstraint::Output { force_reg, .. } => *force_reg,
            GPConstraint::Clobber { force_reg } => Some(*force_reg),
            _ => None,
        }
    }
}

/// What the allocator notes down when a guard is generated, for use when the
/// guard's failure path is generated later.
#[derive(Debug)]
pub struct GuardSnapshot {
    /// The registers to zero extend, each with the width of its value.
    pub regs_to_zero_ext: Vec<(Rq, u32)>,
}

/// The instructions that zero extend the low `bitw` bits of `reg` to all of
/// it; `None` for a width that cannot be extended.
pub open spec fn zero_ext_insts(reg: Rq, bitw: u32) -> Option<Seq<AsmInst>> {
    if 1 <= bitw <= 31 {
        Some(seq![AsmInst::AndImm32 { reg, mask: low_mask(bitw) }])
    } else if bitw == 32 {
        Some(seq![AsmInst::MovZx32 { reg }])
    } else if bitw == 64 {
        Some(Seq::<AsmInst>::empty())
    } else {
        None
    }
}

/// The number whose low `bitw` bits are set, for `bitw` below 32.
pub open spec fn low_mask(bitw: u32) -> i32 {
    ((1u64 << (bitw as u64)) - 1) as i32
}

/// The instructions that sign extend the low `bitw` bits of `reg` to all of
/// it; `None` for a width that cannot be extended. A single bit is masked and
/// negated.
pub open spec fn sign_ext_insts(reg: Rq, bitw: u32) -> Option<Seq<AsmInst>> {
    if bitw == 1 {
        Some(seq![AsmInst::AndOne { reg }, AsmInst::Neg { reg }])
    } else if bitw == 8 || bitw == 16 || bitw == 32 {
        Some(seq![AsmInst::MovSx { reg, from_bits: bitw as u8 }])
    } else if bitw == 64 {
        Some(Seq::<AsmInst>::empty())
    } else {
        None
    }
}

/// The instructions that take a register whose value of `bitw` bits has
/// extension `cur` to one that meets `want`.
pub open spec fn align_insts(reg: Rq, bitw: u32, cur: RegExtension, want: RegExtension) -> Option<
    Seq<AsmInst>,
> {
    if cur.aligned_with(want) == cur {
        Some(Seq::<AsmInst>::empty())
    } else if want is ZeroExtended {
        zero_ext_insts(reg, bitw)
    } else {
        sign_ext_insts(reg, bitw)
    }
}

/// Does some register of `states` hold the value of instruction `q`?
pub open spec fn holds_var(states: Seq<RegState>, q: InstIdx) -> bool {
    exists|c: int| 0 <= c < states.len() && (#[trigger] states[c]).holds(Operand::Var(q))
}

/// Replacing the state of a register that does not hold `q`, or replacing it
/// by one that does, leaves `q` in a register.
pub proof fn lemma_update_keeps(s: Seq<RegState>, c: int, st: RegState, q: InstIdx)
    requires
        0 <= c < s.len(),
        holds_var(s, q),
        !s[c].holds(Operand::Var(q)) || st.holds(Operand::Var(q)),
    ensures
        holds_var(s.update(c, st), q),
{
    let w = choose|w: int| 0 <= w < s.len() && (#[trigger] s[w]).holds(Operand::Var(q));
    if w == c {
        assert(s.update(c, st)[c].holds(Operand::Var(q)));
    } else {
        assert(s.update(c, st)[w].holds(Operand::Var(q)));
    }
}

/// The first register of `states`, from `from` on, that holds `op` and is not
/// in `avoid`.
pub open spec fn first_holder(states: Seq<RegState>, op: Operand, avoid: Set<int>, from: int) -> Option<
    int,
>
    decreases states.len() - from,
{
    if from < 0 || from >= states.len() {
        None
    } else if states[from].holds(op) && !avoid.contains(from) {
        Some(from)
    } else {
        first_holder(states, op, avoid, from + 1)
    }
}

/// What `first_holder` finds holds `op`, is not avoided, and is the first such
/// register; where it finds nothing there is none.
pub proof fn lemma_first_holder(states: Seq<RegState>, op: Operand, avoid: Set<int>, from: int)
    requires
        0 <= from,
    ensures
        match first_holder(states, op, avoid, from) {
            Some(c) => {
                &&& from <= c < states.len()
                &&& states[c].holds(op)
                &&& !avoid.contains(c)
                &&& forall|d: int|
                    from <= d < c ==> !(#[trigger] states[d]).holds(op) || avoid.contains(d)
            },
            None => forall|d: int|
                from <= d < states.len() ==> !(#[trigger] states[d]).holds(op) || avoid.contains(d),
        },
    decreases states.len() - from,
{
    if from < states.len() {
        if !(states[from].holds(op) && !avoid.contains(from)) {
            lemma_first_holder(states, op, avoid, from + 1);
        }
    }
}

/// Find the first register of `states` that holds `op` and is not in `avoid`.
pub fn find_holder<R: Register>(states: &Vec<RegState>, op: &Operand, avoid: &RegSet<R>) -> (r: Option<
    R,
>)
    requires
        states@.len() == 16,
    ensures
        match r {
            Some(reg) => first_holder(states@, *op, avoid@, 0) == Some(reg.spec_code() as int),
            None => first_holder(states@, *op, avoid@, 0) is None,
        },
{
    let mut c: u8 = 0;
    while c < 16
        invariant
            c <= 16,
            states@.len() == 16,
            first_holder(states@, *op, avoid@, 0) == first_holder(states@, *op, avoid@, c as int),
        decreases 16 - c,
    {
        let reg = R::from_code(c);
        if states[c as usize].holds_exec(op) && !avoid.is_set(reg) {
            return Some(reg);
        }
        c = c + 1;
    }
    None
}

/// Is `a` the beginning of `b`?
pub open spec fn extends(a: Seq<AsmInst>, b: Seq<AsmInst>) -> bool {
    a.len() <= b.len() && b.subrange(0, a.len() as int) == a
}

/// A linear scan register allocator.
#[derive(Debug)]
pub struct LSRegAlloc<'a> {
    /// The trace being compiled.
    pub m: &'a Module,
    /// What is known of the lifetime of each value.
    pub rev_an: RevAnalyse,
    /// Which general purpose registers are in use?
    pub gp_regset: RegSet<Rq>,
    /// What does each general purpose register hold?
    pub gp_reg_states: Vec<RegState>,
    /// Which floating point registers are in use?
    pub fp_regset: RegSet<Rx>,
    /// What does each floating point register hold?
    pub fp_reg_states: Vec<RegState>,
    /// Where is each instruction's value spilled?
    pub spills: Vec<SpillState>,
    /// The stack, shared by both register files.
    pub stack: AbstractStack,
}

/// The states of one register file and its set of used registers agree, and
/// name instructions and constants of the trace.
pub open spec fn file_wf(m: &Module, states: Seq<RegState>, used: Set<int>, reserved: Set<int>) -> bool {
    &&& states.len() == 16
    &&& forall|c: int| 0 <= c < 16 ==> (used.contains(c) <==> !(#[trigger] states[c] is Empty))
    &&& forall|c: int| 0 <= c < 16 ==> (reserved.contains(c) <==> #[trigger] states[c] is Reserved)
    &&& forall|c: int|
        0 <= c < 16 ==> match #[trigger] states[c] {
            RegState::FromInst(i, _) => i < m.insts@.len(),
            RegState::FromConst(k, _) => k < m.consts@.len(),
            _ => true,
        }
}

impl<'a> LSRegAlloc<'a> {
    /// The allocator's tables are consistent with each other and with the
    /// trace.
    pub open spec fn wf(&self) -> bool {
        &&& self.m.wf()
        &&& self.rev_an.wf(self.m.insts@.len())
        &&& self.spills@.len() == self.m.insts@.len()
        &&& file_wf(self.m, self.gp_reg_states@, self.gp_regset@, gp_reserved())
        &&& file_wf(self.m, self.fp_reg_states@, self.fp_regset@, Set::<int>::empty())
    }

    /// Can the value of instruction `q` be found: is it a constant, spilled,
    /// or in a register?
    pub open spec fn located(&self, q: InstIdx) -> bool {
        &&& q < self.m.insts@.len()
        &&& (self.m.insts@[q as int].kind is Const || !(self.spills@[q as int] is Empty)
            || holds_var(self.gp_reg_states@, q) || holds_var(self.fp_reg_states@, q))
    }

    /// Every value that `self` can find, `o` can find too.
    pub open spec fn keeps_located(&self, o: &Self) -> bool {
        forall|q: InstIdx| #[trigger] self.located(q) ==> o.located(q)
    }

    /// Every value that is used after `iidx` and that `self` can find, `o` can
    /// find too.
    pub open spec fn keeps_live(&self, o: &Self, iidx: InstIdx) -> bool {
        forall|q: InstIdx|
            #[trigger] self.located(q) && self.rev_an.used_after(iidx, q) ==> o.located(q)
    }

    /// The trace and the analysis are the same in `o`.
    pub open spec fn same_trace(&self, o: &Self) -> bool {
        &&& self.m == o.m
        &&& self.rev_an == o.rev_an
    }

    /// The spill slots that `self` has handed out are unchanged in `o`: a slot,
    /// once allocated, is stable. The stack has not shrunk.
    pub open spec fn spills_stable(&self, o: &Self) -> bool {
        &&& self.spills@.len() == o.spills@.len()
        &&& forall|q: int|
            0 <= q < self.spills@.len() && !(#[trigger] self.spills@[q] is Empty) ==> o.spills@[q]
                == self.spills@[q]
        &&& self.stack.spec_size() <= o.stack.spec_size()
    }

    /// The value in general purpose register `c` is not needed there after
    /// `iidx`: it is no instruction's value, or one that is not used again, or
    /// that is spilled, or that is a constant.
    pub open spec fn gp_droppable(&self, c: int, iidx: InstIdx) -> bool {
        self.droppable(self.gp_reg_states@[c], iidx)
    }

    /// The value that `st` says a register holds need not stay in a register
    /// after `iidx`.
    pub open spec fn droppable(&self, st: RegState, iidx: InstIdx) -> bool {
        match st {
            RegState::FromInst(q, _) => !self.rev_an.used_after(iidx, q) || !(self.spills@[q as int]
                is Empty) || self.m.insts@[q as int].kind is Const,
            _ => true,
        }
    }

    /// General purpose register `c` can be overwritten without losing a value
    /// that is used after `iidx`: what it holds is droppable, or is in another
    /// register too.
    pub open spec fn gp_spare(&self, c: int, iidx: InstIdx) -> bool {
        ||| self.gp_droppable(c, iidx)
        ||| match self.gp_reg_states@[c] {
            RegState::FromInst(q, _) => exists|d: int|
                0 <= d < 16 && d != c && (#[trigger] self.gp_reg_states@[d]).holds(Operand::Var(q)),
            _ => true,
        }
    }

    /// `self` is `o` but for the state of general purpose register `c`, which
    /// is `st`.
    pub open spec fn gp_set(&self, o: &Self, c: int, st: RegState) -> bool {
        &&& self.same_trace(o)
        &&& self.fp_reg_states == o.fp_reg_states
        &&& self.fp_regset == o.fp_regset
        &&& self.spills == o.spills
        &&& self.stack == o.stack
        &&& self.gp_reg_states@ == o.gp_reg_states@.update(c, st)
    }

    /// `self` is `o` but for the general purpose registers.
    pub open spec fn gp_only(&self, o: &Self) -> bool {
        &&& self.same_trace(o)
        &&& self.fp_reg_states == o.fp_reg_states
        &&& self.fp_regset == o.fp_regset
        &&& self.spills == o.spills
        &&& self.stack == o.stack
    }

    /// The width in bits of the value that `st` says a register holds.
    pub open spec fn value_bitw(&self, st: RegState) -> u32 {
        match st {
            RegState::FromConst(c, _) => self.m.consts@[c as int].spec_ty().spec_bitw(),
            RegState::FromInst(i, _) => self.m.insts@[i as int].ty.spec_bitw(),
            _ => 0,
        }
    }

    /// `self` is a state that the allocator can reach from `o` while it
    /// assigns general purpose registers for instruction `iidx`: only the
    /// general purpose registers, the spill slots and the stack differ, spill
    /// slots are stable, and no value that is used after `iidx` is lost.
    pub open spec fn advanced_from(&self, o: &Self, iidx: InstIdx) -> bool {
        &&& self.wf()
        &&& self.same_trace(o)
        &&& self.fp_reg_states == o.fp_reg_states
        &&& self.fp_regset == o.fp_regset
        &&& o.spills_stable(self)
        &&& o.keeps_live(self, iidx)
    }

    /// Reaching is transitive.
    pub proof fn lemma_advanced_trans(a: &Self, b: &Self, c: &Self, iidx: InstIdx)
        requires
            b.advanced_from(a, iidx),
            c.advanced_from(b, iidx),
        ensures
            c.advanced_from(a, iidx),
    {
        assert forall|q: InstIdx| #[trigger]
            a.located(q) && a.rev_an.used_after(iidx, q) implies c.located(q) by {
            assert(b.located(q));
        }
    }

    /// A step that loses no value at all, and keeps the rest in place, is a
    /// step the allocator may take.
    pub proof fn lemma_keeps_located_advances(a: &Self, b: &Self, iidx: InstIdx)
        requires
            b.wf(),
            b.same_trace(a),
            b.fp_reg_states == a.fp_reg_states,
            b.fp_regset == a.fp_regset,
            a.spills_stable(b),
            a.keeps_located(b),
        ensures
            b.advanced_from(a, iidx),
    {
    }

    /// Moving a value from one general purpose register to another that holds
    /// no instruction's value loses no value.
    pub proof fn lemma_move_keeps(o: &Self, n: &Self, from: int, to: int)
        requires
            o.wf(),
            0 <= from < 16,
            0 <= to < 16,
            n.gp_only(o),
            !(o.gp_reg_states@[to] is FromInst),
            n.gp_reg_states@ == o.gp_reg_states@.update(to, o.gp_reg_states@[from]).update(
                from,
                RegState::Empty,
            ),
        ensures
            o.keeps_located(n),
    {
        assert forall|q: InstIdx| #[trigger] o.located(q) implies n.located(q) by {
            if holds_var(o.gp_reg_states@, q) {
                let w = choose|w: int|
                    0 <= w < 16 && (#[trigger] o.gp_reg_states@[w]).holds(Operand::Var(q));
                if w == from {
                    if from != to {
                        assert(n.gp_reg_states@[to].holds(Operand::Var(q)));
                    }
                } else {
                    assert(n.gp_reg_states@[w].holds(Operand::Var(q)));
                }
            }
        }
    }

    /// Exchanging two general purpose registers loses no value.
    pub proof fn lemma_swap_keeps(o: &Self, n: &Self, a: int, b: int)
        requires
            o.wf(),
            0 <= a < 16,
            0 <= b < 16,
            n.gp_only(o),
            n.gp_reg_states@ == o.gp_reg_states@.update(a, o.gp_reg_states@[b]).update(
                b,
                o.gp_reg_states@[a],
            ),
        ensures
            o.keeps_located(n),
    {
        assert forall|q: InstIdx| #[trigger] o.located(q) implies n.located(q) by {
            if holds_var(o.gp_reg_states@, q) {
                let w = choose|w: int|
                    0 <= w < 16 && (#[trigger] o.gp_reg_states@[w]).holds(Operand::Var(q));
                if w == a {
                    assert(n.gp_reg_states@[b].holds(Operand::Var(q)));
                } else if w == b {
                    assert(n.gp_reg_states@[a].holds(Operand::Var(q)));
                } else {
                    assert(n.gp_reg_states@[w].holds(Operand::Var(q)));
                }
            }
        }
    }

    /// Overwriting a general purpose register that holds the value of
    /// instruction `x` loses no other value.
    pub proof fn lemma_gp_set_keeps_but(o: &Self, n: &Self, c: int, st: RegState, x: InstIdx)
        requires
            o.wf(),
            0 <= c < 16,
            n.gp_set(o, c, st),
            o.gp_reg_states@[c].holds(Operand::Var(x)),
        ensures
            forall|q: InstIdx| q != x && #[trigger] o.located(q) ==> n.located(q),
    {
        assert forall|q: InstIdx| q != x && #[trigger] o.located(q) implies n.located(q) by {
            if holds_var(o.gp_reg_states@, q) {
                lemma_update_keeps(o.gp_reg_states@, c, st, q);
            }
        }
    }

    /// Overwriting a general purpose register that is spare loses no value
    /// that is used after `iidx`.
    pub proof fn lemma_gp_set_keeps_live(o: &Self, n: &Self, c: int, st: RegState, iidx: InstIdx)
        requires
            o.wf(),
            0 <= c < 16,
            n.gp_set(o, c, st),
            o.gp_spare(c, iidx),
        ensures
            o.keeps_live(n, iidx),
    {
        assert forall|q: InstIdx| #[trigger]
            o.located(q) && o.rev_an.used_after(iidx, q) implies n.located(q) by {
            if holds_var(o.gp_reg_states@, q) && !(o.m.insts@[q as int].kind is Const) && (
            o.spills@[q as int] is Empty) {
                if o.gp_reg_states@[c].holds(Operand::Var(q)) {
                    let d = choose|d: int|
                        0 <= d < 16 && d != c && (#[trigger] o.gp_reg_states@[d]).holds(
                            Operand::Var(q),
                        );
                    assert(n.gp_reg_states@[d].holds(Operand::Var(q)));
                } else {
                    lemma_update_keeps(o.gp_reg_states@, c, st, q);
                }
            }
        }
    }

    /// Changing a general purpose register that holds no instruction's value,
    /// or changing it to hold the same value, loses no value.
    pub proof fn lemma_gp_set_keeps(o: &Self, n: &Self, c: int, st: RegState)
        requires
            o.wf(),
            0 <= c < 16,
            n.gp_set(o, c, st),
            !(o.gp_reg_states@[c] is FromInst) || st.with_ext(RegExtension::Undefined)
                == o.gp_reg_states@[c].with_ext(RegExtension::Undefined),
        ensures
            o.keeps_located(n),
    {
        assert forall|q: InstIdx| #[trigger] o.located(q) implies n.located(q) by {
            if holds_var(o.gp_reg_states@, q) {
                lemma_update_keeps(o.gp_reg_states@, c, st, q);
            }
        }
    }

    /// Create an allocator for the trace `m`, whose values live as `rev_an`
    /// says, with the interpreter's frame taking up `interp_stack_len` bytes of
    /// the stack already.
    pub fn new(m: &'a Module, rev_an: RevAnalyse, interp_stack_len: usize) -> (ra: Self)
        requires
            m.wf(),
            rev_an.wf(m.insts@.len()),
        ensures
            ra.wf(),
            ra.m == m,
            ra.rev_an == rev_an,
            ra.stack.spec_size() == interp_stack_len,
            forall|c: int| 0 <= c < 16 && !gp_reserved().contains(c) ==> ra.gp_reg_states@[c] is Empty,
            forall|c: int| 0 <= c < 16 ==> ra.fp_reg_states@[c] is Empty,
            forall|q: int| 0 <= q < ra.spills@.len() ==> ra.spills@[q] is Empty,
    {
        let mut stack = AbstractStack::new();
        stack.grow(interp_stack_len);
        let gp_reg_states = fresh_gp_states();
        let fp_reg_states = fresh_fp_states();
        let mut spills: Vec<SpillState> = Vec::new();
        let n = m.insts_len();
        let mut i: usize = 0;
        while i < n
            invariant
                i <= n,
                spills@.len() == i,
                forall|q: int| 0 <= q < i ==> spills@[q] is Empty,
            decreases n - i,
        {
            spills.push(SpillState::Empty);
            i = i + 1;
        }
        LSRegAlloc {
            m,
            rev_an,
            gp_regset: RegSet::with_gp_reserved(),
            gp_reg_states,
            fp_regset: RegSet::with_fp_reserved(),
            fp_reg_states,
            spills,
            stack,
        }
    }

    /// Reset the allocator for the body of the trace, once its header has
    /// been generated: every register that is not reserved is empty again, and
    /// the lifetimes are those of `rev_an`, the analysis of the body. Spill
    /// slots and the stack stay as they are.
    pub fn reset(&mut self, rev_an: RevAnalyse)
        requires
            old(self).wf(),
            rev_an.wf(old(self).m.insts@.len()),
        ensures
            final(self).wf(),
            final(self).m == old(self).m,
            final(self).rev_an == rev_an,
            final(self).spills == old(self).spills,
            final(self).stack == old(self).stack,
            forall|c: int|
                0 <= c < 16 && !gp_reserved().contains(c) ==> final(self).gp_reg_states@[c] is Empty,
            forall|c: int| 0 <= c < 16 ==> final(self).fp_reg_states@[c] is Empty,
    {
        self.gp_reg_states = fresh_gp_states();
        self.gp_regset = RegSet::with_gp_reserved();
        self.fp_reg_states = fresh_fp_states();
        self.fp_regset = RegSet::with_fp_reserved();
        self.rev_an = rev_an;
    }

    /// Align the stack to `align` bytes and return its size after that.
    pub fn align_stack(&mut self, align: usize) -> (n: usize)
        requires
            align > 0,
            aligned_up(old(self).stack.spec_size() as int, align as int) <= usize::MAX,
        ensures
            n == aligned_up(old(self).stack.spec_size() as int, align as int),
            final(self).stack.spec_size() == n,
            final(self).m == old(self).m,
            final(self).rev_an == old(self).rev_an,
            final(self).gp_reg_states == old(self).gp_reg_states,
            final(self).gp_regset == old(self).gp_regset,
            final(self).fp_reg_states == old(self).fp_reg_states,
            final(self).fp_regset == old(self).fp_regset,
            final(self).spills == old(self).spills,
    {
        self.stack.align(align);
        self.stack.size()
    }

    /// The size in bytes of the stack of this trace and of all that came
    /// before it.
    pub fn stack_size(&self) -> (n: usize)
        ensures
            n == self.stack.spec_size(),
    {
        self.stack.size()
    }

    /// The pointer addition folded into the load or store at `iidx`, if there
    /// is one.
    pub fn ptradd(&self, iidx: InstIdx) -> (r: Option<PtrAddInst>)
        requires
            iidx < self.rev_an.ptradds@.len(),
        ensures
            r == self.rev_an.ptradds@[iidx as int],
    {
        self.rev_an.ptradds[iidx]
    }
}

/// The states of the general purpose registers when none holds a value.
fn fresh_gp_states() -> (v: Vec<RegState>)
    ensures
        v@.len() == 16,
        forall|c: int|
            0 <= c < 16 ==> #[trigger] v@[c] == if gp_reserved().contains(c) {
                RegState::Reserved
            } else {
                RegState::Empty
            },
{
    let mut v: Vec<RegState> = Vec::new();
    let mut c: u8 = 0;
    while c < 16
        invariant
            c <= 16,
            v@.len() == c,
            forall|d: int|
                0 <= d < c ==> #[trigger] v@[d] == if gp_reserved().contains(d) {
                    RegState::Reserved
                } else {
                    RegState::Empty
                },
        decreases 16 - c,
    {
        if c == 4 || c == 5 {
            v.push(RegState::Reserved);
        } else {
            v.push(RegState::Empty);
        }
        c = c + 1;
    }
    v
}

/// The states of the floating point registers when none holds a value.
fn fresh_fp_states() -> (v: Vec<RegState>)
    ensures
        v@.len() == 16,
        forall|c: int| 0 <= c < 16 ==> #[trigger] v@[c] == RegState::Empty,
{
    let mut v: Vec<RegState> = Vec::new();
    let mut c: u8 = 0;
    while c < 16
        invariant
            c <= 16,
            v@.len() == c,
            forall|d: int| 0 <= d < c ==> #[trigger] v@[d] == RegState::Empty,
        decreases 16 - c,
    {
        v.push(RegState::Empty);
        c = c + 1;
    }
    v
}

} // verus!
