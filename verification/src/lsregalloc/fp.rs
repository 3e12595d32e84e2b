//! Register assignment for the floating point registers.

use crate::jit_ir::{AsmInst, CompilationError, Const, ConstIdx, InstIdx, Operand};
use crate::lsregalloc::gp::spill_off;
use crate::lsregalloc::{
    extends, find_holder, first_holder, holds_var, lemma_first_holder, lemma_update_keeps,
    LSRegAlloc, RegExtension, RegState, SpillState,
};
use crate::jit_ir::aligned_up;
use crate::lsregalloc::choice::{lemma_highest_free, FpChoice};
use crate::lsregalloc::fp_plan::{lemma_highest_empty, Fp};
use crate::regs::{fp_reg, AnyRegister, RegSet, Register, Rx};
use vstd::prelude::*;

verus! {

/// A constraint on a register. Each constraint is answered with one register.
/// Below, `R` is a register that the constraint names and *x* one that the
/// allocator picks.
#[derive(Debug, Clone, Copy, PartialEq, Eq, Structural)]
pub enum RegConstraint<R> {
    /// The operand must be in a register *x*, which the instruction leaves as
    /// it is.
    Input(Operand),
    /// The operand must be in the register `R`, which the instruction leaves
    /// as it is.
    InputIntoReg(Operand, R),
    /// The operand must be in the register `R`, which the instruction
    /// clobbers.
    InputIntoRegAndClobber(Operand, R),
    /// The operand must be in a register *x*, in which the instruction leaves
    /// its result.
    InputOutput(Operand),
    /// The operand must be in the register `R`, in which the instruction
    /// leaves its result.
    InputOutputIntoReg(Operand, R),
    /// The instruction leaves its result in a register *x*.
    Output,
    /// The instruction leaves its result in a register *x*, which may be the
    /// register of an input with the same operand.
    OutputCanBeSameAsInput(Operand),
    /// The instruction leaves its result in the register `R`.
    OutputFromReg(R),
    /// The instruction clobbers the register `R`.
    Clobber(R),
    /// The instruction needs a register to scribble in.
    Temporary,
    /// A placeholder: some register is named in answer and must not be used.
    Ignore,
}

impl<R: Register> RegConstraint<R> {
    /// The operand the constraint wants in its register, if it wants one.
    pub open spec fn spec_operand(self) -> Option<Operand> {
        match self {
            RegConstraint::Input(o) => Some(o),
            RegConstraint::InputIntoReg(o, _) => Some(o),
            RegConstraint::InputIntoRegAndClobber(o, _) => Some(o),
            RegConstraint::InputOutput(o) => Some(o),
            RegConstraint::InputOutputIntoReg(o, _) => Some(o),
            _ => None,
        }
    }

    /// The register the constraint names, if it names one.
    pub open spec fn spec_forced(self) -> Option<R> {
        match self {
            RegConstraint::InputIntoReg(_, r) => Some(r),
            RegConstraint::InputIntoRegAndClobber(_, r) => Some(r),
            RegConstraint::InputOutputIntoReg(_, r) => Some(r),
            RegConstraint::OutputFromReg(r) => Some(r),
            RegConstraint::Clobber(r) => Some(r),
            _ => None,
        }
    }

    /// Does the instruction leave its result in the constraint's register?
    pub open spec fn is_output(self) -> bool {
        self is InputOutput || self is InputOutputIntoReg || self is Output || self is OutputFromReg
            || self is OutputCanBeSameAsInput
    }

    /// Is the register empty once the instruction has run?
    pub open spec fn empties(self) -> bool {
        self is InputIntoRegAndClobber || self is Clobber || self is Temporary
    }

    /// The operand the constraint wants in its register, if it wants one.
    pub fn operand(&self) -> (r: Option<Operand>)
        ensures
            r == self.spec_operand(),
    {
        match self {
            RegConstraint::Input(o) => Some(*o),
            RegConstraint::InputIntoReg(o, _) => Some(*o),
            RegConstraint::InputIntoRegAndClobber(o, _) => Some(*o),
            RegConstraint::InputOutput(o) => Some(*o),
            RegConstraint::InputOutputIntoReg(o, _) => Some(*o),
            _ => None,
        }
    }

    /// The register the constraint names, if it names one.
    pub fn forced(&self) -> (r: Option<R>)
        ensures
            r == self.spec_forced(),
    {
        match self {
            RegConstraint::InputIntoReg(_, r) => Some(*r),
            RegConstraint::InputIntoRegAndClobber(_, r) => Some(*r),
            RegConstraint::InputOutputIntoReg(_, r) => Some(*r),
            RegConstraint::OutputFromReg(r) => Some(*r),
            RegConstraint::Clobber(r) => Some(*r),
            _ => None,
        }
    }
}

/// What the register `st` that answers constraint `c` must hold once the
/// instruction `iidx` has run.
pub open spec fn fp_answer_ok(c: RegConstraint<Rx>, st: RegState, iidx: InstIdx) -> bool {
    if c is Ignore {
        true
    } else if c.empties() {
        st is Empty
    } else if c.is_output() {
        st == RegState::FromInst(iidx, RegExtension::Undefined)
    } else {
        match c.spec_operand() {
            Some(op) => st.holds(op),
            None => true,
        }
    }
}

/// The answer to constraint `k` names a register that no other constraint,
/// placeholders aside, was given.
pub open spec fn fp_unshared(cs: Seq<RegConstraint<Rx>>, regs: Seq<Rx>, k: int) -> bool {
    forall|j: int| 0 <= j < cs.len() && j != k ==> regs[j] != regs[k] || #[trigger] cs[j] is Ignore
}

impl<'a> LSRegAlloc<'a> {
    /// `self` is `o` but for the state of floating point register `c`, which
    /// is `st`.
    pub open spec fn fp_set(&self, o: &Self, c: int, st: RegState) -> bool {
        &&& self.same_trace(o)
        &&& self.gp_reg_states == o.gp_reg_states
        &&& self.gp_regset == o.gp_regset
        &&& self.spills == o.spills
        &&& self.stack == o.stack
        &&& self.fp_reg_states@ == o.fp_reg_states@.update(c, st)
    }

    /// `self` is a state that the allocator can reach from `o` while it
    /// assigns floating point registers for instruction `iidx`.
    pub open spec fn fp_advanced_from(&self, o: &Self, iidx: InstIdx) -> bool {
        &&& self.wf()
        &&& self.same_trace(o)
        &&& self.gp_reg_states == o.gp_reg_states
        &&& self.gp_regset == o.gp_regset
        &&& o.spills_stable(self)
        &&& o.keeps_live(self, iidx)
    }

    /// Floating point register `c` can be overwritten without losing a value
    /// that is used after `iidx`.
    pub open spec fn fp_spare(&self, c: int, iidx: InstIdx) -> bool {
        ||| self.droppable(self.fp_reg_states@[c], iidx)
        ||| match self.fp_reg_states@[c] {
            RegState::FromInst(q, _) => exists|d: int|
                0 <= d < 16 && d != c && (#[trigger] self.fp_reg_states@[d]).holds(Operand::Var(q)),
            _ => true,
        }
    }

    /// Reaching is transitive.
    pub proof fn lemma_fp_advanced_trans(a: &Self, b: &Self, c: &Self, iidx: InstIdx)
        requires
            b.fp_advanced_from(a, iidx),
            c.fp_advanced_from(b, iidx),
        ensures
            c.fp_advanced_from(a, iidx),
    {
        assert forall|q: InstIdx| #[trigger]
            a.located(q) && a.rev_an.used_after(iidx, q) implies c.located(q) by {
            assert(b.located(q));
        }
    }

    /// Overwriting a floating point register that is spare is a step the
    /// allocator may take.
    pub proof fn lemma_fp_set_advances(o: &Self, n: &Self, c: int, st: RegState, iidx: InstIdx)
        requires
            o.wf(),
            n.wf(),
            0 <= c < 16,
            n.fp_set(o, c, st),
            o.fp_spare(c, iidx) || st.with_ext(RegExtension::Undefined) == o.fp_reg_states@[c].with_ext(
                RegExtension::Undefined,
            ),
        ensures
            n.fp_advanced_from(o, iidx),
    {
        assert forall|q: InstIdx| #[trigger]
            o.located(q) && o.rev_an.used_after(iidx, q) implies n.located(q) by {
            if holds_var(o.fp_reg_states@, q) && !(o.m.insts@[q as int].kind is Const) && (
            o.spills@[q as int] is Empty) {
                if o.fp_reg_states@[c].holds(Operand::Var(q)) && !st.holds(Operand::Var(q)) {
                    let d = choose|d: int|
                        0 <= d < 16 && d != c && (#[trigger] o.fp_reg_states@[d]).holds(
                            Operand::Var(q),
                        );
                    assert(n.fp_reg_states@[d].holds(Operand::Var(q)));
                } else {
                    lemma_update_keeps(o.fp_reg_states@, c, st, q);
                }
            }
        }
    }

    /// Record that `reg` now holds what `st` says.
    pub fn set_fp(&mut self, reg: Rx, st: RegState)
        requires
            old(self).wf(),
            !(st is Reserved),
            old(self).state_ok(st),
        ensures
            final(self).wf(),
            final(self).fp_set(old(self), reg.spec_code() as int, st),
    {
        let c = reg.code() as usize;
        self.fp_reg_states.set(c, st);
        match st {
            RegState::Empty => self.fp_regset.unset(reg),
            _ => self.fp_regset.set(reg),
        }
    }

    /// The state of floating point register `reg`.
    pub fn fp_state(&self, reg: Rx) -> (st: RegState)
        requires
            self.wf(),
        ensures
            st == self.fp_reg_states@[reg.spec_code() as int],
            self.state_ok(st),
            !(st is Reserved),
    {
        self.fp_reg_states[reg.code() as usize]
    }

    /// Return the first floating point register that holds the value of `op`,
    /// or `None` if no register holds it.
    pub fn find_op_in_fp_reg(&self, op: &Operand) -> (r: Option<Rx>)
        requires
            self.wf(),
        ensures
            match r {
                Some(reg) => first_holder(self.fp_reg_states@, *op, Set::<int>::empty(), 0) == Some(
                    reg.spec_code() as int,
                ),
                None => first_holder(self.fp_reg_states@, *op, Set::<int>::empty(), 0) is None,
            },
    {
        let none: RegSet<Rx> = RegSet::blank();
        find_holder(&self.fp_reg_states, op, &none)
    }

    /// Is the value of `op` in `reg`?
    pub fn is_input_in_fp_reg(&self, op: &Operand, reg: Rx) -> (r: bool)
        requires
            self.wf(),
        ensures
            r == self.fp_reg_states@[reg.spec_code() as int].holds(*op),
    {
        match (op, self.fp_reg_states[reg.code() as usize]) {
            (Operand::Const(c), RegState::FromConst(d, _)) => *c == d,
            (Operand::Var(i), RegState::FromInst(j, _)) => *i == j,
            _ => false,
        }
    }

    /// Move the value in `old_reg` to `new_reg`; `old_reg` is empty afterwards.
    pub fn move_fp_reg(&mut self, out: &mut Vec<AsmInst>, old_reg: Rx, new_reg: Rx)
        requires
            old(self).wf(),
            old_reg != new_reg,
            old(self).fp_reg_states@[old_reg.spec_code() as int].occupied(),
        ensures
            final(self).wf(),
            final(self).same_trace(old(self)),
            final(self).gp_reg_states == old(self).gp_reg_states,
            final(self).gp_regset == old(self).gp_regset,
            final(self).spills == old(self).spills,
            final(self).stack == old(self).stack,
            final(self).fp_reg_states@ == old(self).fp_reg_states@.update(
                new_reg.spec_code() as int,
                old(self).fp_reg_states@[old_reg.spec_code() as int],
            ).update(old_reg.spec_code() as int, RegState::Empty),
            final(out)@ == old(out)@.push(AsmInst::MovFpRR { dst: new_reg, src: old_reg }),
    {
        proof {
            Rx::lemma_code(old_reg, new_reg);
        }
        out.push(AsmInst::MovFpRR { dst: new_reg, src: old_reg });
        let st = self.fp_state(old_reg);
        self.set_fp(new_reg, st);
        self.set_fp(old_reg, RegState::Empty);
    }

    /// Exchange the values, and the states, of `old_reg` and `new_reg`.
    pub fn swap_fp_reg(&mut self, out: &mut Vec<AsmInst>, old_reg: Rx, new_reg: Rx)
        requires
            old(self).wf(),
            old(self).fp_reg_states@[old_reg.spec_code() as int].occupied(),
            old(self).fp_reg_states@[new_reg.spec_code() as int].occupied(),
        ensures
            final(self).wf(),
            final(self).same_trace(old(self)),
            final(self).gp_reg_states == old(self).gp_reg_states,
            final(self).gp_regset == old(self).gp_regset,
            final(self).spills == old(self).spills,
            final(self).stack == old(self).stack,
            final(self).fp_reg_states@ == old(self).fp_reg_states@.update(
                new_reg.spec_code() as int,
                old(self).fp_reg_states@[old_reg.spec_code() as int],
            ).update(
                old_reg.spec_code() as int,
                old(self).fp_reg_states@[new_reg.spec_code() as int],
            ),
            final(out)@ == old(out)@.push(AsmInst::SwapFp { a: old_reg, b: new_reg }),
    {
        out.push(AsmInst::SwapFp { a: old_reg, b: new_reg });
        let so = self.fp_state(old_reg);
        let sn = self.fp_state(new_reg);
        self.set_fp(new_reg, so);
        self.set_fp(old_reg, sn);
    }

    /// Spill the value in `reg` if it is an instruction's value that has no
    /// spill slot yet. The register keeps its value.
    pub fn spill_fp_if_not_already(&mut self, out: &mut Vec<AsmInst>, reg: Rx) -> (r: Result<
        (),
        CompilationError,
    >)
        requires
            old(self).wf(),
        ensures
            final(self).wf(),
            final(self).same_trace(old(self)),
            final(self).gp_reg_states == old(self).gp_reg_states,
            final(self).gp_regset == old(self).gp_regset,
            final(self).fp_reg_states == old(self).fp_reg_states,
            final(self).fp_regset == old(self).fp_regset,
            old(self).spills_stable(final(self)),
            old(self).keeps_located(final(self)),
            extends(old(out)@, final(out)@),
            ({
                let st = old(self).fp_reg_states@[reg.spec_code() as int];
                let unspilled = st is FromInst && old(self).spills@[st->FromInst_0 as int] is Empty;
                &&& !unspilled ==> r is Ok && *final(self) == *old(self) && final(out)@ == old(out)@
                &&& unspilled ==> {
                    let q = st->FromInst_0;
                    let ty = old(self).m.insts@[q as int].ty;
                    let off = spill_off(old(self).stack.spec_size(), ty.spec_byte_size());
                    match r {
                        Ok(()) => {
                            &&& ty.spec_bitw() == 32 || ty.spec_bitw() == 64
                            &&& off <= i32::MAX
                            &&& final(self).spills@ == old(self).spills@.update(
                                q as int,
                                SpillState::Stack(off as i32),
                            )
                            &&& final(self).stack.spec_size() == off
                            &&& final(out)@ == old(out)@.push(
                                AsmInst::StoreFp {
                                    off: off as i32,
                                    reg,
                                    bytes: ty.spec_byte_size() as u8,
                                },
                            )
                        },
                        Err(e) => {
                            &&& final(self).spills == old(self).spills
                            &&& if ty.spec_bitw() == 32 || ty.spec_bitw() == 64 {
                                e == CompilationError::LimitExceeded && off > i32::MAX
                            } else {
                                e == CompilationError::General
                            }
                        },
                    }
                }
            }),
    {
        proof {
            assert(out@.subrange(0, out@.len() as int) =~= out@);
        }
        let iidx = match self.fp_state(reg) {
            RegState::FromInst(q, _) => q,
            _ => {
                return Ok(());
            },
        };
        if !matches!(self.spills[iidx], SpillState::Empty) {
            return Ok(());
        }
        let ty = self.m.inst(iidx).ty;
        let bitw = ty.bitw();
        let bytew = ty.byte_size();
        if !(bitw == 32 || bitw == 64) {
            return Err(CompilationError::General);
        }
        let size = self.stack.size();
        if size > i32::MAX as usize {
            proof {
                assert(spill_off(size, bytew) > i32::MAX);
            }
            return Err(CompilationError::LimitExceeded);
        }
        assert(aligned_up(size as int, bytew as int) <= size + 8) by {
            assert(0 <= (size as int) % (bytew as int) < bytew as int) by (nonlinear_arith)
                requires
                    bytew > 0,
                    size >= 0,
            ;
        }
        self.stack.align(bytew);
        let frame_off = self.stack.grow(bytew);
        if frame_off > i32::MAX as usize {
            proof {
                assert forall|q: InstIdx| #[trigger] old(self).located(q) implies self.located(q) by {}
            }
            return Err(CompilationError::LimitExceeded);
        }
        let off = frame_off as i32;
        out.push(AsmInst::StoreFp { off, reg, bytes: bytew as u8 });
        self.spills.set(iidx, SpillState::Stack(off));
        proof {
            assert(out@.subrange(0, old(out)@.len() as int) =~= old(out)@);
            assert forall|q: InstIdx| #[trigger] old(self).located(q) implies self.located(q) by {}
        }
        Ok(())
    }

    /// The instructions that bring the value of instruction `iidx` into the
    /// floating point register `reg`: a value that was never spilled is
    /// copied from the first register that holds it, a spilled one is loaded
    /// from its stack slot.
    pub open spec fn fp_unspill_insts(&self, iidx: InstIdx, reg: Rx) -> Option<Seq<AsmInst>> {
        let size = self.m.insts@[iidx as int].ty.spec_byte_size();
        match self.spills@[iidx as int] {
            SpillState::Empty => match first_holder(
                self.fp_reg_states@,
                Operand::Var(iidx),
                Set::<int>::empty(),
                0,
            ) {
                Some(c) => if c == reg.spec_code() {
                    Some(Seq::<AsmInst>::empty())
                } else {
                    Some(seq![AsmInst::MovFpRR { dst: reg, src: fp_reg(c) }])
                },
                None => None,
            },
            SpillState::Stack(off) => if size == 4 || size == 8 {
                Some(seq![AsmInst::LoadFp { reg, off, bytes: size as u8 }])
            } else {
                None
            },
            _ => None,
        }
    }

    /// Emit the instructions that bring the value of instruction `iidx` into
    /// `reg`. It is an internal error if the value is neither spilled nor in
    /// a floating point register.
    pub fn force_fp_unspill(&self, out: &mut Vec<AsmInst>, iidx: InstIdx, reg: Rx) -> (r: Result<
        (),
        CompilationError,
    >)
        requires
            self.wf(),
            iidx < self.m.insts@.len(),
        ensures
            match r {
                Ok(()) => self.fp_unspill_insts(iidx, reg) is Some && final(out)@ == old(out)@
                    + self.fp_unspill_insts(iidx, reg).unwrap(),
                Err(e) => {
                    &&& self.fp_unspill_insts(iidx, reg) is None
                    &&& final(out)@ == old(out)@
                    &&& e == CompilationError::InternalError <==> self.spills@[iidx as int] is Empty
                    &&& e == CompilationError::General <==> !(self.spills@[iidx as int] is Empty)
                },
            },
    {
        let size = self.m.inst(iidx).ty.byte_size();
        match self.spills[iidx] {
            SpillState::Empty => match self.find_op_in_fp_reg(&Operand::Var(iidx)) {
                Some(cur_reg) => {
                    proof {
                        Rx::lemma_code(cur_reg, reg);
                        Rx::lemma_code(cur_reg, fp_reg(cur_reg.spec_code() as int));
                    }
                    if cur_reg != reg {
                        out.push(AsmInst::MovFpRR { dst: reg, src: cur_reg });
                        assert(out@ =~= old(out)@ + seq![AsmInst::MovFpRR { dst: reg, src: cur_reg }]);
                    } else {
                        assert(out@ =~= old(out)@ + Seq::<AsmInst>::empty());
                    }
                    Ok(())
                },
                None => Err(CompilationError::InternalError),
            },
            SpillState::Stack(off) => {
                if size == 4 || size == 8 {
                    out.push(AsmInst::LoadFp { reg, off, bytes: size as u8 });
                    assert(out@ =~= old(out)@ + seq![AsmInst::LoadFp { reg, off, bytes: size as u8 }]);
                    Ok(())
                } else {
                    Err(CompilationError::General)
                }
            },
            _ => Err(CompilationError::General),
        }
    }

    /// Emit the load of the constant `cidx` into `reg`. Only floating point
    /// constants can be loaded into a floating point register.
    pub fn load_const_into_fp_reg(&self, out: &mut Vec<AsmInst>, cidx: ConstIdx, reg: Rx) -> (r:
        Result<(), CompilationError>)
        requires
            cidx < self.m.consts@.len(),
        ensures
            match r {
                Ok(()) => self.m.consts@[cidx as int] is Float && final(out)@ == old(out)@.push(
                    AsmInst::LoadFpImm {
                        reg,
                        double: self.m.consts@[cidx as int]->double,
                        bits: self.m.consts@[cidx as int]->Float_bits,
                    },
                ),
                Err(e) => e == CompilationError::General && !(self.m.consts@[cidx as int] is Float)
                    && final(out)@ == old(out)@,
            },
    {
        match self.m.const_(cidx) {
            Const::Float { double, bits } => {
                out.push(AsmInst::LoadFpImm { reg, double, bits });
                Ok(())
            },
            _ => Err(CompilationError::General),
        }
    }

    /// Put the value of `op` into `reg`, loading it from wherever it is.
    pub fn put_input_in_fp_reg(&mut self, out: &mut Vec<AsmInst>, op: &Operand, reg: Rx) -> (r:
        Result<(), CompilationError>)
        requires
            old(self).wf(),
            old(self).m.valid_op(*op),
        ensures
            extends(old(out)@, final(out)@),
            match r {
                Ok(()) => {
                    &&& final(self).wf()
                    &&& final(self).fp_set(
                        old(self),
                        reg.spec_code() as int,
                        RegState::of(*op, RegExtension::Undefined),
                    )
                    &&& match *op {
                        Operand::Var(q) => old(self).fp_unspill_insts(q, reg) is Some,
                        Operand::Const(_) => true,
                    }
                },
                Err(e) => *final(self) == *old(self) && final(out)@ == old(out)@,
            },
            forall|avoid: Set<int>|
                #![trigger old(self).fp(old(out)@, avoid)]
                final(self).fp_agrees(
                    final(out)@,
                    avoid,
                    r,
                    old(self).fp_fixed().placed(old(self).fp(old(out)@, avoid), *op, reg),
                ),
    {
        proof {
            assert(out@.subrange(0, out@.len() as int) =~= out@);
        }
        let st = match op {
            Operand::Const(cidx) => {
                match self.load_const_into_fp_reg(out, *cidx, reg) {
                    Ok(()) => {},
                    Err(e) => {
                        return Err(e);
                    },
                }
                RegState::FromConst(*cidx, RegExtension::Undefined)
            },
            Operand::Var(iidx) => {
                match self.force_fp_unspill(out, *iidx, reg) {
                    Ok(()) => {},
                    Err(e) => {
                        return Err(e);
                    },
                }
                RegState::FromInst(*iidx, RegExtension::Undefined)
            },
        };
        proof {
            assert(out@.subrange(0, old(out)@.len() as int) =~= old(out)@);
        }
        self.set_fp(reg, st);
        Ok(())
    }

    /// `old_reg` is about to be overwritten. If its value is used after
    /// `cur_iidx`, copy it to a free register outside `avoid`, which then
    /// joins `avoid`; if there is none, make sure the value is spilled.
    pub fn move_or_spill_fp(&mut self, out: &mut Vec<AsmInst>, cur_iidx: InstIdx, avoid: &mut RegSet<
        Rx,
    >, old_reg: Rx) -> (r: Result<(), CompilationError>)
        requires
            old(self).wf(),
        ensures
            final(self).fp_advanced_from(old(self), cur_iidx),
            old(self).keeps_located(final(self)),
            extends(old(out)@, final(out)@),
            forall|c: int| old(avoid)@.contains(c) ==> final(avoid)@.contains(c),
            forall|c: int|
                0 <= c < 16 && (old(avoid)@.contains(c) || c == old_reg.spec_code())
                    ==> final(self).fp_reg_states@[c] == old(self).fp_reg_states@[c],
            forall|c: int|
                0 <= c < 16 && final(self).fp_reg_states@[c] != old(self).fp_reg_states@[c]
                    ==> final(avoid)@.contains(c),
            r is Ok ==> final(self).fp_spare(old_reg.spec_code() as int, cur_iidx),
            r is Err ==> r->Err_0 == CompilationError::General || r->Err_0
                == CompilationError::LimitExceeded,
            final(self).fp_agrees(
                final(out)@,
                final(avoid)@,
                r,
                old(self).fp_fixed().saved(
                    old(self).fp(old(out)@, old(avoid)@),
                    cur_iidx,
                    old_reg,
                ),
            ),
    {
        let ghost o0 = *self;
        proof {
            assert(out@.subrange(0, out@.len() as int) =~= out@);
            lemma_highest_empty(self.fp_reg_states@, self.fp_regset@, avoid@, 15);
        }
        let st = self.fp_state(old_reg);
        match st {
            RegState::FromInst(query_iidx, _) => {
                if self.rev_an.is_inst_var_still_used_after(cur_iidx, query_iidx) {
                    let free = self.fp_regset.find_empty_avoiding(*avoid);
                    proof {
                        lemma_highest_free(self.fp_regset@, avoid@, free);
                    }
                    match free {
                        Some(new_reg) => {
                            proof {
                                Rx::lemma_code(new_reg, old_reg);
                                Rx::lemma_code(new_reg, fp_reg(new_reg.spec_code() as int));
                            }
                            out.push(AsmInst::MovFpRR { dst: new_reg, src: old_reg });
                            avoid.set(new_reg);
                            self.set_fp(new_reg, st);
                            proof {
                                assert(out@.subrange(0, old(out)@.len() as int) =~= old(out)@);
                                assert(self.fp_reg_states@[new_reg.spec_code() as int].holds(
                                    Operand::Var(query_iidx),
                                ));
                                assert forall|q: InstIdx| #[trigger]
                                    o0.located(q) implies self.located(q) by {
                                    if holds_var(o0.fp_reg_states@, q) {
                                        lemma_update_keeps(
                                            o0.fp_reg_states@,
                                            new_reg.spec_code() as int,
                                            st,
                                            q,
                                        );
                                    }
                                }
                            }
                            Ok(())
                        },
                        None => self.spill_fp_if_not_already(out, old_reg),
                    }
                } else {
                    Ok(())
                }
            },
            _ => Ok(()),
        }
    }

    /// The constraints name operands of the trace.
    pub open spec fn fp_constraints_ok(&self, cs: Seq<RegConstraint<Rx>>) -> bool {
        forall|i: int|
            0 <= i < cs.len() ==> match (#[trigger] cs[i]).spec_operand() {
                Some(op) => self.m.valid_op(op),
                None => match cs[i] {
                    RegConstraint::OutputCanBeSameAsInput(op) => self.m.valid_op(op),
                    _ => true,
                },
            }
    }

    /// The first stage for the floating point registers: pick a register for
    /// each constraint, changing nothing. Registers that are named are
    /// given; an output gets the register hinted at for this instruction; an
    /// input in a register stays there; the rest get the highest free
    /// register. Also returned are the registers to avoid from then on: those
    /// picked, placeholders aside. Having to free a register, and an output
    /// that may share its input's register, are not supported.
    pub fn choose_fp_regs(&self, iidx: InstIdx, constraints: &Vec<RegConstraint<Rx>>) -> (r: Result<
        (Vec<Rx>, RegSet<Rx>),
        CompilationError,
    >)
        requires
            self.wf(),
            iidx < self.m.insts@.len(),
        ensures
            match r {
                Ok((regs, avoid)) => {
                    &&& regs@.len() == constraints@.len()
                    &&& forall|i: int|
                        0 <= i < regs@.len() ==> match (#[trigger] constraints@[i]).spec_forced() {
                            Some(reg) => regs@[i] == reg,
                            None => true,
                        }
                    &&& forall|i: int|
                        0 <= i < regs@.len() && !(#[trigger] constraints@[i] is Ignore)
                            ==> avoid.has(regs@[i])
                    &&& forall|i: int|
                        0 <= i < regs@.len() ==> !(#[trigger] constraints@[i]
                            is OutputCanBeSameAsInput)
                },
                Err(e) => e == CompilationError::General,
            },
            match r {
                Ok((regs, avoid)) => self.spec_choose_fp(iidx, constraints@) == Some(
                    (regs@, avoid@),
                ),
                Err(_) => self.spec_choose_fp(iidx, constraints@) is None,
            },
    {
        let n = constraints.len();
        let ghost cs = constraints@;
        let mut avoid: RegSet<Rx> = RegSet::with_fp_reserved();
        let mut asgn: Vec<Option<Rx>> = Vec::new();
        let mut i: usize = 0;
        while i < n
            invariant
                i <= n,
                n == constraints@.len(),
                cs == constraints@,
                asgn@.len() == i,
                Self::fp_forced(cs, i as int) == (FpChoice { regs: asgn@, avoid: avoid@ }),
                forall|j: int|
                    0 <= j < i ==> !(#[trigger] constraints@[j] is OutputCanBeSameAsInput),
                forall|j: int|
                    0 <= j < i ==> match (#[trigger] constraints@[j]).spec_forced() {
                        Some(reg) => asgn@[j] == Some(reg) && avoid.has(reg),
                        None => if constraints@[j] is Ignore {
                            asgn@[j] == Some(Rx::XMM0)
                        } else {
                            asgn@[j] is None
                        },
                    },
            decreases n - i,
        {
            match constraints[i] {
                RegConstraint::OutputCanBeSameAsInput(_) => {
                    return Err(CompilationError::General);
                },
                RegConstraint::Ignore => {
                    asgn.push(Some(Rx::XMM0));
                },
                c => {
                    let f = c.forced();
                    if let Some(reg) = f {
                        avoid.set(reg);
                    }
                    asgn.push(f);
                },
            }
            i = i + 1;
        }
        let hint = self.rev_an.reg_hint(iidx);
        i = 0;
        while i < n
            invariant
                i <= n,
                n == constraints@.len(),
                cs == constraints@,
                asgn@.len() == n,
                self.wf(),
                iidx < self.m.insts@.len(),
                hint == self.rev_an.reg_hints@[iidx as int],
                self.fp_hinted(iidx, cs, i as int) == (FpChoice { regs: asgn@, avoid: avoid@ }),
                forall|j: int|
                    0 <= j < n ==> !(#[trigger] constraints@[j] is OutputCanBeSameAsInput),
                forall|j: int|
                    0 <= j < n ==> match (#[trigger] constraints@[j]).spec_forced() {
                        Some(reg) => asgn@[j] == Some(reg),
                        None => true,
                    },
                forall|j: int|
                    0 <= j < n && !(#[trigger] constraints@[j] is Ignore) ==> match asgn@[j] {
                        Some(reg) => avoid.has(reg),
                        None => true,
                    },
            decreases n - i,
        {
            if asgn[i].is_none() {
                match constraints[i] {
                    RegConstraint::Output | RegConstraint::InputOutput(_) => {
                        if let Some(AnyRegister::FP(reg)) = hint {
                            if !avoid.is_set(reg) {
                                asgn.set(i, Some(reg));
                                avoid.set(reg);
                            }
                        }
                    },
                    _ => {},
                }
            }
            i = i + 1;
        }
        i = 0;
        while i < n
            invariant
                i <= n,
                n == constraints@.len(),
                cs == constraints@,
                asgn@.len() == n,
                self.wf(),
                self.fp_inputs_kept(iidx, cs, i as int) == (FpChoice { regs: asgn@, avoid: avoid@ }),
                forall|j: int|
                    0 <= j < n ==> !(#[trigger] constraints@[j] is OutputCanBeSameAsInput),
                forall|j: int|
                    0 <= j < n ==> match (#[trigger] constraints@[j]).spec_forced() {
                        Some(reg) => asgn@[j] == Some(reg),
                        None => true,
                    },
                forall|j: int|
                    0 <= j < n && !(#[trigger] constraints@[j] is Ignore) ==> match asgn@[j] {
                        Some(reg) => avoid.has(reg),
                        None => true,
                    },
            decreases n - i,
        {
            if asgn[i].is_none() {
                match constraints[i] {
                    RegConstraint::Input(op) | RegConstraint::InputOutput(op) => {
                        if let Operand::Var(_) = op {
                            if let Some(reg) = self.find_op_in_fp_reg(&op) {
                                proof {
                                    Rx::lemma_code(reg, fp_reg(reg.spec_code() as int));
                                }
                                if !avoid.is_set(reg) {
                                    asgn.set(i, Some(reg));
                                    avoid.set(reg);
                                }
                            }
                        }
                    },
                    _ => {},
                }
            }
            i = i + 1;
        }
        let mut regs: Vec<Rx> = Vec::new();
        i = 0;
        while i < n
            invariant
                i <= n,
                n == constraints@.len(),
                cs == constraints@,
                asgn@.len() == n,
                regs@.len() == i,
                self.wf(),
                self.fp_rest(iidx, cs, i as int) matches Some(ch) && ch.avoid == avoid@ && ch.regs.len()
                    == n && forall|j: int|
                    0 <= j < n ==> #[trigger] ch.regs[j] == if j < i {
                        Some(regs@[j])
                    } else {
                        asgn@[j]
                    },
                forall|j: int|
                    0 <= j < n ==> !(#[trigger] constraints@[j] is OutputCanBeSameAsInput),
                forall|j: int|
                    0 <= j < n ==> match (#[trigger] constraints@[j]).spec_forced() {
                        Some(reg) => asgn@[j] == Some(reg),
                        None => true,
                    },
                forall|j: int|
                    0 <= j < n && !(#[trigger] constraints@[j] is Ignore) ==> match asgn@[j] {
                        Some(reg) => avoid.has(reg),
                        None => true,
                    },
                forall|j: int|
                    0 <= j < i ==> (asgn@[j] is None || asgn@[j] == Some(regs@[j])) && (!(
                    #[trigger] constraints@[j] is Ignore) ==> avoid.has(regs@[j])),
                forall|j: int|
                    0 <= j < i ==> match (#[trigger] constraints@[j]).spec_forced() {
                        Some(reg) => regs@[j] == reg,
                        None => true,
                    },
            decreases n - i,
        {
            let reg = match asgn[i] {
                Some(reg) => reg,
                None => {
                    let free = self.fp_regset.find_empty_avoiding(avoid);
                    proof {
                        lemma_highest_free(self.fp_regset@, avoid@, free);
                        if let Some(reg) = free {
                            Rx::lemma_code(reg, fp_reg(reg.spec_code() as int));
                        }
                    }
                    match free {
                        Some(reg) => {
                            avoid.set(reg);
                            reg
                        },
                        None => {
                            proof {
                                assert(self.fp_rest(iidx, cs, i + 1) is None);
                                self.lemma_fp_rest_fails(iidx, cs, i + 1, n as int);
                            }
                            return Err(CompilationError::General);
                        },
                    }
                },
            };
            regs.push(reg);
            i = i + 1;
        }
        proof {
            assert(self.spec_choose_fp(iidx, cs).unwrap().0 =~= regs@);
        }
        Ok((regs, avoid))
    }

    /// Assign floating point registers for the instruction `iidx`: the
    /// answer names one register for each constraint, in order.
    ///
    /// On success each register that only one constraint was given is as the
    /// constraint asks. Either way spill slots that were handed out stay as
    /// they are, no value that is used after `iidx` is lost, and the general
    /// purpose registers are not touched.
    pub fn assign_fp_regs(&mut self, out: &mut Vec<AsmInst>, iidx: InstIdx, constraints: Vec<
        RegConstraint<Rx>,
    >) -> (r: Result<Vec<Rx>, CompilationError>)
        requires
            old(self).wf(),
            iidx < old(self).m.insts@.len(),
            old(self).fp_constraints_ok(constraints@),
        ensures
            final(self).fp_advanced_from(old(self), iidx),
            extends(old(out)@, final(out)@),
            r matches Ok(regs) ==> {
                &&& regs@.len() == constraints@.len()
                &&& forall|k: int|
                    0 <= k < regs@.len() ==> match (#[trigger] constraints@[k]).spec_forced() {
                        Some(reg) => regs@[k] == reg,
                        None => true,
                    }
                &&& forall|k: int|
                    0 <= k < regs@.len() && fp_unshared(constraints@, regs@, k) ==> fp_answer_ok(
                        #[trigger] constraints@[k],
                        final(self).fp_reg_states@[regs@[k].spec_code() as int],
                        iidx,
                    )
            },
            // The answer, the state of the allocator and the instructions
            // emitted are those of the choice carried out; the error is the
            // one that choosing or carrying out ends with.
            match r {
                Ok(regs) => old(self).spec_assign_fp(old(out)@, iidx, constraints@) matches Ok(
                    (picked, g),
                ) && picked == regs@ && g.same_but_avoid(final(self).fp(final(out)@, g.avoid)),
                Err(e) => old(self).spec_assign_fp(old(out)@, iidx, constraints@) == Err::<
                    (Seq<Rx>, Fp),
                    CompilationError,
                >(e),
            },
            // Where no register can be had for a constraint nothing is
            // done.
            old(self).spec_choose_fp(iidx, constraints@) is None ==> {
                &&& r == Err::<Vec<Rx>, CompilationError>(CompilationError::General)
                &&& *final(self) == *old(self)
                &&& final(out)@ == old(out)@
            },
    {
        let ghost o0 = *self;
        let ghost out0 = out@;
        let ghost cs = constraints@;
        proof {
            assert(out@.subrange(0, out@.len() as int) =~= out@);
            assert forall|q: InstIdx| #[trigger] o0.located(q) implies self.located(q) by {}
        }
        let (regs, mut avoid) = match self.choose_fp_regs(iidx, &constraints) {
            Ok(x) => x,
            Err(e) => {
                return Err(e);
            },
        };
        let ghost rs = regs@;
        let n = regs.len();
        // Move operands that are in another register into place, where the
        // place is empty.
        let mut k: usize = 0;
        while k < n
            invariant
                k <= n,
                n == rs.len(),
                rs == regs@,
                cs == constraints@,
                cs.len() == n,
                o0 == *old(self),
                out0 == old(out)@,
                o0.fp_constraints_ok(cs),
                iidx < o0.m.insts@.len(),
                self.fp_advanced_from(&o0, iidx),
                extends(out0, out@),
                o0.spec_choose_fp(iidx, cs) matches Some((picked, _)) && picked == rs,
                self.fp(out@, avoid@).moved_in(cs, rs, k as int) == o0.fp(out0, avoid@).moved_in(
                    cs,
                    rs,
                    0,
                ),
                o0.spec_choose_fp(iidx, cs) == Some((rs, avoid@)),
            decreases n - k,
        {
            let new_reg = regs[k];
            if let Some(op) = constraints[k].operand() {
                proof {
                    lemma_first_holder(self.fp_reg_states@, op, Set::<int>::empty(), 0);
                }
                if let Some(old_reg) = self.find_op_in_fp_reg(&op) {
                    proof {
                        Rx::lemma_code(old_reg, fp_reg(old_reg.spec_code() as int));
                    }
                    if old_reg != new_reg {
                        match self.fp_state(new_reg) {
                            RegState::Empty => {
                                let ghost pre = *self;
                                let ghost pre_out = out@;
                                self.move_fp_reg(out, old_reg, new_reg);
                                proof {
                                    let from = old_reg.spec_code() as int;
                                    let to = new_reg.spec_code() as int;
                                    assert forall|q: InstIdx| #[trigger]
                                        pre.located(q) implies self.located(q) by {
                                        if holds_var(pre.fp_reg_states@, q) {
                                            let w = choose|w: int|
                                                0 <= w < 16 && (#[trigger] pre.fp_reg_states@[w]).holds(
                                                    Operand::Var(q),
                                                );
                                            if w == from {
                                                assert(self.fp_reg_states@[to].holds(
                                                    Operand::Var(q),
                                                ));
                                            } else {
                                                assert(self.fp_reg_states@[w].holds(
                                                    Operand::Var(q),
                                                ));
                                            }
                                        }
                                    }
                                    Self::lemma_fp_advanced_trans(&o0, &pre, self, iidx);
                                    assert(out@.subrange(0, out0.len() as int) =~= out0) by {
                                        assert(pre_out.subrange(0, out0.len() as int) == out0);
                                    }
                                }
                            },
                            _ => {
                                return Err(CompilationError::General);
                            },
                        }
                    }
                }
            }
            k = k + 1;
        }
        // Load what could not be moved, and mark the registers with what
        // they hold once the instruction has run.
        let ghost g1 = self.fp(out@, avoid@);
        let ghost fixed = o0.fp_fixed();
        let ghost av0 = avoid@;
        k = 0;
        while k < n
            invariant
                self.fp_fixed() == fixed,
                fixed == o0.fp_fixed(),
                o0.spec_choose_fp(iidx, cs) == Some((rs, av0)),
                o0.fp(out0, av0).moved_in(cs, rs, 0) == Ok::<Fp, CompilationError>(g1),
                fixed.loaded(self.fp(out@, avoid@), iidx, cs, rs, k as int) == fixed.loaded(
                    g1,
                    iidx,
                    cs,
                    rs,
                    0,
                ),
                k <= n,
                n == rs.len(),
                rs == regs@,
                cs == constraints@,
                cs.len() == n,
                o0 == *old(self),
                out0 == old(out)@,
                o0.fp_constraints_ok(cs),
                iidx < o0.m.insts@.len(),
                self.fp_advanced_from(&o0, iidx),
                extends(out0, out@),
                o0.spec_choose_fp(iidx, cs) matches Some((picked, _)) && picked == rs,
                forall|j: int| 0 <= j < n && !(#[trigger] cs[j] is Ignore) ==> avoid.has(rs[j]),
                forall|j: int| 0 <= j < n ==> !(#[trigger] cs[j] is OutputCanBeSameAsInput),
                forall|j: int|
                    0 <= j < k && fp_unshared(cs, rs, j) ==> fp_answer_ok(
                        #[trigger] cs[j],
                        self.fp_reg_states@[rs[j].spec_code() as int],
                        iidx,
                    ),
            decreases n - k,
        {
            let cnstr = constraints[k];
            let reg = regs[k];
            let ghost c = reg.spec_code() as int;
            let ghost start = *self;
            let ghost start_out = out@;
            if !matches!(cnstr, RegConstraint::Ignore) {
                let in_place = match cnstr.operand() {
                    Some(op) => self.is_input_in_fp_reg(&op, reg),
                    None => false,
                };
                let keeps = in_place && matches!(
                    cnstr,
                    RegConstraint::Input(_) | RegConstraint::InputIntoReg(_, _)
                );
                if !keeps {
                    // What the register holds is about to be lost.
                    let saved = self.move_or_spill_fp(out, iidx, &mut avoid, reg);
                    proof {
                        Self::lemma_fp_advanced_trans(&o0, &start, self, iidx);
                        assert(out@.subrange(0, out0.len() as int) =~= out0) by {
                            assert(start_out.subrange(0, out0.len() as int) == out0);
                        }
                    }
                    if let Err(e) = saved {
                        return Err(e);
                    }
                    let ghost mid = *self;
                    let ghost mid_out = out@;
                    if !in_place {
                        if let Some(op) = cnstr.operand() {
                            let put = self.put_input_in_fp_reg(out, &op, reg);
                            proof {
                                assert(out@.subrange(0, out0.len() as int) =~= out0) by {
                                    assert(mid_out.subrange(0, out0.len() as int) == out0);
                                }
                            }
                            if let Err(e) = put {
                                return Err(e);
                            }
                            proof {
                                Self::lemma_fp_set_advances(
                                    &mid,
                                    self,
                                    c,
                                    RegState::of(op, RegExtension::Undefined),
                                    iidx,
                                );
                                Self::lemma_fp_advanced_trans(&o0, &mid, self, iidx);
                            }
                        }
                    }
                    let ghost late = *self;
                    let next: Option<RegState> = match cnstr {
                        RegConstraint::InputIntoRegAndClobber(_, _)
                        | RegConstraint::Clobber(_)
                        | RegConstraint::Temporary => Some(RegState::Empty),
                        RegConstraint::InputOutput(_)
                        | RegConstraint::InputOutputIntoReg(_, _)
                        | RegConstraint::Output
                        | RegConstraint::OutputFromReg(_) => Some(
                            RegState::FromInst(iidx, RegExtension::Undefined),
                        ),
                        _ => None,
                    };
                    if let Some(st) = next {
                        proof {
                            // Either the register still holds what was saved,
                            // or it holds the operand that was just loaded,
                            // which can be loaded again.
                            if !in_place {
                                if let Some(Operand::Var(q)) = cnstr.spec_operand() {
                                    lemma_first_holder(
                                        mid.fp_reg_states@,
                                        Operand::Var(q),
                                        Set::<int>::empty(),
                                        0,
                                    );
                                    if mid.spills@[q as int] is Empty {
                                        let d = first_holder(
                                            mid.fp_reg_states@,
                                            Operand::Var(q),
                                            Set::<int>::empty(),
                                            0,
                                        ).unwrap();
                                        assert(d != c);
                                        assert(late.fp_reg_states@[d].holds(Operand::Var(q)));
                                    }
                                }
                            }
                            assert(late.fp_spare(c, iidx));
                        }
                        self.set_fp(reg, st);
                        proof {
                            Self::lemma_fp_set_advances(&late, self, c, st, iidx);
                            Self::lemma_fp_advanced_trans(&o0, &late, self, iidx);
                        }
                    }
                }
            }
            proof {
                assert forall|j: int| 0 <= j < k + 1 && fp_unshared(cs, rs, j) implies fp_answer_ok(
                    #[trigger] cs[j],
                    self.fp_reg_states@[rs[j].spec_code() as int],
                    iidx,
                ) by {
                    if j < k {
                        Rx::lemma_code(rs[j], rs[k as int]);
                        assert(rs[k as int] != rs[j] || cs[k as int] is Ignore);
                        assert(avoid.has(rs[j]) || cs[j] is Ignore);
                        assert(self.fp_reg_states@[rs[j].spec_code() as int]
                            == start.fp_reg_states@[rs[j].spec_code() as int] || cs[j] is Ignore);
                    }
                }
            }
            k = k + 1;
        }
        Ok(regs)
    }
}

} // verus!
