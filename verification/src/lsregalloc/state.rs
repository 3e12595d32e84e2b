//! Expiring registers, placing values by force, guard snapshots, and the
//! assignment of registers of both files at once.

use crate::jit_ir::{AsmInst, CompilationError, InstIdx, Operand};
use crate::lsregalloc::assign::unshared;
use crate::lsregalloc::fp::{fp_answer_ok, fp_unshared, RegConstraint};
use crate::lsregalloc::fp_plan::Fp;
use crate::lsregalloc::gp::{gp_spillable, spill_off};
use crate::lsregalloc::place::gp_answer_ok;
use crate::lsregalloc::{
    extends, first_holder, holds_var, lemma_first_holder, zero_ext_insts, GPConstraint,
    GuardSnapshot, LSRegAlloc, RegExtension, RegState, SpillState,
};
use crate::jit_ir::aligned_up;
use crate::regs::{gp_reg, Register, Rq, Rx};
use vstd::prelude::*;

verus! {

/// What a register that held `st` holds once the registers that are not
/// needed at `iidx` have been expired: constants always go, and so do values
/// that neither `iidx` nor a later instruction uses.
pub open spec fn expired(alive_until: Seq<InstIdx>, st: RegState, iidx: InstIdx) -> RegState {
    match st {
        RegState::FromConst(_, _) => RegState::Empty,
        RegState::FromInst(q, _) => if iidx <= alive_until[q as int] {
            st
        } else {
            RegState::Empty
        },
        s => s,
    }
}

/// The instructions that zero extend each register of `entries` in turn;
/// `None` if one of them has a width that cannot be extended.
pub open spec fn deopt_insts(entries: Seq<(Rq, u32)>) -> Option<Seq<AsmInst>>
    decreases entries.len(),
{
    if entries.len() == 0 {
        Some(Seq::<AsmInst>::empty())
    } else {
        match (
            deopt_insts(entries.drop_last()),
            zero_ext_insts(entries.last().0, entries.last().1),
        ) {
            (Some(a), Some(b)) => Some(a + b),
            _ => None,
        }
    }
}

impl<'a> LSRegAlloc<'a> {
    /// Before code is generated for the instruction at `iidx`: mark as empty
    /// the registers whose values are no longer needed.
    pub fn expire_regs(&mut self, iidx: InstIdx)
        requires
            old(self).wf(),
        ensures
            final(self).wf(),
            final(self).same_trace(old(self)),
            final(self).spills == old(self).spills,
            final(self).stack == old(self).stack,
            forall|c: int|
                0 <= c < 16 ==> #[trigger] final(self).gp_reg_states@[c] == expired(
                    old(self).rev_an.alive_until@,
                    old(self).gp_reg_states@[c],
                    iidx,
                ),
            forall|c: int|
                0 <= c < 16 ==> #[trigger] final(self).fp_reg_states@[c] == expired(
                    old(self).rev_an.alive_until@,
                    old(self).fp_reg_states@[c],
                    iidx,
                ),
    {
        let ghost o0 = *self;
        let mut c: u8 = 0;
        while c < 16
            invariant
                c <= 16,
                o0.wf(),
                self.wf(),
                self.gp_only(&o0),
                forall|d: int|
                    0 <= d < 16 ==> #[trigger] self.gp_reg_states@[d] == if d < c {
                        expired(o0.rev_an.alive_until@, o0.gp_reg_states@[d], iidx)
                    } else {
                        o0.gp_reg_states@[d]
                    },
            decreases 16 - c,
        {
            let reg = Rq::from_code(c);
            match self.gp_state(reg) {
                RegState::FromConst(_, _) => {
                    self.set_gp(reg, RegState::Empty);
                },
                RegState::FromInst(reg_iidx, _) => {
                    if !self.rev_an.is_inst_var_still_used_at(iidx, reg_iidx) {
                        self.set_gp(reg, RegState::Empty);
                    }
                },
                _ => {},
            }
            c = c + 1;
        }
        let ghost o1 = *self;
        c = 0;
        while c < 16
            invariant
                c <= 16,
                o1.wf(),
                o1.same_trace(&o0),
                self.wf(),
                self.same_trace(&o1),
                self.gp_reg_states == o1.gp_reg_states,
                self.gp_regset == o1.gp_regset,
                self.spills == o1.spills,
                self.stack == o1.stack,
                o1.fp_reg_states == o0.fp_reg_states,
                forall|d: int|
                    0 <= d < 16 ==> #[trigger] self.fp_reg_states@[d] == if d < c {
                        expired(o0.rev_an.alive_until@, o0.fp_reg_states@[d], iidx)
                    } else {
                        o0.fp_reg_states@[d]
                    },
            decreases 16 - c,
        {
            let reg = Rx::from_code(c);
            match self.fp_state(reg) {
                RegState::FromConst(_, _) => {
                    self.set_fp(reg, RegState::Empty);
                },
                RegState::FromInst(reg_iidx, _) => {
                    if !self.rev_an.is_inst_var_still_used_at(iidx, reg_iidx) {
                        self.set_fp(reg, RegState::Empty);
                    }
                },
                _ => {},
            }
            c = c + 1;
        }
    }

    /// Assign registers of both files for the instruction `iidx`: first the
    /// general purpose registers, then the floating point ones.
    pub fn assign_regs(&mut self, out: &mut Vec<AsmInst>, iidx: InstIdx, gp_constraints: Vec<
        GPConstraint,
    >, fp_constraints: Vec<RegConstraint<Rx>>) -> (r: Result<(Vec<Rq>, Vec<Rx>), CompilationError>)
        requires
            old(self).wf(),
            iidx < old(self).m.insts@.len(),
            old(self).gp_constraints_ok(gp_constraints@),
            old(self).fp_constraints_ok(fp_constraints@),
        ensures
            final(self).wf(),
            final(self).same_trace(old(self)),
            old(self).spills_stable(final(self)),
            extends(old(out)@, final(out)@),
            !holds_var(old(self).gp_reg_states@, iidx) ==> old(self).keeps_live(final(self), iidx),
            r matches Ok((gp, fp)) ==> {
                &&& old(self).gp_choice_ok(gp_constraints@, gp@)
                &&& forall|k: int|
                    0 <= k < gp_constraints@.len() && unshared(gp_constraints@, gp@, k)
                        ==> gp_answer_ok(
                        #[trigger] gp_constraints@[k],
                        final(self).gp_reg_states@[gp@[k].spec_code() as int],
                        iidx,
                    )
                &&& fp@.len() == fp_constraints@.len()
                &&& forall|k: int|
                    0 <= k < fp@.len() ==> match (#[trigger] fp_constraints@[k]).spec_forced() {
                        Some(reg) => fp@[k] == reg,
                        None => true,
                    }
                &&& forall|k: int|
                    0 <= k < fp@.len() && fp_unshared(fp_constraints@, fp@, k) ==> fp_answer_ok(
                        #[trigger] fp_constraints@[k],
                        final(self).fp_reg_states@[fp@[k].spec_code() as int],
                        iidx,
                    )
            },
            // The general purpose registers are assigned as for themselves;
            // from the state that this leaves, the floating point registers
            // are assigned as for themselves. The first error ends it.
            match old(self).spec_assign_gp(old(out)@, iidx, gp_constraints@) {
                Ok((gregs, g)) => exists|mid: Self|
                    #![trigger mid.gp(g.out)]
                    {
                        &&& mid.same_trace(old(self))
                        &&& mid.fp_reg_states == old(self).fp_reg_states
                        &&& mid.fp_regset == old(self).fp_regset
                        &&& mid.gp(g.out) == g
                        &&& match mid.spec_assign_fp(g.out, iidx, fp_constraints@) {
                            Ok((fregs, f)) => {
                                &&& r matches Ok((gp, fp))
                                &&& gp@ == gregs
                                &&& fp@ == fregs
                                &&& final(self).gp_reg_states@ == g.regs
                                &&& f.same_but_avoid(final(self).fp(final(out)@, f.avoid))
                            },
                            Err(e) => r == Err::<(Vec<Rq>, Vec<Rx>), CompilationError>(e),
                        }
                    },
                Err(e) => r == Err::<(Vec<Rq>, Vec<Rx>), CompilationError>(e),
            },
    {
        let ghost o0 = *self;
        let ghost out0 = out@;
        let gp = match self.assign_gp_regs(out, iidx, gp_constraints) {
            Ok(gp) => gp,
            Err(e) => {
                return Err(e);
            },
        };
        let ghost mid = *self;
        let ghost mid_out = out@;
        let fp = self.assign_fp_regs(out, iidx, fp_constraints);
        proof {
            assert(out@.subrange(0, out0.len() as int) =~= out0) by {
                assert(mid_out.subrange(0, out0.len() as int) == out0);
            }
            if !holds_var(o0.gp_reg_states@, iidx) {
                assert forall|q: InstIdx| #[trigger]
                    o0.located(q) && o0.rev_an.used_after(iidx, q) implies self.located(q) by {
                    assert(mid.located(q));
                }
            }
        }
        proof {
            let model = o0.spec_assign_gp(out0, iidx, gp_constraints@);
            assert(model is Ok);
            let g = model->Ok_0.1;
            assert(g == mid.gp(mid_out));
            assert(g.out == mid_out);
            assert(mid.same_trace(&o0));
            assert(mid.fp_reg_states == o0.fp_reg_states);
            assert(mid.fp_regset == o0.fp_regset);
            assert(self.gp_reg_states@ == g.regs);
            if fp is Ok {
                assert(mid.spec_assign_fp(g.out, iidx, fp_constraints@) is Ok);
            } else {
                assert(mid.spec_assign_fp(g.out, iidx, fp_constraints@) == Err::<
                    (Seq<Rx>, Fp),
                    CompilationError,
                >(fp->Err_0));
            }
        }
        match fp {
            Ok(fp) => Ok((gp, fp)),
            Err(e) => Err(e),
        }
    }

    /// The entry of a guard's snapshot for the live variable `op`: the first
    /// general purpose register that holds it, with the width of the value,
    /// unless the register is known to be zero extended or `op` is in no
    /// register.
    pub open spec fn snapshot_entry(&self, op: Operand) -> Option<(Rq, u32)> {
        match op {
            Operand::Var(q) => match first_holder(
                self.gp_reg_states@,
                op,
                Set::<int>::empty(),
                0,
            ) {
                Some(c) => if self.gp_reg_states@[c].ext() != RegExtension::ZeroExtended {
                    Some((gp_reg(c), self.m.insts@[q as int].ty.spec_bitw()))
                } else {
                    None
                },
                None => None,
            },
            Operand::Const(_) => None,
        }
    }

    /// The snapshot for a guard with the live variables `live`: their
    /// entries, in order.
    pub open spec fn spec_guard_snapshot(&self, live: Seq<Operand>) -> Seq<(Rq, u32)>
        decreases live.len(),
    {
        if live.len() == 0 {
            Seq::empty()
        } else {
            let rest = self.spec_guard_snapshot(live.drop_last());
            match self.snapshot_entry(live.last()) {
                Some(e) => rest.push(e),
                None => rest,
            }
        }
    }

    /// Note down, when a guard with the live variables `live_vars` is
    /// generated, which registers must be zero extended before
    /// deoptimisation can read them.
    pub fn guard_snapshot(&self, live_vars: &Vec<Operand>) -> (g: GuardSnapshot)
        requires
            self.wf(),
            forall|i: int| 0 <= i < live_vars@.len() ==> self.m.valid_op(#[trigger] live_vars@[i]),
        ensures
            g.regs_to_zero_ext@ == self.spec_guard_snapshot(live_vars@),
    {
        let mut regs_to_zero_ext: Vec<(Rq, u32)> = Vec::new();
        let mut i: usize = 0;
        while i < live_vars.len()
            invariant
                i <= live_vars@.len(),
                self.wf(),
                forall|j: int| 0 <= j < live_vars@.len() ==> self.m.valid_op(#[trigger] live_vars@[j]),
                regs_to_zero_ext@ == self.spec_guard_snapshot(live_vars@.subrange(0, i as int)),
            decreases live_vars@.len() - i,
        {
            let op = live_vars[i];
            proof {
                let next = live_vars@.subrange(0, i + 1);
                assert(next.drop_last() =~= live_vars@.subrange(0, i as int));
                assert(next.last() == op);
                lemma_first_holder(self.gp_reg_states@, op, Set::<int>::empty(), 0);
            }
            if let Operand::Var(op_iidx) = op {
                if let Some(reg) = self.find_op_in_gp_reg(&op) {
                    proof {
                        Rq::lemma_code(reg, gp_reg(reg.spec_code() as int));
                    }
                    let ext = match self.gp_state(reg) {
                        RegState::FromInst(_, ext) => ext,
                        _ => RegExtension::ZeroExtended,
                    };
                    if ext != RegExtension::ZeroExtended {
                        regs_to_zero_ext.push((reg, self.m.inst(op_iidx).ty.bitw()));
                    }
                }
            }
            i = i + 1;
        }
        proof {
            assert(live_vars@.subrange(0, live_vars@.len() as int) =~= live_vars@);
        }
        GuardSnapshot { regs_to_zero_ext }
    }

    /// When the code for a guard's failure is generated: zero extend the
    /// registers that the snapshot names, so that deoptimisation reads whole
    /// values.
    pub fn get_ready_for_deopt(&self, out: &mut Vec<AsmInst>, gsnap: &GuardSnapshot) -> (r: Result<
        (),
        CompilationError,
    >)
        ensures
            extends(old(out)@, final(out)@),
            match r {
                Ok(()) => deopt_insts(gsnap.regs_to_zero_ext@) is Some && final(out)@ == old(out)@
                    + deopt_insts(gsnap.regs_to_zero_ext@).unwrap(),
                Err(e) => e == CompilationError::General && deopt_insts(gsnap.regs_to_zero_ext@)
                    is None,
            },
    {
        let ghost out0 = out@;
        let ghost all = gsnap.regs_to_zero_ext@;
        let mut i: usize = 0;
        proof {
            assert(out@ =~= out0 + Seq::<AsmInst>::empty());
            assert(out@.subrange(0, out0.len() as int) =~= out0);
        }
        while i < gsnap.regs_to_zero_ext.len()
            invariant
                i <= all.len(),
                all == gsnap.regs_to_zero_ext@,
                out0 == old(out)@,
                deopt_insts(all.subrange(0, i as int)) is Some,
                out@ == out0 + deopt_insts(all.subrange(0, i as int)).unwrap(),
            decreases all.len() - i,
        {
            let (reg, bitw) = gsnap.regs_to_zero_ext[i];
            let ghost before = out@;
            proof {
                let next = all.subrange(0, i + 1);
                assert(next.drop_last() =~= all.subrange(0, i as int));
                assert(next.last() == (reg, bitw));
            }
            match self.force_zero_extend_to_reg64(out, reg, bitw) {
                Ok(()) => {
                    proof {
                        let a = deopt_insts(all.subrange(0, i as int)).unwrap();
                        let b = zero_ext_insts(reg, bitw).unwrap();
                        assert(out@ =~= out0 + (a + b));
                    }
                },
                Err(e) => {
                    proof {
                        assert(out@.subrange(0, out0.len() as int) =~= out0);
                        Self::lemma_deopt_prefix(all, i + 1);
                    }
                    return Err(e);
                },
            }
            i = i + 1;
        }
        proof {
            assert(all.subrange(0, all.len() as int) =~= all);
            assert(out@.subrange(0, out0.len() as int) =~= out0);
        }
        Ok(())
    }

    /// If the registers of a beginning of `entries` cannot all be extended,
    /// those of `entries` cannot either.
    pub proof fn lemma_deopt_prefix(entries: Seq<(Rq, u32)>, k: int)
        requires
            0 <= k <= entries.len(),
            deopt_insts(entries.subrange(0, k)) is None,
        ensures
            deopt_insts(entries) is None,
        decreases entries.len() - k,
    {
        if k < entries.len() {
            let next = entries.subrange(0, k + 1);
            assert(next.drop_last() =~= entries.subrange(0, k));
            Self::lemma_deopt_prefix(entries, k + 1);
        } else {
            assert(entries.subrange(0, k) =~= entries);
        }
    }

    /// Declare that `reg` holds the value of instruction `iidx`. If the
    /// register is taken, the value is stored to a fresh spill slot instead,
    /// so that no register stands for two values.
    pub fn force_assign_inst_gp_reg(&mut self, out: &mut Vec<AsmInst>, iidx: InstIdx, reg: Rq) -> (r:
        Result<(), CompilationError>)
        requires
            old(self).wf(),
            iidx < old(self).m.insts@.len(),
        ensures
            final(self).wf(),
            final(self).same_trace(old(self)),
            extends(old(out)@, final(out)@),
            old(self).gp_reg_states@[reg.spec_code() as int] is Empty ==> {
                &&& r is Ok
                &&& final(out)@ == old(out)@
                &&& final(self).gp_set(
                    old(self),
                    reg.spec_code() as int,
                    RegState::FromInst(iidx, RegExtension::Undefined),
                )
            },
            !(old(self).gp_reg_states@[reg.spec_code() as int] is Empty) ==> old(
                self,
            ).spilled_by_force(final(self), iidx, r),
    {
        if self.gp_regset.is_set(reg) {
            self.force_assign_and_spill_inst_gp_reg(out, iidx, reg)
        } else {
            proof {
                assert(out@.subrange(0, out@.len() as int) =~= out@);
            }
            self.set_gp(reg, RegState::FromInst(iidx, RegExtension::Undefined));
            Ok(())
        }
    }

    /// `n` is `self` after the value of instruction `iidx` was stored by
    /// force to a fresh spill slot, with the outcome `r`: on success the slot
    /// is the instruction's, and nothing else has changed but the size of the
    /// stack.
    pub open spec fn spilled_by_force(&self, n: &Self, iidx: InstIdx, r: Result<(), CompilationError>) -> bool {
        let ty = self.m.insts@[iidx as int].ty;
        let off = spill_off(self.stack.spec_size(), ty.spec_byte_size());
        &&& n.gp_reg_states == self.gp_reg_states
        &&& n.gp_regset == self.gp_regset
        &&& n.fp_reg_states == self.fp_reg_states
        &&& n.fp_regset == self.fp_regset
        &&& match r {
            Ok(()) => {
                &&& gp_spillable(ty.spec_bitw())
                &&& off <= i32::MAX
                &&& n.stack.spec_size() == off
                &&& n.spills@ == self.spills@.update(iidx as int, SpillState::Stack(off as i32))
            },
            Err(e) => n.spills == self.spills,
        }
    }

    /// Store `reg` to a fresh spill slot and declare the slot to hold the
    /// value of instruction `iidx`. A single bit is zero extended first,
    /// which is only possible while the allocator holds `reg` to be empty.
    pub fn force_assign_and_spill_inst_gp_reg(&mut self, out: &mut Vec<AsmInst>, iidx: InstIdx, reg: Rq) -> (r: Result<(), CompilationError>)
        requires
            old(self).wf(),
            iidx < old(self).m.insts@.len(),
        ensures
            final(self).wf(),
            final(self).same_trace(old(self)),
            extends(old(out)@, final(out)@),
            old(self).spilled_by_force(final(self), iidx, r),
            ({
                let ty = old(self).m.insts@[iidx as int].ty;
                let off = spill_off(old(self).stack.spec_size(), ty.spec_byte_size());
                let one_bit_taken = ty.spec_bitw() == 1 && !(old(self).gp_reg_states@[reg.spec_code() as int]
                    is Empty);
                match r {
                    Ok(()) => !one_bit_taken && final(out)@ == old(out)@ + (if ty.spec_bitw() == 1 {
                        zero_ext_insts(reg, 1).unwrap()
                    } else {
                        Seq::<AsmInst>::empty()
                    }).push(
                        AsmInst::Store { off: off as i32, reg, bytes: ty.spec_byte_size() as u8 },
                    ),
                    Err(e) => if !gp_spillable(ty.spec_bitw()) {
                        e == CompilationError::General
                    } else if off > i32::MAX {
                        e == CompilationError::LimitExceeded
                    } else {
                        e == CompilationError::InternalError && one_bit_taken
                    },
                }
            }),
    {
        proof {
            assert(out@.subrange(0, out@.len() as int) =~= out@);
        }
        let ty = self.m.inst(iidx).ty;
        let bitw = ty.bitw();
        let bytew = ty.byte_size();
        if !(bitw == 1 || bitw == 8 || bitw == 16 || bitw == 32 || bitw == 64) {
            return Err(CompilationError::General);
        }
        let size = self.stack.size();
        if size > i32::MAX as usize {
            proof {
                assert(spill_off(size, bytew) > i32::MAX);
            }
            return Err(CompilationError::LimitExceeded);
        }
        assert(aligned_up(size as int, bytew as int) <= size + 8) by {
            assert(0 <= (size as int) % (bytew as int) < bytew as int) by (nonlinear_arith)
                requires
                    bytew > 0,
                    size >= 0,
            ;
        }
        if aligned_up_exec(size, bytew) + bytew > i32::MAX as usize {
            return Err(CompilationError::LimitExceeded);
        }
        if bitw == 1 && !matches!(self.gp_reg_states[reg.code() as usize], RegState::Empty) {
            return Err(CompilationError::InternalError);
        }
        self.stack.align(bytew);
        let frame_off = self.stack.grow(bytew);
        let off = frame_off as i32;
        if bitw == 1 {
            match self.force_zero_extend_to_reg64(out, reg, 1) {
                Ok(()) => {},
                Err(e) => {
                    proof {
                        assert(false);
                    }
                    return Err(e);
                },
            }
        }
        let ghost mid_out = out@;
        out.push(AsmInst::Store { off, reg, bytes: bytew as u8 });
        self.spills.set(iidx, SpillState::Stack(off));
        proof {
            assert(out@.subrange(0, old(out)@.len() as int) =~= old(out)@);
            assert(mid_out =~= old(out)@ + (if bitw == 1 {
                zero_ext_insts(reg, 1).unwrap()
            } else {
                Seq::<AsmInst>::empty()
            }));
            assert(out@ =~= old(out)@ + (if bitw == 1 {
                zero_ext_insts(reg, 1).unwrap()
            } else {
                Seq::<AsmInst>::empty()
            }).push(AsmInst::Store { off, reg, bytes: bytew as u8 }));
        }
        Ok(())
    }

    /// Declare that the floating point register `reg` holds the value of
    /// instruction `iidx`.
    pub fn force_assign_inst_fp_reg(&mut self, iidx: InstIdx, reg: Rx)
        requires
            old(self).wf(),
            iidx < old(self).m.insts@.len(),
        ensures
            final(self).wf(),
            final(self).fp_set(
                old(self),
                reg.spec_code() as int,
                RegState::FromInst(iidx, RegExtension::Undefined),
            ),
    {
        self.set_fp(reg, RegState::FromInst(iidx, RegExtension::Undefined));
    }

    /// `self` is `o` but for the spill state of instruction `iidx`, which is
    /// `s`.
    pub open spec fn spill_set(&self, o: &Self, iidx: InstIdx, s: SpillState) -> bool {
        &&& self.same_trace(o)
        &&& self.gp_reg_states == o.gp_reg_states
        &&& self.gp_regset == o.gp_regset
        &&& self.fp_reg_states == o.fp_reg_states
        &&& self.fp_regset == o.fp_regset
        &&& self.stack == o.stack
        &&& self.spills@ == o.spills@.update(iidx as int, s)
    }

    /// Declare that the value of instruction `iidx` is the address
    /// `frame_off` bytes from the base pointer.
    pub fn force_assign_inst_direct(&mut self, iidx: InstIdx, frame_off: i32)
        requires
            old(self).wf(),
            iidx < old(self).m.insts@.len(),
        ensures
            final(self).wf(),
            final(self).spill_set(old(self), iidx, SpillState::Direct(frame_off)),
    {
        self.spills.set(iidx, SpillState::Direct(frame_off));
    }

    /// Declare that the value of instruction `iidx` is on the stack,
    /// `frame_off` bytes below the base pointer.
    pub fn force_assign_inst_indirect(&mut self, iidx: InstIdx, frame_off: i32)
        requires
            old(self).wf(),
            iidx < old(self).m.insts@.len(),
        ensures
            final(self).wf(),
            final(self).spill_set(old(self), iidx, SpillState::Stack(frame_off)),
    {
        self.spills.set(iidx, SpillState::Stack(frame_off));
    }

    /// Declare that the value of instruction `iidx` is the constant `v` of
    /// `bits` bits.
    pub fn assign_const(&mut self, iidx: InstIdx, bits: u32, v: u64)
        requires
            old(self).wf(),
            iidx < old(self).m.insts@.len(),
        ensures
            final(self).wf(),
            final(self).spill_set(old(self), iidx, SpillState::ConstInt { bits, v }),
    {
        self.spills.set(iidx, SpillState::ConstInt { bits, v });
    }
}

/// `size` rounded up to the next multiple of `to`.
fn aligned_up_exec(size: usize, to: usize) -> (r: usize)
    requires
        0 < to <= 8,
        size <= i32::MAX,
    ensures
        r == aligned_up(size as int, to as int),
{
    let rem = size % to;
    if rem != 0 {
        size + (to - rem)
    } else {
        size
    }
}

} // verus!
