//! The second stage of general purpose register assignment, as a function
//! of the allocator's state.
//!
//! Carrying out a choice of registers changes the states of the general
//! purpose registers, the spill table and the stack, and emits instructions.
//! Those four make up a `Gp`; everything else that the stage reads stays as
//! it is and makes up a `Fixed`. Each step of the stage is described here by
//! the `Gp` it leads to, or by the error it ends with.

use crate::jit_ir::{
    AsmInst, CompilationError, ConstIdx, InstIdx, InstKind, Module, Operand, RevAnalyse,
};
use crate::lsregalloc::gp::{gp_const_insts, gp_spillable, spill_off};
use crate::lsregalloc::place::MAX_SHUFFLE_ROUNDS;
use crate::lsregalloc::{
    align_insts, first_holder, holds_var, GPConstraint, LSRegAlloc, RegExtension, RegState,
    SpillState,
};
use crate::regs::{gp_reg, gp_reserved, Register, Rq};
use vstd::prelude::*;

verus! {

/// What placing general purpose operands changes.
pub struct Gp {
    /// What each general purpose register holds.
    pub regs: Seq<RegState>,
    /// Where each instruction's value is spilled.
    pub spills: Seq<SpillState>,
    /// The size of the stack.
    pub stack: usize,
    /// The instructions emitted so far.
    pub out: Seq<AsmInst>,
}

/// What placing general purpose operands reads and leaves alone.
pub struct Fixed<'a> {
    /// The trace being compiled.
    pub m: &'a Module,
    /// What is known of the lifetime of each value.
    pub rev_an: RevAnalyse,
    /// What each floating point register holds.
    pub fp: Seq<RegState>,
}

/// The first position of `regs` from `from` on that holds `reg`.
pub open spec fn first_pos(regs: Seq<Rq>, reg: Rq, from: int) -> Option<int>
    decreases regs.len() - from,
{
    if from < 0 || from >= regs.len() {
        None
    } else if regs[from] == reg {
        Some(from)
    } else {
        first_pos(regs, reg, from + 1)
    }
}

/// What marking the register of constraint `c` does to the registers.
pub open spec fn finish_step(states: Seq<RegState>, iidx: InstIdx, c: GPConstraint, reg: Rq) -> Seq<
    RegState,
> {
    if c is Ignore || (c is Input && !c.clobbers()) {
        states
    } else {
        states.update(reg.spec_code() as int, c.state_after(iidx, states[reg.spec_code() as int]))
    }
}

/// The registers marked with what they hold once the instruction `iidx` has
/// run, from constraint `k` on: the register of an output holds the
/// instruction's value, and the clobbered registers are empty.
pub open spec fn finished(states: Seq<RegState>, iidx: InstIdx, cs: Seq<GPConstraint>, regs: Seq<
    Rq,
>, k: int) -> Seq<RegState>
    decreases regs.len() - k,
{
    if k < 0 || k >= regs.len() {
        states
    } else {
        finished(finish_step(states, iidx, cs[k], regs[k]), iidx, cs, regs, k + 1)
    }
}

/// Does a constraint of `cs` have `op` as its operand?
pub open spec fn wanted(cs: Seq<GPConstraint>, op: Operand) -> bool {
    exists|i: int| 0 <= i < cs.len() && (#[trigger] cs[i]).spec_op() == Some(op)
}

/// The reserved registers and the registers given to the first `k`
/// constraints of `cs` that are not ignored.
pub open spec fn assigned_upto(cs: Seq<GPConstraint>, regs: Seq<Rq>, k: int) -> Set<int>
    decreases k,
{
    if k <= 0 {
        gp_reserved()
    } else if cs[k - 1] is Ignore {
        assigned_upto(cs, regs, k - 1)
    } else {
        assigned_upto(cs, regs, k - 1).insert(regs[k - 1].spec_code() as int)
    }
}

impl Gp {
    /// `self` with register `c` in state `st`.
    pub open spec fn put(self, c: int, st: RegState) -> Gp {
        Gp { regs: self.regs.update(c, st), ..self }
    }

    /// `self` with `insts` emitted.
    pub open spec fn emit(self, insts: Seq<AsmInst>) -> Gp {
        Gp { out: self.out + insts, ..self }
    }

    /// `self` with `inst` emitted.
    pub open spec fn emit_one(self, inst: AsmInst) -> Gp {
        Gp { out: self.out.push(inst), ..self }
    }

    /// The value of `from` is copied into `to`.
    pub open spec fn copied(self, from: Rq, to: Rq) -> Gp {
        self.put(to.spec_code() as int, self.regs[from.spec_code() as int]).emit_one(
            AsmInst::MovRR { dst: to, src: from },
        )
    }

    /// The value of `from` is moved into `to`, which leaves `from` empty.
    pub open spec fn moved(self, from: Rq, to: Rq) -> Gp {
        self.put(to.spec_code() as int, self.regs[from.spec_code() as int]).put(
            from.spec_code() as int,
            RegState::Empty,
        ).emit_one(AsmInst::MovRR { dst: to, src: from })
    }

    /// The values of `a` and `b` change places.
    pub open spec fn swapped(self, a: Rq, b: Rq) -> Gp {
        self.put(b.spec_code() as int, self.regs[a.spec_code() as int]).put(
            a.spec_code() as int,
            self.regs[b.spec_code() as int],
        ).emit_one(AsmInst::Xchg { a: b, b: a })
    }

    /// What the first pass of a round of shuffling does at constraint `k`,
    /// if anything: the operand of a constraint whose register is empty is
    /// copied there from a register that no constraint was given.
    pub open spec fn copy_step(self, cs: Seq<GPConstraint>, regs: Seq<Rq>, asgn: Set<int>, k: int) -> Option<
        Gp,
    > {
        match cs[k].spec_op() {
            Some(op) => if self.regs[regs[k].spec_code() as int] is Empty {
                match first_holder(self.regs, op, asgn, 0) {
                    Some(oc) => Some(self.copied(gp_reg(oc), regs[k])),
                    None => None,
                }
            } else {
                None
            },
            None => None,
        }
    }

    /// The first pass of a round of shuffling from constraint `k` on, with
    /// whether anything has moved.
    pub open spec fn copies(self, changed: bool, cs: Seq<GPConstraint>, regs: Seq<Rq>, asgn: Set<
        int,
    >, k: int) -> (Gp, bool)
        decreases regs.len() - k,
    {
        if k < 0 || k >= regs.len() {
            (self, changed)
        } else {
            match self.copy_step(cs, regs, asgn, k) {
                Some(g) => g.copies(true, cs, regs, asgn, k + 1),
                None => self.copies(changed, cs, regs, asgn, k + 1),
            }
        }
    }

    /// What the second pass of a round of shuffling does at constraint `k`,
    /// if anything: an operand that sits in the register of another
    /// constraint is brought to its own. It is copied where that constraint
    /// has the same operand, moved where its own register is empty, and the
    /// two registers are exchanged otherwise.
    pub open spec fn swap_step(self, cs: Seq<GPConstraint>, regs: Seq<Rq>, k: int) -> Option<Gp> {
        let reg = regs[k];
        match cs[k].spec_op() {
            Some(op) => if self.regs[reg.spec_code() as int].holds(op) {
                None
            } else {
                match first_holder(self.regs, op, Set::<int>::empty(), 0) {
                    Some(oc) => match first_pos(regs, gp_reg(oc), 0) {
                        Some(j) => {
                            let empty = self.regs[reg.spec_code() as int] is Empty;
                            if cs[j] is Ignore {
                                None
                            } else if !empty {
                                Some(self.swapped(reg, gp_reg(oc)))
                            } else if cs[j].spec_op() == Some(op) {
                                Some(self.copied(gp_reg(oc), reg))
                            } else {
                                Some(self.moved(gp_reg(oc), reg))
                            }
                        },
                        None => None,
                    },
                    None => None,
                }
            },
            None => None,
        }
    }

    /// The second pass of a round of shuffling from constraint `k` on, with
    /// whether anything has moved.
    pub open spec fn swaps(self, changed: bool, cs: Seq<GPConstraint>, regs: Seq<Rq>, k: int) -> (
        Gp,
        bool,
    )
        decreases regs.len() - k,
    {
        if k < 0 || k >= regs.len() {
            (self, changed)
        } else {
            match self.swap_step(cs, regs, k) {
                Some(g) => g.swaps(true, cs, regs, k + 1),
                None => self.swaps(changed, cs, regs, k + 1),
            }
        }
    }

    /// The rounds of shuffling from round `round` on: a round is made while
    /// the round before it moved something; it is an internal error if the
    /// last round that may be made still moves something.
    pub open spec fn shuffled(self, changed: bool, cs: Seq<GPConstraint>, regs: Seq<Rq>, asgn: Set<
        int,
    >, round: int) -> Result<Gp, CompilationError>
        decreases MAX_SHUFFLE_ROUNDS - round,
    {
        if changed && 0 <= round < MAX_SHUFFLE_ROUNDS {
            let (g1, c1) = self.copies(false, cs, regs, asgn, 0);
            let (g2, c2) = g1.swaps(c1, cs, regs, 0);
            g2.shuffled(c2, cs, regs, asgn, round + 1)
        } else if changed {
            Err(CompilationError::InternalError)
        } else {
            Ok(self)
        }
    }
}

impl<'a> Fixed<'a> {
    /// The width in bits of the value that `st` says a register holds.
    pub open spec fn value_bitw(&self, st: RegState) -> u32 {
        match st {
            RegState::FromConst(c, _) => self.m.consts@[c as int].spec_ty().spec_bitw(),
            RegState::FromInst(i, _) => self.m.insts@[i as int].ty.spec_bitw(),
            _ => 64,
        }
    }

    /// The upper bits of `reg` are brought in line with `next`.
    pub open spec fn aligned(&self, g: Gp, reg: Rq, next: RegExtension) -> Result<
        Gp,
        CompilationError,
    > {
        let c = reg.spec_code() as int;
        let st = g.regs[c];
        match align_insts(reg, self.value_bitw(st), st.ext(), next) {
            Some(insts) => Ok(g.put(c, st.with_ext(st.ext().aligned_with(next))).emit(insts)),
            None => Err(CompilationError::General),
        }
    }

    /// Does register `c` hold a value that is used after `cur` and has no
    /// spill slot yet?
    pub open spec fn needs_spill(&self, g: Gp, c: int, cur: InstIdx) -> bool {
        match g.regs[c] {
            RegState::FromInst(q, _) => self.rev_an.used_after(cur, q) && g.spills[q as int]
                is Empty,
            _ => false,
        }
    }

    /// The value of `reg` is spilled, if it needs to be: the stack grows by
    /// an aligned slot of the value's size, the value is stored there, and
    /// the spill table names the slot. A value one bit wide is stored as a
    /// zero extended byte, and the register's upper bits are then brought
    /// back to what they were. A width that cannot be stored is an error,
    /// and so is a slot beyond what an instruction can address.
    pub open spec fn spilled(&self, g: Gp, cur: InstIdx, reg: Rq) -> Result<Gp, CompilationError> {
        let c = reg.spec_code() as int;
        let st = g.regs[c];
        if !self.needs_spill(g, c, cur) {
            Ok(g)
        } else {
            let q = st->FromInst_0;
            let ty = self.m.insts@[q as int].ty;
            let off = spill_off(g.stack, ty.spec_byte_size());
            if !gp_spillable(ty.spec_bitw()) {
                Err(CompilationError::General)
            } else if off > i32::MAX {
                Err(CompilationError::LimitExceeded)
            } else {
                let g1 = if ty.spec_bitw() == 1 {
                    let zeroed = self.aligned(g, reg, RegExtension::ZeroExtended)->Ok_0;
                    let stored = zeroed.emit_one(AsmInst::Store { off: off as i32, reg, bytes: 1 });
                    self.aligned(stored, reg, st.ext())->Ok_0
                } else {
                    g.emit_one(
                        AsmInst::Store { off: off as i32, reg, bytes: ty.spec_byte_size() as u8 },
                    )
                };
                Ok(
                    Gp {
                        spills: g1.spills.update(q as int, SpillState::Stack(off as i32)),
                        stack: off as usize,
                        ..g1
                    },
                )
            }
        }
    }

    /// The constant `k` is loaded into `reg`.
    pub open spec fn const_loaded(&self, g: Gp, k: ConstIdx, reg: Rq) -> Result<
        Gp,
        CompilationError,
    > {
        match gp_const_insts(self.m.consts@[k as int], reg) {
            Some(insts) => Ok(
                g.put(
                    reg.spec_code() as int,
                    RegState::FromConst(k, RegExtension::ZeroExtended),
                ).emit(insts),
            ),
            None => Err(CompilationError::General),
        }
    }

    /// The instructions that bring the value of `iidx` into `reg` from
    /// wherever it is, if it is anywhere it can be loaded from.
    pub open spec fn unspill_insts(&self, g: Gp, iidx: InstIdx, reg: Rq) -> Option<Seq<AsmInst>> {
        let inst = self.m.insts@[iidx as int];
        let size = inst.ty.spec_byte_size();
        if let InstKind::Const(k) = inst.kind {
            gp_const_insts(self.m.consts@[k as int], reg)
        } else {
            match g.spills[iidx as int] {
                SpillState::Empty => match first_holder(
                    g.regs,
                    Operand::Var(iidx),
                    Set::<int>::empty(),
                    0,
                ) {
                    Some(c) => if c == reg.spec_code() {
                        Some(Seq::<AsmInst>::empty())
                    } else {
                        Some(seq![AsmInst::MovRR { dst: reg, src: gp_reg(c) }])
                    },
                    None => None,
                },
                SpillState::Stack(off) => if size == 1 || size == 2 || size == 4 || size == 8 {
                    Some(seq![AsmInst::LoadZx { reg, off, bytes: size as u8 }])
                } else {
                    None
                },
                SpillState::Direct(off) => if size == 8 {
                    Some(seq![AsmInst::Lea { reg, off }])
                } else {
                    None
                },
                SpillState::ConstInt { bits, v } => if bits == 32 || bits == 8 {
                    Some(seq![AsmInst::MovImm32 { reg, v: v as i32 }])
                } else {
                    None
                },
            }
        }
    }

    /// Can the value of instruction `q` be found?
    pub open spec fn found(&self, g: Gp, q: InstIdx) -> bool {
        &&& q < self.m.insts@.len()
        &&& (self.m.insts@[q as int].kind is Const || !(g.spills[q as int] is Empty) || holds_var(
            g.regs,
            q,
        ) || holds_var(self.fp, q))
    }

    /// The value of `iidx` is brought into `reg`. It is an internal error
    /// if the value is nowhere, and an error if it cannot be loaded from
    /// where it is.
    pub open spec fn unspilled(&self, g: Gp, iidx: InstIdx, reg: Rq) -> Result<
        Gp,
        CompilationError,
    > {
        match self.unspill_insts(g, iidx, reg) {
            Some(insts) => Ok(
                g.put(
                    reg.spec_code() as int,
                    match self.m.insts@[iidx as int].kind {
                        InstKind::Const(k) => RegState::FromConst(k, RegExtension::ZeroExtended),
                        _ => RegState::FromInst(iidx, RegExtension::ZeroExtended),
                    },
                ).emit(insts),
            ),
            None => if self.found(g, iidx) {
                Err(CompilationError::General)
            } else {
                Err(CompilationError::InternalError)
            },
        }
    }

    /// The operand `op` is put into `reg` with its upper bits as `ext`:
    /// where it is there already only the upper bits are seen to, otherwise
    /// it is loaded first.
    pub open spec fn placed(&self, g: Gp, op: Operand, reg: Rq, ext: RegExtension) -> Result<
        Gp,
        CompilationError,
    > {
        let c = reg.spec_code() as int;
        if g.regs[c].holds(op) {
            self.aligned(g, reg, ext)
        } else {
            let loaded = match op {
                Operand::Const(k) => self.const_loaded(g, k, reg),
                Operand::Var(q) => self.unspilled(g, q, reg),
            };
            match loaded {
                Ok(g1) => match self.aligned(g1, reg, ext) {
                    Ok(g2) => Ok(g2.put(c, RegState::of(op, ext))),
                    Err(e) => Err(e),
                },
                Err(e) => Err(e),
            }
        }
    }

    /// What emptying does at the register `reg`: a value that no constraint
    /// wants is spilled, if it needs to be, and leaves the register.
    pub open spec fn evict_step(&self, g: Gp, iidx: InstIdx, cs: Seq<GPConstraint>, reg: Rq) -> Result<
        Gp,
        CompilationError,
    > {
        let c = reg.spec_code() as int;
        match g.regs[c] {
            RegState::FromConst(k, _) => if wanted(cs, Operand::Const(k)) {
                Ok(g)
            } else {
                Ok(g.put(c, RegState::Empty))
            },
            RegState::FromInst(q, _) => if wanted(cs, Operand::Var(q)) {
                Ok(g)
            } else {
                match self.spilled(g, iidx, reg) {
                    Ok(g1) => Ok(g1.put(c, RegState::Empty)),
                    Err(e) => Err(e),
                }
            },
            _ => Ok(g),
        }
    }

    /// The chosen registers emptied of what no constraint wants, from
    /// constraint `k` on.
    pub open spec fn evicted(&self, g: Gp, iidx: InstIdx, cs: Seq<GPConstraint>, regs: Seq<Rq>, k: int) -> Result<
        Gp,
        CompilationError,
    >
        decreases regs.len() - k,
    {
        if k < 0 || k >= regs.len() {
            Ok(g)
        } else {
            match self.evict_step(g, iidx, cs, regs[k]) {
                Ok(g1) => self.evicted(g1, iidx, cs, regs, k + 1),
                Err(e) => Err(e),
            }
        }
    }

    /// Can register `c` be overwritten without losing a value that is used
    /// after `iidx`?
    pub open spec fn spare(&self, g: Gp, c: int, iidx: InstIdx) -> bool {
        match g.regs[c] {
            RegState::FromInst(q, _) => {
                ||| !self.rev_an.used_after(iidx, q)
                ||| !(g.spills[q as int] is Empty)
                ||| self.m.insts@[q as int].kind is Const
                ||| exists|d: int|
                    0 <= d < 16 && d != c && (#[trigger] g.regs[d]).holds(Operand::Var(q))
            },
            _ => true,
        }
    }

    /// What loading does at the constraint `c` with the register `reg`: an
    /// operand is put into the register, and a register that the
    /// instruction clobbers is spilled, if it needs to be. It is an
    /// internal error if the operand would overwrite the only copy of a
    /// value that is used later.
    pub open spec fn load_step(&self, g: Gp, iidx: InstIdx, c: GPConstraint, reg: Rq) -> Result<
        Gp,
        CompilationError,
    > {
        let put = match c.spec_op() {
            Some(op) => if !g.regs[reg.spec_code() as int].holds(op) && !self.spare(
                g,
                reg.spec_code() as int,
                iidx,
            ) {
                Err(CompilationError::InternalError)
            } else {
                self.placed(g, op, reg, c.spec_in_ext())
            },
            None => Ok(g),
        };
        match put {
            Ok(g1) => if c.clobbers() {
                self.spilled(g1, iidx, reg)
            } else {
                Ok(g1)
            },
            Err(e) => Err(e),
        }
    }

    /// The operands loaded into the chosen registers, from constraint `k`
    /// on.
    pub open spec fn loaded(&self, g: Gp, iidx: InstIdx, cs: Seq<GPConstraint>, regs: Seq<Rq>, k: int) -> Result<
        Gp,
        CompilationError,
    >
        decreases regs.len() - k,
    {
        if k < 0 || k >= regs.len() {
            Ok(g)
        } else {
            match self.load_step(g, iidx, cs[k], regs[k]) {
                Ok(g1) => self.loaded(g1, iidx, cs, regs, k + 1),
                Err(e) => Err(e),
            }
        }
    }

    /// The choice `regs` carried out for the instruction `iidx`: the chosen
    /// registers are emptied of what no constraint wants, the operands that
    /// are in a register are shuffled into place, the others are loaded,
    /// and the registers are marked with what they hold once the
    /// instruction has run.
    pub open spec fn carried_out(&self, g: Gp, iidx: InstIdx, cs: Seq<GPConstraint>, regs: Seq<Rq>) -> Result<
        Gp,
        CompilationError,
    > {
        match self.evicted(g, iidx, cs, regs, 0) {
            Ok(g1) => match g1.shuffled(true, cs, regs, assigned_upto(cs, regs, cs.len() as int), 0) {
                Ok(g2) => match self.loaded(g2, iidx, cs, regs, 0) {
                    Ok(g3) => Ok(Gp { regs: finished(g3.regs, iidx, cs, regs, 0), ..g3 }),
                    Err(e) => Err(e),
                },
                Err(e) => Err(e),
            },
            Err(e) => Err(e),
        }
    }
}

impl<'a> LSRegAlloc<'a> {
    /// What placing general purpose operands changes, with `out` as the
    /// instructions emitted so far.
    pub open spec fn gp(&self, out: Seq<AsmInst>) -> Gp {
        Gp {
            regs: self.gp_reg_states@,
            spills: self.spills@,
            stack: self.stack.spec_size(),
            out,
        }
    }

    /// What placing general purpose operands leaves alone.
    pub open spec fn fixed(&self) -> Fixed<'a> {
        Fixed { m: self.m, rev_an: self.rev_an, fp: self.fp_reg_states@ }
    }

    /// `r` is the outcome `model`, and on success the allocator and the
    /// instructions `out` are as `model` says.
    pub open spec fn gp_agrees(&self, out: Seq<AsmInst>, r: Result<(), CompilationError>, model: Result<
        Gp,
        CompilationError,
    >) -> bool {
        match r {
            Ok(()) => model == Ok::<Gp, CompilationError>(self.gp(out)),
            Err(e) => model == Err::<Gp, CompilationError>(e),
        }
    }

    /// What assigning general purpose registers for the instruction `iidx`
    /// comes to, after the instructions `out`: the registers chosen, with
    /// the state in which the choice, carried out, leaves the allocator and
    /// all the instructions emitted; or the error. It is an internal error
    /// if no register can be had for a constraint.
    pub open spec fn spec_assign_gp(&self, out: Seq<AsmInst>, iidx: InstIdx, cs: Seq<GPConstraint>) -> Result<
        (Seq<Rq>, Gp),
        CompilationError,
    > {
        match self.spec_choose_gp(iidx, cs) {
            Some(regs) => match self.fixed().carried_out(self.gp(out), iidx, cs, regs) {
                Ok(g) => Ok((regs, g)),
                Err(e) => Err(e),
            },
            None => Err(CompilationError::InternalError),
        }
    }
}

} // verus!
