//! The second stage of floating point register assignment, as a function of
//! the allocator's state.
//!
//! Carrying out a choice of floating point registers changes the states of
//! those registers, the spill table, the stack and the set of registers that
//! must not be picked to save a value in, and emits instructions. Those make
//! up an `Fp`; the trace and the lifetimes of its values stay as they are
//! and make up an `FpFixed`. Each step of the stage is described here by the
//! `Fp` it leads to, or by the error it ends with.

use crate::jit_ir::{AsmInst, CompilationError, Const, InstIdx, Module, Operand, RevAnalyse};
use crate::lsregalloc::choice::highest_free;
use crate::lsregalloc::fp::RegConstraint;
use crate::lsregalloc::gp::spill_off;
use crate::lsregalloc::{first_holder, LSRegAlloc, RegExtension, RegState, SpillState};
use crate::regs::{fp_reg, Register, Rx};
use vstd::prelude::*;

verus! {

/// What placing floating point operands changes.
pub struct Fp {
    /// What each floating point register holds.
    pub regs: Seq<RegState>,
    /// Where each instruction's value is spilled.
    pub spills: Seq<SpillState>,
    /// The size of the stack.
    pub stack: usize,
    /// The instructions emitted so far.
    pub out: Seq<AsmInst>,
    /// The registers in which no value is saved.
    pub avoid: Set<int>,
}

/// What placing floating point operands reads and leaves alone.
pub struct FpFixed<'a> {
    /// The trace being compiled.
    pub m: &'a Module,
    /// What is known of the lifetime of each value.
    pub rev_an: RevAnalyse,
}

/// The highest encoding, from `from` down, of an empty register that is not
/// in `avoid`.
pub open spec fn highest_empty(regs: Seq<RegState>, avoid: Set<int>, from: int) -> Option<int>
    decreases from + 1,
{
    if from < 0 {
        None
    } else if regs[from] is Empty && !avoid.contains(from) {
        Some(from)
    } else {
        highest_empty(regs, avoid, from - 1)
    }
}

/// Where the set `used` holds the registers that are not empty, the highest
/// empty register is the highest one that is not used.
pub proof fn lemma_highest_empty(regs: Seq<RegState>, used: Set<int>, avoid: Set<int>, from: int)
    requires
        from < 16,
        regs.len() == 16,
        forall|c: int| 0 <= c < 16 ==> (used.contains(c) <==> !(#[trigger] regs[c] is Empty)),
    ensures
        highest_empty(regs, avoid, from) == highest_free(used, avoid, from),
    decreases from + 1,
{
    if from >= 0 {
        assert(used.contains(from) <==> !(regs[from] is Empty));
        lemma_highest_empty(regs, used, avoid, from - 1);
    }
}

impl Fp {
    /// `self` with register `c` in state `st`.
    pub open spec fn put(self, c: int, st: RegState) -> Fp {
        Fp { regs: self.regs.update(c, st), ..self }
    }

    /// `self` with `insts` emitted.
    pub open spec fn emit(self, insts: Seq<AsmInst>) -> Fp {
        Fp { out: self.out + insts, ..self }
    }

    /// `self` with `inst` emitted.
    pub open spec fn emit_one(self, inst: AsmInst) -> Fp {
        Fp { out: self.out.push(inst), ..self }
    }

    /// What moving into place does at the constraint `c` with the register
    /// `reg`: an operand that sits in another register is moved to `reg`;
    /// it is an error if `reg` is not empty.
    pub open spec fn move_step(self, c: RegConstraint<Rx>, reg: Rx) -> Result<Fp, CompilationError> {
        match c.spec_operand() {
            Some(op) => match first_holder(self.regs, op, Set::<int>::empty(), 0) {
                Some(oc) => if fp_reg(oc) == reg {
                    Ok(self)
                } else if self.regs[reg.spec_code() as int] is Empty {
                    Ok(
                        self.put(reg.spec_code() as int, self.regs[oc]).put(
                            oc,
                            RegState::Empty,
                        ).emit_one(AsmInst::MovFpRR { dst: reg, src: fp_reg(oc) }),
                    )
                } else {
                    Err(CompilationError::General)
                },
                None => Ok(self),
            },
            None => Ok(self),
        }
    }

    /// The operands that are in a register moved into place, from
    /// constraint `k` on.
    pub open spec fn moved_in(self, cs: Seq<RegConstraint<Rx>>, regs: Seq<Rx>, k: int) -> Result<
        Fp,
        CompilationError,
    >
        decreases regs.len() - k,
    {
        if k < 0 || k >= regs.len() {
            Ok(self)
        } else {
            match self.move_step(cs[k], regs[k]) {
                Ok(g) => g.moved_in(cs, regs, k + 1),
                Err(e) => Err(e),
            }
        }
    }

    /// Are the registers, the spill table, the stack and the instructions
    /// of `self` those of `o`?
    pub open spec fn same_but_avoid(self, o: Fp) -> bool {
        &&& self.regs == o.regs
        &&& self.spills == o.spills
        &&& self.stack == o.stack
        &&& self.out == o.out
    }
}

impl<'a> FpFixed<'a> {
    /// The value of `reg` is spilled, if it is an instruction's value that
    /// has no spill slot yet: the stack grows by an aligned slot of the
    /// value's size, the value is stored there, and the spill table names
    /// the slot. A width that cannot be stored is an error, and so is a
    /// slot beyond what an instruction can address.
    pub open spec fn spilled(&self, g: Fp, reg: Rx) -> Result<Fp, CompilationError> {
        let st = g.regs[reg.spec_code() as int];
        if st is FromInst && g.spills[st->FromInst_0 as int] is Empty {
            let q = st->FromInst_0;
            let ty = self.m.insts@[q as int].ty;
            let off = spill_off(g.stack, ty.spec_byte_size());
            if !(ty.spec_bitw() == 32 || ty.spec_bitw() == 64) {
                Err(CompilationError::General)
            } else if off > i32::MAX {
                Err(CompilationError::LimitExceeded)
            } else {
                Ok(
                    Fp {
                        spills: g.spills.update(q as int, SpillState::Stack(off as i32)),
                        stack: off as usize,
                        out: g.out.push(
                            AsmInst::StoreFp {
                                off: off as i32,
                                reg,
                                bytes: ty.spec_byte_size() as u8,
                            },
                        ),
                        ..g
                    },
                )
            }
        } else {
            Ok(g)
        }
    }

    /// The value of `reg`, which is about to be overwritten, is saved if it
    /// is used after `cur`: it is copied to the highest empty register
    /// that may be picked, which may then not be picked again; if there is
    /// none, it is spilled.
    pub open spec fn saved(&self, g: Fp, cur: InstIdx, reg: Rx) -> Result<Fp, CompilationError> {
        match g.regs[reg.spec_code() as int] {
            RegState::FromInst(q, e) => if self.rev_an.used_after(cur, q) {
                match highest_empty(g.regs, g.avoid, 15) {
                    Some(nc) => Ok(
                        Fp {
                            regs: g.regs.update(nc, RegState::FromInst(q, e)),
                            avoid: g.avoid.insert(nc),
                            out: g.out.push(AsmInst::MovFpRR { dst: fp_reg(nc), src: reg }),
                            ..g
                        },
                    ),
                    None => self.spilled(g, reg),
                }
            } else {
                Ok(g)
            },
            _ => Ok(g),
        }
    }

    /// The instructions that bring the value of `iidx` into `reg` from
    /// wherever it is, if it is anywhere it can be loaded from.
    pub open spec fn unspill_insts(&self, g: Fp, iidx: InstIdx, reg: Rx) -> Option<Seq<AsmInst>> {
        let size = self.m.insts@[iidx as int].ty.spec_byte_size();
        match g.spills[iidx as int] {
            SpillState::Empty => match first_holder(
                g.regs,
                Operand::Var(iidx),
                Set::<int>::empty(),
                0,
            ) {
                Some(c) => if c == reg.spec_code() {
                    Some(Seq::<AsmInst>::empty())
                } else {
                    Some(seq![AsmInst::MovFpRR { dst: reg, src: fp_reg(c) }])
                },
                None => None,
            },
            SpillState::Stack(off) => if size == 4 || size == 8 {
                Some(seq![AsmInst::LoadFp { reg, off, bytes: size as u8 }])
            } else {
                None
            },
            _ => None,
        }
    }

    /// The operand `op` is loaded into `reg`. Only a floating point
    /// constant can be loaded; it is an internal error if a value is
    /// neither spilled nor in a register, and an error if it cannot be
    /// loaded from where it is.
    pub open spec fn placed(&self, g: Fp, op: Operand, reg: Rx) -> Result<Fp, CompilationError> {
        let c = reg.spec_code() as int;
        match op {
            Operand::Const(k) => match self.m.consts@[k as int] {
                Const::Float { double, bits } => Ok(
                    g.put(c, RegState::FromConst(k, RegExtension::Undefined)).emit_one(
                        AsmInst::LoadFpImm { reg, double, bits },
                    ),
                ),
                _ => Err(CompilationError::General),
            },
            Operand::Var(q) => match self.unspill_insts(g, q, reg) {
                Some(insts) => Ok(
                    g.put(c, RegState::FromInst(q, RegExtension::Undefined)).emit(insts),
                ),
                None => if g.spills[q as int] is Empty {
                    Err(CompilationError::InternalError)
                } else {
                    Err(CompilationError::General)
                },
            },
        }
    }

    /// What loading does at the constraint `c` with the register `reg`.
    /// A plain input that is in place stays. Otherwise what the register
    /// holds is saved, the operand is loaded unless it is in place, and the
    /// register is marked with what it holds once the instruction has
    /// run: nothing where the instruction clobbers it, the instruction's
    /// value where it is an output.
    pub open spec fn load_step(&self, g: Fp, iidx: InstIdx, c: RegConstraint<Rx>, reg: Rx) -> Result<
        Fp,
        CompilationError,
    > {
        let rc = reg.spec_code() as int;
        let in_place = match c.spec_operand() {
            Some(op) => g.regs[rc].holds(op),
            None => false,
        };
        if c is Ignore || (in_place && (c is Input || c is InputIntoReg)) {
            Ok(g)
        } else {
            match self.saved(g, iidx, reg) {
                Ok(g1) => {
                    let put = if !in_place && c.spec_operand() is Some {
                        self.placed(g1, c.spec_operand().unwrap(), reg)
                    } else {
                        Ok(g1)
                    };
                    match put {
                        Ok(g2) => if c.empties() {
                            Ok(g2.put(rc, RegState::Empty))
                        } else if c is InputOutput || c is InputOutputIntoReg || c is Output || c
                            is OutputFromReg {
                            Ok(g2.put(rc, RegState::FromInst(iidx, RegExtension::Undefined)))
                        } else {
                            Ok(g2)
                        },
                        Err(e) => Err(e),
                    }
                },
                Err(e) => Err(e),
            }
        }
    }

    /// The operands loaded into the chosen registers, from constraint `k`
    /// on.
    pub open spec fn loaded(&self, g: Fp, iidx: InstIdx, cs: Seq<RegConstraint<Rx>>, regs: Seq<
        Rx,
    >, k: int) -> Result<Fp, CompilationError>
        decreases regs.len() - k,
    {
        if k < 0 || k >= regs.len() {
            Ok(g)
        } else {
            match self.load_step(g, iidx, cs[k], regs[k]) {
                Ok(g1) => self.loaded(g1, iidx, cs, regs, k + 1),
                Err(e) => Err(e),
            }
        }
    }

    /// The choice `regs` carried out for the instruction `iidx`: the
    /// operands that are in a register are moved into place, and the
    /// others are loaded.
    pub open spec fn carried_out(&self, g: Fp, iidx: InstIdx, cs: Seq<RegConstraint<Rx>>, regs: Seq<
        Rx,
    >) -> Result<Fp, CompilationError> {
        match g.moved_in(cs, regs, 0) {
            Ok(g1) => self.loaded(g1, iidx, cs, regs, 0),
            Err(e) => Err(e),
        }
    }
}

impl<'a> LSRegAlloc<'a> {
    /// What placing floating point operands changes, with `out` as the
    /// instructions emitted so far and `avoid` as the registers in which no
    /// value is saved.
    pub open spec fn fp(&self, out: Seq<AsmInst>, avoid: Set<int>) -> Fp {
        Fp {
            regs: self.fp_reg_states@,
            spills: self.spills@,
            stack: self.stack.spec_size(),
            out,
            avoid,
        }
    }

    /// What placing floating point operands leaves alone.
    pub open spec fn fp_fixed(&self) -> FpFixed<'a> {
        FpFixed { m: self.m, rev_an: self.rev_an }
    }

    /// `r` is the outcome `model`, and on success the allocator, the
    /// instructions `out` and the set `avoid` are as `model` says.
    pub open spec fn fp_agrees(&self, out: Seq<AsmInst>, avoid: Set<int>, r: Result<
        (),
        CompilationError,
    >, model: Result<Fp, CompilationError>) -> bool {
        match r {
            Ok(()) => model == Ok::<Fp, CompilationError>(self.fp(out, avoid)),
            Err(e) => model == Err::<Fp, CompilationError>(e),
        }
    }

    /// What assigning floating point registers for the instruction `iidx`
    /// comes to, after the instructions `out`: the registers chosen, with
    /// the state in which the choice, carried out, leaves the allocator and
    /// all the instructions emitted; or the error. It is an error if no
    /// register can be had for a constraint.
    pub open spec fn spec_assign_fp(&self, out: Seq<AsmInst>, iidx: InstIdx, cs: Seq<
        RegConstraint<Rx>,
    >) -> Result<(Seq<Rx>, Fp), CompilationError> {
        match self.spec_choose_fp(iidx, cs) {
            Some((regs, avoid)) => match self.fp_fixed().carried_out(
                self.fp(out, avoid),
                iidx,
                cs,
                regs,
            ) {
                Ok(g) => Ok((regs, g)),
                Err(e) => Err(e),
            },
            None => Err(CompilationError::General),
        }
    }
}

} // verus!
