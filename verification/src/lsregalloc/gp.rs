//! The allocator's bookkeeping for the general purpose registers: moving
//! values between registers, spilling them and loading them back.

use crate::jit_ir::{
    aligned_up, AsmInst, CompilationError, Const, ConstIdx, InstIdx, InstKind, Operand,
    VarLocation,
};
use crate::lsregalloc::{
    align_insts, extends, find_holder, first_holder, lemma_first_holder, sign_ext_insts,
    zero_ext_insts, LSRegAlloc, RegExtension, RegState, SpillState,
};
use crate::regs::{fp_reg, gp_reg, AnyRegister, RegSet, Register, Rq, Rx};
use vstd::prelude::*;

verus! {

/// The instructions that load the constant `c` into `reg`; `None` for a
/// constant that no general purpose register takes.
pub open spec fn gp_const_insts(c: Const, reg: Rq) -> Option<Seq<AsmInst>> {
    match c {
        Const::Float { .. } => None,
        Const::Int { bitw, v } => if 1 <= bitw <= 32 {
            Some(seq![AsmInst::MovImm32 { reg, v: v as u32 as i32 }])
        } else if bitw == 64 {
            Some(seq![AsmInst::MovImm64 { reg, v: v as i64 }])
        } else {
            None
        },
        Const::Ptr(p) => Some(seq![AsmInst::MovImm64 { reg, v: p as i64 }]),
    }
}

/// The offset below the base pointer of a slot of `bytew` bytes that is
/// allocated on a stack of `size` bytes: the stack is aligned to the slot's
/// width and grown by it.
pub open spec fn spill_off(size: usize, bytew: usize) -> int {
    aligned_up(size as int, bytew as int) + bytew
}

/// Can a general purpose register store a value of `bitw` bits to the stack?
pub open spec fn gp_spillable(bitw: u32) -> bool {
    bitw == 1 || bitw == 8 || bitw == 16 || bitw == 32 || bitw == 64
}

impl<'a> LSRegAlloc<'a> {
    /// Does `st` name an instruction or constant of the trace?
    pub open spec fn state_ok(&self, st: RegState) -> bool {
        match st {
            RegState::FromInst(i, _) => i < self.m.insts@.len(),
            RegState::FromConst(k, _) => k < self.m.consts@.len(),
            _ => true,
        }
    }

    /// Record that `reg` now holds what `st` says.
    pub fn set_gp(&mut self, reg: Rq, st: RegState)
        requires
            old(self).wf(),
            !(old(self).gp_reg_states@[reg.spec_code() as int] is Reserved),
            !(st is Reserved),
            old(self).state_ok(st),
        ensures
            final(self).wf(),
            final(self).gp_set(old(self), reg.spec_code() as int, st),
    {
        let c = reg.code() as usize;
        self.gp_reg_states.set(c, st);
        match st {
            RegState::Empty => self.gp_regset.unset(reg),
            _ => self.gp_regset.set(reg),
        }
    }

    /// The state of general purpose register `reg`.
    pub fn gp_state(&self, reg: Rq) -> (st: RegState)
        requires
            self.wf(),
        ensures
            st == self.gp_reg_states@[reg.spec_code() as int],
            self.state_ok(st),
    {
        self.gp_reg_states[reg.code() as usize]
    }

    /// Zero extend the integer of `from_bitw` bits in `reg` to all 64 bits of
    /// the register.
    pub fn force_zero_extend_to_reg64(&self, out: &mut Vec<AsmInst>, reg: Rq, from_bitw: u32) -> (r:
        Result<(), CompilationError>)
        ensures
            match r {
                Ok(()) => zero_ext_insts(reg, from_bitw) is Some && final(out)@ == old(out)@
                    + zero_ext_insts(reg, from_bitw).unwrap(),
                Err(e) => e == CompilationError::General && zero_ext_insts(reg, from_bitw) is None
                    && final(out)@ == old(out)@,
            },
    {
        if 1 <= from_bitw && from_bitw <= 31 {
            let b = from_bitw as u64;
            assert(1 <= b <= 31 ==> 1u64 <= (1u64 << b) <= 0x8000_0000u64) by (bit_vector);
            let mask = ((1u64 << b) - 1) as i32;
            out.push(AsmInst::AndImm32 { reg, mask });
            assert(out@ =~= old(out)@ + seq![AsmInst::AndImm32 { reg, mask }]);
            Ok(())
        } else if from_bitw == 32 {
            out.push(AsmInst::MovZx32 { reg });
            assert(out@ =~= old(out)@ + seq![AsmInst::MovZx32 { reg }]);
            Ok(())
        } else if from_bitw == 64 {
            assert(out@ =~= old(out)@ + Seq::<AsmInst>::empty());
            Ok(())
        } else {
            Err(CompilationError::General)
        }
    }

    /// Sign extend the integer of `from_bits` bits in `reg` to all 64 bits of
    /// the register.
    pub fn force_sign_extend_to_reg64(&self, out: &mut Vec<AsmInst>, reg: Rq, from_bits: u32) -> (r:
        Result<(), CompilationError>)
        ensures
            match r {
                Ok(()) => sign_ext_insts(reg, from_bits) is Some && final(out)@ == old(out)@
                    + sign_ext_insts(reg, from_bits).unwrap(),
                Err(e) => e == CompilationError::General && sign_ext_insts(reg, from_bits) is None
                    && final(out)@ == old(out)@,
            },
    {
        if from_bits == 1 {
            out.push(AsmInst::AndOne { reg });
            out.push(AsmInst::Neg { reg });
            assert(out@ =~= old(out)@ + seq![AsmInst::AndOne { reg }, AsmInst::Neg { reg }]);
            Ok(())
        } else if from_bits == 8 || from_bits == 16 || from_bits == 32 {
            out.push(AsmInst::MovSx { reg, from_bits: from_bits as u8 });
            assert(out@ =~= old(out)@ + seq![AsmInst::MovSx { reg, from_bits: from_bits as u8 }]);
            Ok(())
        } else if from_bits == 64 {
            assert(out@ =~= old(out)@ + Seq::<AsmInst>::empty());
            Ok(())
        } else {
            Err(CompilationError::General)
        }
    }

    /// Bring the extension of the value in `reg` in line with `next_ext`, and
    /// return the extension it had before. Nothing is emitted where the
    /// register already meets `next_ext` or nothing is asked of it.
    pub fn align_extensions(&mut self, out: &mut Vec<AsmInst>, reg: Rq, next_ext: RegExtension) -> (r:
        Result<RegExtension, CompilationError>)
        requires
            old(self).wf(),
            old(self).gp_reg_states@[reg.spec_code() as int].occupied(),
        ensures
            ({
                let c = reg.spec_code() as int;
                let st = old(self).gp_reg_states@[c];
                let insts = align_insts(reg, old(self).value_bitw(st), st.ext(), next_ext);
                match r {
                    Ok(e) => {
                        &&& e == st.ext()
                        &&& insts is Some
                        &&& final(out)@ == old(out)@ + insts.unwrap()
                        &&& final(self).wf()
                        &&& final(self).gp_set(
                            old(self),
                            c,
                            st.with_ext(st.ext().aligned_with(next_ext)),
                        )
                    },
                    Err(e) => {
                        &&& e == CompilationError::General
                        &&& insts is None
                        &&& final(out)@ == old(out)@
                        &&& *final(self) == *old(self)
                    },
                }
            }),
    {
        let st = self.gp_state(reg);
        let (bitw, cur_ext) = match st {
            RegState::FromConst(cidx, ext) => (self.m.const_(cidx).ty().bitw(), ext),
            RegState::FromInst(iidx, ext) => (self.m.inst(iidx).ty.bitw(), ext),
            _ => (0, RegExtension::Undefined),
        };
        let change = match (cur_ext, next_ext) {
            (RegExtension::Undefined, RegExtension::ZeroExtended) => true,
            (RegExtension::SignExtended, RegExtension::ZeroExtended) => true,
            (RegExtension::Undefined, RegExtension::SignExtended) => true,
            (RegExtension::ZeroExtended, RegExtension::SignExtended) => true,
            _ => false,
        };
        if !change {
            proof {
                assert(out@ =~= old(out)@ + Seq::<AsmInst>::empty());
                assert(self.gp_reg_states@ =~= old(self).gp_reg_states@.update(
                    reg.spec_code() as int,
                    st,
                ));
            }
            return Ok(cur_ext);
        }
        let emitted = match next_ext {
            RegExtension::ZeroExtended => self.force_zero_extend_to_reg64(out, reg, bitw),
            _ => self.force_sign_extend_to_reg64(out, reg, bitw),
        };
        match emitted {
            Ok(()) => {
                let nst = match st {
                    RegState::FromConst(cidx, _) => RegState::FromConst(cidx, next_ext),
                    RegState::FromInst(iidx, _) => RegState::FromInst(iidx, next_ext),
                    s => s,
                };
                self.set_gp(reg, nst);
                Ok(cur_ext)
            },
            Err(e) => Err(e),
        }
    }

    /// Return the first general purpose register that holds the value of
    /// `op`, or `None` if no register holds it.
    pub fn find_op_in_gp_reg(&self, op: &Operand) -> (r: Option<Rq>)
        requires
            self.wf(),
        ensures
            match r {
                Some(reg) => first_holder(self.gp_reg_states@, *op, Set::<int>::empty(), 0) == Some(
                    reg.spec_code() as int,
                ),
                None => first_holder(self.gp_reg_states@, *op, Set::<int>::empty(), 0) is None,
            },
    {
        let none: RegSet<Rq> = RegSet::blank();
        find_holder(&self.gp_reg_states, op, &none)
    }

    /// Return the first general purpose register that holds the value of `op`
    /// and is not in `avoid`, or `None` if there is no such register.
    pub fn find_op_in_gp_reg_avoiding(&self, op: &Operand, avoid: RegSet<Rq>) -> (r: Option<Rq>)
        requires
            self.wf(),
        ensures
            match r {
                Some(reg) => first_holder(self.gp_reg_states@, *op, avoid@, 0) == Some(
                    reg.spec_code() as int,
                ),
                None => first_holder(self.gp_reg_states@, *op, avoid@, 0) is None,
            },
    {
        find_holder(&self.gp_reg_states, op, &avoid)
    }

    /// Is the value of `op` in `reg`?
    pub fn is_input_in_gp_reg(&self, op: &Operand, reg: Rq) -> (r: bool)
        requires
            self.wf(),
            !(self.gp_reg_states@[reg.spec_code() as int] is Reserved),
        ensures
            r == self.gp_reg_states@[reg.spec_code() as int].holds(*op),
    {
        self.gp_reg_states[reg.code() as usize].holds_exec(op)
    }

    /// Copy the value in `old_reg` to `new_reg`; `old_reg` keeps it.
    pub fn copy_gp_reg(&mut self, out: &mut Vec<AsmInst>, old_reg: Rq, new_reg: Rq)
        requires
            old(self).wf(),
            old_reg != new_reg,
            old(self).gp_reg_states@[old_reg.spec_code() as int].occupied(),
            !(old(self).gp_reg_states@[new_reg.spec_code() as int] is Reserved),
        ensures
            final(self).wf(),
            final(self).gp_set(
                old(self),
                new_reg.spec_code() as int,
                old(self).gp_reg_states@[old_reg.spec_code() as int],
            ),
            final(out)@ == old(out)@.push(AsmInst::MovRR { dst: new_reg, src: old_reg }),
    {
        out.push(AsmInst::MovRR { dst: new_reg, src: old_reg });
        let st = self.gp_state(old_reg);
        self.set_gp(new_reg, st);
    }

    /// Move the value in `old_reg` to `new_reg`; `old_reg` is empty afterwards.
    pub fn move_gp_reg(&mut self, out: &mut Vec<AsmInst>, old_reg: Rq, new_reg: Rq)
        requires
            old(self).wf(),
            old_reg != new_reg,
            old(self).gp_reg_states@[old_reg.spec_code() as int].occupied(),
            !(old(self).gp_reg_states@[new_reg.spec_code() as int] is Reserved),
        ensures
            final(self).wf(),
            final(self).gp_only(old(self)),
            final(self).gp_reg_states@ == old(self).gp_reg_states@.update(
                new_reg.spec_code() as int,
                old(self).gp_reg_states@[old_reg.spec_code() as int],
            ).update(old_reg.spec_code() as int, RegState::Empty),
            final(out)@ == old(out)@.push(AsmInst::MovRR { dst: new_reg, src: old_reg }),
    {
        proof {
            Rq::lemma_code(old_reg, new_reg);
        }
        out.push(AsmInst::MovRR { dst: new_reg, src: old_reg });
        let st = self.gp_state(old_reg);
        self.set_gp(new_reg, st);
        self.set_gp(old_reg, RegState::Empty);
    }

    /// Exchange the values, and the states, of `old_reg` and `new_reg`.
    pub fn swap_gp_reg(&mut self, out: &mut Vec<AsmInst>, old_reg: Rq, new_reg: Rq)
        requires
            old(self).wf(),
            old(self).gp_reg_states@[old_reg.spec_code() as int].occupied(),
            old(self).gp_reg_states@[new_reg.spec_code() as int].occupied(),
        ensures
            final(self).wf(),
            final(self).gp_only(old(self)),
            final(self).gp_reg_states@ == old(self).gp_reg_states@.update(
                new_reg.spec_code() as int,
                old(self).gp_reg_states@[old_reg.spec_code() as int],
            ).update(
                old_reg.spec_code() as int,
                old(self).gp_reg_states@[new_reg.spec_code() as int],
            ),
            final(out)@ == old(out)@.push(AsmInst::Xchg { a: new_reg, b: old_reg }),
    {
        out.push(AsmInst::Xchg { a: new_reg, b: old_reg });
        let so = self.gp_state(old_reg);
        let sn = self.gp_state(new_reg);
        self.set_gp(new_reg, so);
        self.set_gp(old_reg, sn);
    }

    /// Must the value in general purpose register `c` be spilled before the
    /// register is given up at `cur`: is it an instruction's value that is
    /// used after `cur` and has no spill slot yet?
    pub open spec fn gp_needs_spill(&self, c: int, cur: InstIdx) -> bool {
        match self.gp_reg_states@[c] {
            RegState::FromInst(q, _) => self.rev_an.used_after(cur, q) && self.spills@[q as int]
                is Empty,
            _ => false,
        }
    }

    /// Spill the value in `reg` if it is used after `cur_iidx` and is not
    /// spilled yet. The register keeps its value; of a single bit the
    /// extension may be known better afterwards.
    pub fn spill_gp_if_not_already(&mut self, out: &mut Vec<AsmInst>, cur_iidx: InstIdx, reg: Rq) -> (r:
        Result<(), CompilationError>)
        requires
            old(self).wf(),
            !(old(self).gp_reg_states@[reg.spec_code() as int] is Reserved),
        ensures
            final(self).wf(),
            final(self).same_trace(old(self)),
            final(self).fp_reg_states == old(self).fp_reg_states,
            final(self).fp_regset == old(self).fp_regset,
            old(self).spills_stable(final(self)),
            extends(old(out)@, final(out)@),
            ({
                let c = reg.spec_code() as int;
                let st = old(self).gp_reg_states@[c];
                &&& final(self).gp_reg_states@ == old(self).gp_reg_states@.update(
                    c,
                    final(self).gp_reg_states@[c],
                )
                &&& final(self).gp_reg_states@[c].with_ext(RegExtension::Undefined) == st.with_ext(
                    RegExtension::Undefined,
                )
                &&& !old(self).gp_needs_spill(c, cur_iidx) ==> {
                    &&& r is Ok
                    &&& *final(self) == *old(self)
                    &&& final(out)@ == old(out)@
                }
                &&& old(self).gp_needs_spill(c, cur_iidx) ==> {
                    let q = st->FromInst_0;
                    let ty = old(self).m.insts@[q as int].ty;
                    let off = spill_off(old(self).stack.spec_size(), ty.spec_byte_size());
                    match r {
                        Ok(()) => {
                            &&& gp_spillable(ty.spec_bitw())
                            &&& off <= i32::MAX
                            &&& final(self).spills@ == old(self).spills@.update(
                                q as int,
                                SpillState::Stack(off as i32),
                            )
                            &&& final(self).stack.spec_size() == off
                            &&& ty.spec_bitw() != 1 ==> final(out)@ == old(out)@.push(
                                AsmInst::Store {
                                    off: off as i32,
                                    reg,
                                    bytes: ty.spec_byte_size() as u8,
                                },
                            ) && final(self).gp_reg_states@[c] == st
                        },
                        Err(e) => {
                            &&& final(self).spills == old(self).spills
                            &&& if gp_spillable(ty.spec_bitw()) {
                                e == CompilationError::LimitExceeded && off > i32::MAX
                            } else {
                                e == CompilationError::General
                            }
                        },
                    }
                }
                &&& r is Ok ==> final(self).gp_droppable(c, cur_iidx)
            }),
            old(self).keeps_located(final(self)),
            final(self).gp_agrees(
                final(out)@,
                r,
                old(self).fixed().spilled(old(self).gp(old(out)@), cur_iidx, reg),
            ),
    {
        let ghost c = reg.spec_code() as int;
        let st = self.gp_state(reg);
        proof {
            assert(self.gp_reg_states@ =~= self.gp_reg_states@.update(c, self.gp_reg_states@[c]));
            assert(out@.subrange(0, out@.len() as int) =~= out@);
        }
        let query_iidx = match st {
            RegState::FromInst(q, _) => q,
            _ => {
                return Ok(());
            },
        };
        if !(self.rev_an.is_inst_var_still_used_after(cur_iidx, query_iidx) && matches!(
            self.spills[query_iidx],
            SpillState::Empty
        )) {
            return Ok(());
        }
        let ty = self.m.inst(query_iidx).ty;
        let bitw = ty.bitw();
        let bytew = ty.byte_size();
        if !(bitw == 1 || bitw == 8 || bitw == 16 || bitw == 32 || bitw == 64) {
            return Err(CompilationError::General);
        }
        let size = self.stack.size();
        if size > i32::MAX as usize {
            proof {
                assert(spill_off(size, bytew) > i32::MAX);
            }
            return Err(CompilationError::LimitExceeded);
        }
        assert(1 <= bytew <= 8);
        assert(aligned_up(size as int, bytew as int) <= size + 8) by {
            assert(0 <= (size as int) % (bytew as int) < bytew as int) by (nonlinear_arith)
                requires
                    bytew > 0,
                    size >= 0,
            ;
        }
        let ghost pre_stack = *self;
        self.stack.align(bytew);
        let frame_off = self.stack.grow(bytew);
        if frame_off > i32::MAX as usize {
            proof {
                assert forall|q: InstIdx| #[trigger] old(self).located(q) implies self.located(q) by {}
            }
            return Err(CompilationError::LimitExceeded);
        }
        let off = frame_off as i32;
        let ghost mid_out = out@;
        if bitw == 1 {
            let old_ext = match self.align_extensions(out, reg, RegExtension::ZeroExtended) {
                Ok(e) => e,
                Err(e) => {
                    proof {
                        assert(false);
                    }
                    return Err(e);
                },
            };
            out.push(AsmInst::Store { off, reg, bytes: 1 });
            match self.align_extensions(out, reg, old_ext) {
                Ok(_) => {},
                Err(e) => {
                    proof {
                        assert(false);
                    }
                    return Err(e);
                },
            }
        } else {
            out.push(AsmInst::Store { off, reg, bytes: bytew as u8 });
        }
        self.spills.set(query_iidx, SpillState::Stack(off));
        proof {
            assert(self.gp_reg_states@ =~= old(self).gp_reg_states@.update(
                c,
                self.gp_reg_states@[c],
            ));
            assert(out@.subrange(0, old(out)@.len() as int) =~= old(out)@);
            assert forall|q: InstIdx| #[trigger] old(self).located(q) implies self.located(q) by {
                if crate::lsregalloc::holds_var(old(self).gp_reg_states@, q) {
                    crate::lsregalloc::lemma_update_keeps(
                        old(self).gp_reg_states@,
                        c,
                        self.gp_reg_states@[c],
                        q,
                    );
                }
            }
        }
        Ok(())
    }

    /// Load the constant `cidx` into `reg`. Where the register is wider than
    /// the constant, its upper bits are zero.
    pub fn load_const_into_gp_reg(&mut self, out: &mut Vec<AsmInst>, cidx: ConstIdx, reg: Rq) -> (r:
        Result<(), CompilationError>)
        requires
            old(self).wf(),
            cidx < old(self).m.consts@.len(),
            !(old(self).gp_reg_states@[reg.spec_code() as int] is Reserved),
        ensures
            ({
                let insts = gp_const_insts(old(self).m.consts@[cidx as int], reg);
                match r {
                    Ok(()) => {
                        &&& insts is Some
                        &&& final(out)@ == old(out)@ + insts.unwrap()
                        &&& final(self).wf()
                        &&& final(self).gp_set(
                            old(self),
                            reg.spec_code() as int,
                            RegState::FromConst(cidx, RegExtension::ZeroExtended),
                        )
                    },
                    Err(e) => {
                        &&& e == CompilationError::General
                        &&& insts is None
                        &&& final(out)@ == old(out)@
                        &&& *final(self) == *old(self)
                    },
                }
            }),
    {
        match self.m.const_(cidx) {
            Const::Float { .. } => {
                return Err(CompilationError::General);
            },
            Const::Int { bitw, v } => {
                if 1 <= bitw && bitw <= 32 {
                    let imm = #[verifier::truncate]
                    ((#[verifier::truncate]
                    (v as u32)) as i32);
                    out.push(AsmInst::MovImm32 { reg, v: imm });
                    assert(out@ =~= old(out)@ + seq![AsmInst::MovImm32 { reg, v: imm }]);
                } else if bitw == 64 {
                    let imm = #[verifier::truncate]
                    (v as i64);
                    out.push(AsmInst::MovImm64 { reg, v: imm });
                    assert(out@ =~= old(out)@ + seq![AsmInst::MovImm64 { reg, v: imm }]);
                } else {
                    return Err(CompilationError::General);
                }
            },
            Const::Ptr(p) => {
                let imm = #[verifier::truncate]
                (p as i64);
                out.push(AsmInst::MovImm64 { reg, v: imm });
                assert(out@ =~= old(out)@ + seq![AsmInst::MovImm64 { reg, v: imm }]);
            },
        }
        self.set_gp(reg, RegState::FromConst(cidx, RegExtension::ZeroExtended));
        Ok(())
    }

    /// The instructions that bring the value of instruction `iidx` into
    /// `reg`: a constant is loaded afresh; a value that was never spilled is
    /// copied from the first register that holds it; a spilled value is
    /// loaded from its slot. `None` where the value is nowhere to be found or
    /// is of a size that cannot be loaded.
    pub open spec fn gp_unspill_insts(&self, iidx: InstIdx, reg: Rq) -> Option<Seq<AsmInst>> {
        let inst = self.m.insts@[iidx as int];
        let size = inst.ty.spec_byte_size();
        if let InstKind::Const(k) = inst.kind {
            gp_const_insts(self.m.consts@[k as int], reg)
        } else {
            match self.spills@[iidx as int] {
                SpillState::Empty => match first_holder(
                    self.gp_reg_states@,
                    Operand::Var(iidx),
                    Set::<int>::empty(),
                    0,
                ) {
                    Some(c) => if c == reg.spec_code() {
                        Some(Seq::<AsmInst>::empty())
                    } else {
                        Some(seq![AsmInst::MovRR { dst: reg, src: gp_reg(c) }])
                    },
                    None => None,
                },
                SpillState::Stack(off) => if size == 1 || size == 2 || size == 4 || size == 8 {
                    Some(seq![AsmInst::LoadZx { reg, off, bytes: size as u8 }])
                } else {
                    None
                },
                SpillState::Direct(off) => if size == 8 {
                    Some(seq![AsmInst::Lea { reg, off }])
                } else {
                    None
                },
                SpillState::ConstInt { bits, v } => if bits == 32 || bits == 8 {
                    Some(seq![AsmInst::MovImm32 { reg, v: v as i32 }])
                } else {
                    None
                },
            }
        }
    }

    /// What `reg` holds once the value of instruction `iidx` has been brought
    /// into it.
    pub open spec fn gp_unspilled_state(&self, iidx: InstIdx) -> RegState {
        match self.m.insts@[iidx as int].kind {
            InstKind::Const(k) => RegState::FromConst(k, RegExtension::ZeroExtended),
            _ => RegState::FromInst(iidx, RegExtension::ZeroExtended),
        }
    }

    /// Bring the value of instruction `iidx` into `reg`, from wherever it is.
    /// It is an internal error if the value is neither a constant, nor
    /// spilled, nor in a register.
    pub fn force_gp_unspill(&mut self, out: &mut Vec<AsmInst>, iidx: InstIdx, reg: Rq) -> (r: Result<
        (),
        CompilationError,
    >)
        requires
            old(self).wf(),
            iidx < old(self).m.insts@.len(),
            !(old(self).gp_reg_states@[reg.spec_code() as int] is Reserved),
        ensures
            ({
                let insts = old(self).gp_unspill_insts(iidx, reg);
                match r {
                    Ok(()) => {
                        &&& insts is Some
                        &&& final(out)@ == old(out)@ + insts.unwrap()
                        &&& final(self).wf()
                        &&& final(self).gp_set(
                            old(self),
                            reg.spec_code() as int,
                            old(self).gp_unspilled_state(iidx),
                        )
                    },
                    Err(e) => {
                        &&& insts is None
                        &&& final(out)@ == old(out)@
                        &&& *final(self) == *old(self)
                        &&& e == CompilationError::InternalError <==> !old(self).located(iidx)
                        &&& e == CompilationError::General <==> old(self).located(iidx)
                    },
                }
            }),
    {
        let inst = self.m.inst(iidx);
        let size = inst.ty.byte_size();
        if let InstKind::Const(cidx) = inst.kind {
            return self.load_const_into_gp_reg(out, cidx, reg);
        }
        match self.spills[iidx] {
            SpillState::Empty => {
                proof {
                    lemma_first_holder(
                        self.gp_reg_states@,
                        Operand::Var(iidx),
                        Set::<int>::empty(),
                        0,
                    );
                }
                match self.find_op_in_gp_reg(&Operand::Var(iidx)) {
                    Some(cur_reg) => {
                        proof {
                            Rq::lemma_code(cur_reg, reg);
                            Rq::lemma_code(cur_reg, gp_reg(cur_reg.spec_code() as int));
                        }
                        if cur_reg != reg {
                            out.push(AsmInst::MovRR { dst: reg, src: cur_reg });
                            assert(out@ =~= old(out)@ + seq![
                                AsmInst::MovRR { dst: reg, src: cur_reg },
                            ]);
                        } else {
                            assert(out@ =~= old(out)@ + Seq::<AsmInst>::empty());
                        }
                    },
                    None => {
                        proof {
                            assert(!crate::lsregalloc::holds_var(self.gp_reg_states@, iidx));
                        }
                        if self.in_fp_reg(iidx) {
                            return Err(CompilationError::General);
                        }
                        return Err(CompilationError::InternalError);
                    },
                }
            },
            SpillState::Stack(off) => {
                if size == 1 || size == 2 || size == 4 || size == 8 {
                    out.push(AsmInst::LoadZx { reg, off, bytes: size as u8 });
                    assert(out@ =~= old(out)@ + seq![
                        AsmInst::LoadZx { reg, off, bytes: size as u8 },
                    ]);
                } else {
                    return Err(CompilationError::General);
                }
            },
            SpillState::Direct(off) => {
                if size == 8 {
                    out.push(AsmInst::Lea { reg, off });
                    assert(out@ =~= old(out)@ + seq![AsmInst::Lea { reg, off }]);
                } else {
                    return Err(CompilationError::General);
                }
            },
            SpillState::ConstInt { bits, v } => {
                if bits == 32 || bits == 8 {
                    let imm = #[verifier::truncate]
                    (v as i32);
                    out.push(AsmInst::MovImm32 { reg, v: imm });
                    assert(out@ =~= old(out)@ + seq![AsmInst::MovImm32 { reg, v: imm }]);
                } else {
                    return Err(CompilationError::General);
                }
            },
        }
        self.set_gp(reg, RegState::FromInst(iidx, RegExtension::ZeroExtended));
        Ok(())
    }

    /// Is the value of instruction `iidx` in a floating point register?
    pub fn in_fp_reg(&self, iidx: InstIdx) -> (r: bool)
        requires
            self.wf(),
        ensures
            r == crate::lsregalloc::holds_var(self.fp_reg_states@, iidx),
    {
        let none: RegSet<Rx> = RegSet::blank();
        proof {
            lemma_first_holder(self.fp_reg_states@, Operand::Var(iidx), Set::<int>::empty(), 0);
        }
        find_holder(&self.fp_reg_states, &Operand::Var(iidx), &none).is_some()
    }

    /// What `reg` holds once `op` has been put in it with extension `ext`: a
    /// value already there has its extension brought in line; a value that is
    /// loaded is known to have the extension asked for.
    pub open spec fn put_state(st: RegState, op: Operand, ext: RegExtension) -> RegState {
        if st.holds(op) {
            st.with_ext(st.ext().aligned_with(ext))
        } else {
            RegState::of(op, ext)
        }
    }

    /// Put the value of `op` into `reg`, with its upper bits as `ext` says,
    /// loading it if it is not there.
    pub fn put_input_in_gp_reg(&mut self, out: &mut Vec<AsmInst>, op: &Operand, reg: Rq, ext: RegExtension,) -> (r: Result<(), CompilationError>)
        requires
            old(self).wf(),
            old(self).m.valid_op(*op),
            !(old(self).gp_reg_states@[reg.spec_code() as int] is Reserved),
        ensures
            final(self).wf(),
            final(self).gp_only(old(self)),
            extends(old(out)@, final(out)@),
            ({
                let c = reg.spec_code() as int;
                &&& final(self).gp_reg_states@ == old(self).gp_reg_states@.update(
                    c,
                    final(self).gp_reg_states@[c],
                )
                &&& r is Ok ==> final(self).gp_reg_states@[c] == Self::put_state(
                    old(self).gp_reg_states@[c],
                    *op,
                    ext,
                )
                &&& r is Err ==> (r->Err_0 == CompilationError::General || r->Err_0
                    == CompilationError::InternalError)
                &&& r is Err && old(self).gp_reg_states@[c].holds(*op) ==> *final(self) == *old(self)
            }),
            final(self).gp_agrees(
                final(out)@,
                r,
                old(self).fixed().placed(old(self).gp(old(out)@), *op, reg, ext),
            ),
    {
        let ghost c = reg.spec_code() as int;
        proof {
            assert(self.gp_reg_states@ =~= self.gp_reg_states@.update(c, self.gp_reg_states@[c]));
            assert(out@.subrange(0, out@.len() as int) =~= out@);
        }
        if self.is_input_in_gp_reg(op, reg) {
            return match self.align_extensions(out, reg, ext) {
                Ok(_) => {
                    proof {
                        assert(out@.subrange(0, old(out)@.len() as int) =~= old(out)@);
                    }
                    Ok(())
                },
                Err(e) => Err(e),
            };
        }
        let loaded = match op {
            Operand::Const(cidx) => self.load_const_into_gp_reg(out, *cidx, reg),
            Operand::Var(op_iidx) => self.force_gp_unspill(out, *op_iidx, reg),
        };
        if let Err(e) = loaded {
            return Err(e);
        }
        let ghost mid = *self;
        let ghost mid_out = out@;
        proof {
            assert(mid_out.subrange(0, old(out)@.len() as int) =~= old(out)@);
        }
        let aligned = self.align_extensions(out, reg, ext);
        proof {
            assert(out@.subrange(0, old(out)@.len() as int) =~= old(out)@);
            assert(self.gp_reg_states@ =~= old(self).gp_reg_states@.update(
                c,
                self.gp_reg_states@[c],
            ));
        }
        if let Err(e) = aligned {
            return Err(e);
        }
        let st = match op {
            Operand::Const(cidx) => RegState::FromConst(*cidx, ext),
            Operand::Var(op_iidx) => RegState::FromInst(*op_iidx, ext),
        };
        self.set_gp(reg, st);
        proof {
            assert(self.gp_reg_states@ =~= old(self).gp_reg_states@.update(c, st));
        }
        Ok(())
    }

    /// Has the value of instruction `iidx` a place that `var_location` can
    /// name: a register; or, for a constant, its value; or a spill slot, which
    /// in the case of a stack slot lies below the base pointer. Copies have no
    /// location of their own.
    pub open spec fn has_location(&self, iidx: InstIdx) -> bool {
        &&& iidx < self.m.insts@.len()
        &&& (crate::lsregalloc::holds_var(self.gp_reg_states@, iidx)
            || crate::lsregalloc::holds_var(self.fp_reg_states@, iidx) || match self.m.insts@[iidx as int].kind {
            InstKind::Copy(_) => false,
            InstKind::Const(_) => true,
            InstKind::Other => match self.spills@[iidx as int] {
                SpillState::Empty => false,
                SpillState::Stack(off) => off >= 0,
                _ => true,
            },
        })
    }

    /// Where the value of instruction `iidx` is: a register is preferred to a
    /// spill slot, and a general purpose register to a floating point one.
    pub open spec fn spec_var_location(&self, iidx: InstIdx) -> VarLocation {
        let size = self.m.insts@[iidx as int].ty.spec_byte_size();
        let var = Operand::Var(iidx);
        if let Some(c) = first_holder(self.gp_reg_states@, var, Set::<int>::empty(), 0) {
            VarLocation::Register(AnyRegister::GP(gp_reg(c)))
        } else if let Some(c) = first_holder(self.fp_reg_states@, var, Set::<int>::empty(), 0) {
            VarLocation::Register(AnyRegister::FP(fp_reg(c)))
        } else {
            match self.m.insts@[iidx as int].kind {
                InstKind::Const(k) => match self.m.consts@[k as int] {
                    Const::Float { bits, .. } => VarLocation::ConstFloat { bits },
                    Const::Int { bitw, v } => VarLocation::ConstInt { bits: bitw, v },
                    Const::Ptr(p) => VarLocation::ConstInt { bits: 64, v: p as u64 },
                },
                _ => match self.spills@[iidx as int] {
                    SpillState::Stack(off) => VarLocation::Stack { frame_off: off as u32, size },
                    SpillState::Direct(off) => VarLocation::Direct { frame_off: off, size },
                    SpillState::ConstInt { bits, v } => VarLocation::ConstInt { bits, v },
                    SpillState::Empty => VarLocation::ConstInt { bits: 0, v: 0 },
                },
            }
        }
    }

    /// Return the location of the value of instruction `iidx`. The
    /// instruction must have produced its value already.
    pub fn var_location(&self, iidx: InstIdx) -> (r: VarLocation)
        requires
            self.wf(),
            self.has_location(iidx),
        ensures
            r == self.spec_var_location(iidx),
    {
        let var = Operand::Var(iidx);
        let gp_none: RegSet<Rq> = RegSet::blank();
        let fp_none: RegSet<Rx> = RegSet::blank();
        proof {
            lemma_first_holder(self.gp_reg_states@, var, Set::<int>::empty(), 0);
            lemma_first_holder(self.fp_reg_states@, var, Set::<int>::empty(), 0);
        }
        if let Some(reg) = find_holder(&self.gp_reg_states, &var, &gp_none) {
            proof {
                Rq::lemma_code(reg, gp_reg(reg.spec_code() as int));
            }
            VarLocation::Register(AnyRegister::GP(reg))
        } else if let Some(reg) = find_holder(&self.fp_reg_states, &var, &fp_none) {
            proof {
                Rx::lemma_code(reg, fp_reg(reg.spec_code() as int));
            }
            VarLocation::Register(AnyRegister::FP(reg))
        } else {
            let inst = self.m.inst(iidx);
            let size = inst.ty.byte_size();
            match inst.kind {
                InstKind::Const(cidx) => match self.m.const_(cidx) {
                    Const::Float { bits, .. } => VarLocation::ConstFloat { bits },
                    Const::Int { bitw, v } => VarLocation::ConstInt { bits: bitw, v },
                    Const::Ptr(p) => VarLocation::ConstInt { bits: 64, v: p as u64 },
                },
                _ => match self.spills[iidx] {
                    SpillState::Stack(off) => VarLocation::Stack { frame_off: off as u32, size },
                    SpillState::Direct(off) => VarLocation::Direct { frame_off: off, size },
                    SpillState::ConstInt { bits, v } => VarLocation::ConstInt { bits, v },
                    SpillState::Empty => VarLocation::ConstInt { bits: 0, v: 0 },
                },
            }
        }
    }
}

} // verus!
