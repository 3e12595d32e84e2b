//! The second stage of general purpose register assignment: carrying out the
//! choice that the first stage made.

use crate::jit_ir::{AsmInst, CompilationError, InstIdx, InstKind, Operand};
use crate::lsregalloc::assign::unshared;
use crate::lsregalloc::plan::{assigned_upto, finished, first_pos, wanted, Gp};
use crate::lsregalloc::{
    extends, holds_var, lemma_first_holder, GPConstraint, LSRegAlloc, RegExtension, RegState,
    SpillState,
};
use crate::regs::{gp_reg, gp_reserved, RegSet, Register, Rq};
use vstd::prelude::*;

verus! {

/// How often the operands are shuffled between registers before the
/// allocator gives up on reaching a fixed point.
pub const MAX_SHUFFLE_ROUNDS: usize = 256;

/// What the register `st` that answers constraint `c` must hold once the
/// instruction `iidx` has run: a plain input is still there, with its upper
/// bits as asked; an output register holds the instruction's value; anything
/// clobbered is empty.
pub open spec fn gp_answer_ok(c: GPConstraint, st: RegState, iidx: InstIdx) -> bool {
    match c {
        GPConstraint::Input { op, in_ext, clobber_reg, .. } => if clobber_reg {
            st is Empty
        } else {
            st.holds(op) && st.ext().satisfies(in_ext)
        },
        GPConstraint::InputOutput { out_ext, .. } => st == RegState::FromInst(iidx, out_ext),
        GPConstraint::Output { out_ext, .. } => st == RegState::FromInst(iidx, out_ext),
        GPConstraint::Clobber { .. } => st is Empty,
        GPConstraint::Temporary => st is Empty,
        GPConstraint::Ignore => true,
    }
}

/// The first position of `regs` that holds `reg`.
fn first_with_reg(regs: &Vec<Rq>, reg: Rq) -> (r: Option<usize>)
    ensures
        match r {
            Some(j) => j < regs@.len() && regs@[j as int] == reg && forall|i: int|
                0 <= i < j ==> regs@[i] != reg,
            None => forall|i: int| 0 <= i < regs@.len() ==> regs@[i] != reg,
        },
        match r {
            Some(j) => first_pos(regs@, reg, 0) == Some(j as int),
            None => first_pos(regs@, reg, 0) is None,
        },
{
    let mut j: usize = 0;
    while j < regs.len()
        invariant
            j <= regs@.len(),
            forall|i: int| 0 <= i < j ==> regs@[i] != reg,
            first_pos(regs@, reg, j as int) == first_pos(regs@, reg, 0),
        decreases regs@.len() - j,
    {
        if regs[j] == reg {
            return Some(j);
        }
        j = j + 1;
    }
    None
}

impl<'a> LSRegAlloc<'a> {
    /// The operands of the constraints `cs` are in the registers `regs`, and
    /// every register that its constraint clobbers holds nothing that must
    /// stay: the state in which the instruction `iidx` executes.
    pub open spec fn gp_inputs_placed(&self, cs: Seq<GPConstraint>, regs: Seq<Rq>, iidx: InstIdx) -> bool {
        forall|k: int|
            0 <= k < cs.len() ==> {
                let st = self.gp_reg_states@[regs[k].spec_code() as int];
                &&& match (#[trigger] cs[k]).spec_op() {
                    Some(op) => st.holds(op),
                    None => true,
                }
                &&& cs[k].clobbers() ==> self.droppable(st, iidx)
                &&& unshared(cs, regs, k) && !cs[k].clobbers() ==> st.ext().satisfies(
                    cs[k].spec_in_ext(),
                )
            }
    }

    /// Can `reg` be overwritten without losing a value that is used after
    /// `iidx`?
    pub fn gp_is_spare(&self, reg: Rq, iidx: InstIdx) -> (r: bool)
        requires
            self.wf(),
        ensures
            r == self.gp_spare(reg.spec_code() as int, iidx),
    {
        let c = reg.code();
        match self.gp_reg_states[c as usize] {
            RegState::FromInst(q, _) => {
                if !self.rev_an.is_inst_var_still_used_after(iidx, q) {
                    return true;
                }
                if !matches!(self.spills[q], SpillState::Empty) {
                    return true;
                }
                if let InstKind::Const(_) = self.m.inst(q).kind {
                    return true;
                }
                let mut d: u8 = 0;
                while d < 16
                    invariant
                        d <= 16,
                        self.wf(),
                        c < 16,
                        c == reg.spec_code(),
                        self.gp_reg_states@[c as int] is FromInst,
                        self.gp_reg_states@[c as int]->FromInst_0 == q,
                        forall|e: int|
                            0 <= e < d && e != c ==> !(#[trigger] self.gp_reg_states@[e]).holds(
                                Operand::Var(q),
                            ),
                    decreases 16 - d,
                {
                    if d != c {
                        if let RegState::FromInst(p, _) = self.gp_reg_states[d as usize] {
                            if p == q {
                                proof {
                                    assert(self.gp_reg_states@[d as int].holds(Operand::Var(q)));
                                }
                                return true;
                            }
                        }
                    }
                    d = d + 1;
                }
                false
            },
            _ => true,
        }
    }

    /// The registers that the constraints were given, and the reserved ones:
    /// the registers in which no operand is looked for to copy it from.
    pub fn gp_assigned(&self, constraints: &Vec<GPConstraint>, regs: &Vec<Rq>) -> (s: RegSet<Rq>)
        requires
            regs@.len() == constraints@.len(),
        ensures
            forall|c: int| gp_reserved().contains(c) ==> s@.contains(c),
            s@ == assigned_upto(constraints@, regs@, constraints@.len() as int),
    {
        let mut s = RegSet::with_gp_reserved();
        let mut k: usize = 0;
        while k < constraints.len()
            invariant
                k <= constraints@.len(),
                regs@.len() == constraints@.len(),
                forall|c: int| gp_reserved().contains(c) ==> s@.contains(c),
                s@ == assigned_upto(constraints@, regs@, k as int),
            decreases constraints@.len() - k,
        {
            match constraints[k] {
                GPConstraint::Ignore => {},
                _ => {
                    s.set(regs[k]);
                },
            }
            k = k + 1;
        }
        s
    }

    /// Empty the chosen registers of the values that no constraint wants,
    /// spilling those that are used later and are not spilled yet.
    pub fn evict_unwanted(&mut self, out: &mut Vec<AsmInst>, iidx: InstIdx, constraints: &Vec<
        GPConstraint,
    >, regs: &Vec<Rq>) -> (r: Result<(), CompilationError>)
        requires
            old(self).wf(),
            old(self).gp_choice_ok(constraints@, regs@),
        ensures
            final(self).advanced_from(old(self), iidx),
            extends(old(out)@, final(out)@),
            r is Err ==> r->Err_0 == CompilationError::General || r->Err_0
                == CompilationError::LimitExceeded,
            final(self).gp_agrees(
                final(out)@,
                r,
                old(self).fixed().evicted(old(self).gp(old(out)@), iidx, constraints@, regs@, 0),
            ),
            // No chosen register holds a value that no constraint wants, and
            // no register holds a value that it did not hold.
            r is Ok ==> forall|j: int|
                #![trigger regs@[j]]
                0 <= j < regs@.len() ==> match final(self).gp_reg_states@[regs@[j].spec_code() as int] {
                    RegState::FromConst(c, _) => wanted(constraints@, Operand::Const(c)),
                    RegState::FromInst(q, _) => wanted(constraints@, Operand::Var(q)),
                    _ => true,
                },
            forall|c: int|
                0 <= c < 16 ==> {
                    let st = #[trigger] final(self).gp_reg_states@[c];
                    st is Empty || st.with_ext(RegExtension::Undefined) == old(self).gp_reg_states@[c].with_ext(
                        RegExtension::Undefined,
                    )
                },
    {
        let ghost o0 = *self;
        let ghost out0 = out@;
        let n = regs.len();
        let mut k: usize = 0;
        proof {
            assert(out@.subrange(0, out@.len() as int) =~= out@);
        }
        while k < n
            invariant
                k <= n,
                n == regs@.len(),
                o0 == *old(self),
                out0 == old(out)@,
                o0.wf(),
                o0.gp_choice_ok(constraints@, regs@),
                self.advanced_from(&o0, iidx),
                extends(out0, out@),
                self.fixed().evicted(self.gp(out@), iidx, constraints@, regs@, k as int)
                    == o0.fixed().evicted(o0.gp(out0), iidx, constraints@, regs@, 0),
                forall|j: int|
                    #![trigger regs@[j]]
                    0 <= j < k ==> match self.gp_reg_states@[regs@[j].spec_code() as int] {
                        RegState::FromConst(c, _) => wanted(constraints@, Operand::Const(c)),
                        RegState::FromInst(q, _) => wanted(constraints@, Operand::Var(q)),
                        _ => true,
                    },
                forall|c: int|
                    0 <= c < 16 ==> (#[trigger] self.gp_reg_states@[c]) is Empty
                        || self.gp_reg_states@[c].with_ext(RegExtension::Undefined)
                        == o0.gp_reg_states@[c].with_ext(RegExtension::Undefined),
            decreases n - k,
        {
            let reg = regs[k];
            let st = self.gp_state(reg);
            let ghost c = reg.spec_code() as int;
            proof {
                assert(constraints@[k as int] is Ignore || !gp_reserved().contains(c));
            }
            match st {
                RegState::FromConst(op_cidx, _) => {
                    if !self.find_op_in_constraints(constraints, Operand::Const(op_cidx)) {
                        let ghost pre = *self;
                        self.set_gp(reg, RegState::Empty);
                        proof {
                            Self::lemma_gp_set_keeps(&pre, self, c, RegState::Empty);
                            Self::lemma_keeps_located_advances(&pre, self, iidx);
                            Self::lemma_advanced_trans(&o0, &pre, self, iidx);
                        }
                    }
                },
                RegState::FromInst(op_iidx, _) => {
                    if !self.find_op_in_constraints(constraints, Operand::Var(op_iidx)) {
                        let ghost pre = *self;
                        let ghost pre_out = out@;
                        let spilled = self.spill_gp_if_not_already(out, iidx, reg);
                        proof {
                            Self::lemma_keeps_located_advances(&pre, self, iidx);
                            Self::lemma_advanced_trans(&o0, &pre, self, iidx);
                            assert(out@.subrange(0, out0.len() as int) =~= out0) by {
                                assert(out@.subrange(0, pre_out.len() as int) == pre_out);
                                assert(pre_out.subrange(0, out0.len() as int) == out0);
                            }
                        }
                        if let Err(e) = spilled {
                            return Err(e);
                        }
                        let ghost mid = *self;
                        self.set_gp(reg, RegState::Empty);
                        proof {
                            Self::lemma_gp_set_keeps_live(&mid, self, c, RegState::Empty, iidx);
                            Self::lemma_advanced_trans(&o0, &mid, self, iidx);
                        }
                    }
                },
                _ => {},
            }
            k = k + 1;
        }
        Ok(())
    }

    /// Move operands that sit in the wrong register to the register chosen
    /// for them: copy where the source still needs the value, move where the
    /// destination is empty, exchange where both are taken. This is repeated
    /// until nothing moves any more; it is an internal error if that takes
    /// more than `MAX_SHUFFLE_ROUNDS` rounds.
    pub fn shuffle_inputs(&mut self, out: &mut Vec<AsmInst>, iidx: InstIdx, constraints: &Vec<
        GPConstraint,
    >, regs: &Vec<Rq>) -> (r: Result<(), CompilationError>)
        requires
            old(self).wf(),
            old(self).gp_choice_ok(constraints@, regs@),
        ensures
            final(self).advanced_from(old(self), iidx),
            final(self).spills == old(self).spills,
            final(self).stack == old(self).stack,
            old(self).keeps_located(final(self)),
            extends(old(out)@, final(out)@),
            r is Err ==> r->Err_0 == CompilationError::InternalError,
            final(self).gp_agrees(
                final(out)@,
                r,
                old(self).gp(old(out)@).shuffled(
                    true,
                    constraints@,
                    regs@,
                    assigned_upto(constraints@, regs@, constraints@.len() as int),
                    0,
                ),
            ),
    {
        let ghost o0 = *self;
        let ghost out0 = out@;
        let n = regs.len();
        let asgn_regs = self.gp_assigned(constraints, regs);
        let mut changed = true;
        let mut rounds: usize = 0;
        proof {
            assert(out@.subrange(0, out@.len() as int) =~= out@);
        }
        while changed && rounds < MAX_SHUFFLE_ROUNDS
            invariant
                rounds <= MAX_SHUFFLE_ROUNDS,
                n == regs@.len(),
                o0 == *old(self),
                out0 == old(out)@,
                o0.wf(),
                o0.gp_choice_ok(constraints@, regs@),
                self.wf(),
                self.gp_only(&o0),
                o0.keeps_located(self),
                extends(out0, out@),
                asgn_regs@ == assigned_upto(constraints@, regs@, constraints@.len() as int),
                self.gp(out@).shuffled(changed, constraints@, regs@, asgn_regs@, rounds as int)
                    == o0.gp(out0).shuffled(true, constraints@, regs@, asgn_regs@, 0),
            decreases MAX_SHUFFLE_ROUNDS - rounds,
        {
            let ghost g0 = self.gp(out@);
            changed = false;
            // Values in registers that no constraint was given are copied into place.
            let mut k: usize = 0;
            while k < n
                invariant
                    k <= n,
                    n == regs@.len(),
                    self.gp(out@).copies(changed, constraints@, regs@, asgn_regs@, k as int)
                        == g0.copies(false, constraints@, regs@, asgn_regs@, 0),
                    o0.wf(),
                    o0.gp_choice_ok(constraints@, regs@),
                    self.wf(),
                    self.gp_only(&o0),
                    o0.keeps_located(self),
                    extends(out0, out@),
                decreases n - k,
            {
                let reg = regs[k];
                let ghost c = reg.spec_code() as int;
                if let Some(op) = constraints[k].op() {
                    if matches!(self.gp_state(reg), RegState::Empty) {
                        proof {
                            lemma_first_holder(self.gp_reg_states@, op, asgn_regs@, 0);
                        }
                        if let Some(old_reg) = self.find_op_in_gp_reg_avoiding(&op, asgn_regs) {
                            let ghost pre = *self;
                            let ghost pre_out = out@;
                            self.copy_gp_reg(out, old_reg, reg);
                            changed = true;
                            proof {
                                Rq::lemma_code(old_reg, gp_reg(old_reg.spec_code() as int));
                                assert(self.gp(out@) == pre.gp(pre_out).copied(old_reg, reg));
                                Self::lemma_gp_set_keeps(
                                    &pre,
                                    self,
                                    c,
                                    pre.gp_reg_states@[old_reg.spec_code() as int],
                                );
                                assert(out@.subrange(0, out0.len() as int) =~= out0) by {
                                    assert(pre_out.subrange(0, out0.len() as int) == out0);
                                }
                            }
                        }
                    }
                }
                k = k + 1;
            }
            // Values in registers that another constraint was given change places.
            let ghost g1 = self.gp(out@);
            let ghost c1 = changed;
            k = 0;
            while k < n
                invariant
                    k <= n,
                    n == regs@.len(),
                    self.gp(out@).swaps(changed, constraints@, regs@, k as int) == g1.swaps(
                        c1,
                        constraints@,
                        regs@,
                        0,
                    ),
                    o0.wf(),
                    o0.gp_choice_ok(constraints@, regs@),
                    self.wf(),
                    self.gp_only(&o0),
                    o0.keeps_located(self),
                    extends(out0, out@),
                decreases n - k,
            {
                let reg = regs[k];
                let ghost c = reg.spec_code() as int;
                if let Some(op) = constraints[k].op() {
                    proof {
                        assert(!(constraints@[k as int] is Ignore));
                        assert(!gp_reserved().contains(c));
                        lemma_first_holder(self.gp_reg_states@, op, Set::<int>::empty(), 0);
                    }
                    if !self.is_input_in_gp_reg(&op, reg) {
                        if let Some(old_reg) = self.find_op_in_gp_reg(&op) {
                            if let Some(j) = first_with_reg(regs, old_reg) {
                                let other = constraints[j];
                                let ghost pre = *self;
                                let ghost pre_out = out@;
                                let ghost oc = old_reg.spec_code() as int;
                                let reg_empty = matches!(self.gp_state(reg), RegState::Empty);
                                let acted = match other {
                                    GPConstraint::Input { op: rhs_op, .. }
                                    | GPConstraint::InputOutput { op: rhs_op, .. } => {
                                        if reg_empty {
                                            if op == rhs_op {
                                                self.copy_gp_reg(out, old_reg, reg);
                                                proof {
                                                    Self::lemma_gp_set_keeps(
                                                        &pre,
                                                        self,
                                                        c,
                                                        pre.gp_reg_states@[oc],
                                                    );
                                                }
                                            } else {
                                                self.move_gp_reg(out, old_reg, reg);
                                                proof {
                                                    Self::lemma_move_keeps(&pre, self, oc, c);
                                                }
                                            }
                                        } else {
                                            self.swap_gp_reg(out, reg, old_reg);
                                            proof {
                                                Self::lemma_swap_keeps(&pre, self, oc, c);
                                            }
                                        }
                                        true
                                    },
                                    GPConstraint::Output { .. }
                                    | GPConstraint::Clobber { .. }
                                    | GPConstraint::Temporary => {
                                        if reg_empty {
                                            self.move_gp_reg(out, old_reg, reg);
                                            proof {
                                                Self::lemma_move_keeps(&pre, self, oc, c);
                                            }
                                        } else {
                                            self.swap_gp_reg(out, reg, old_reg);
                                            proof {
                                                Self::lemma_swap_keeps(&pre, self, oc, c);
                                            }
                                        }
                                        true
                                    },
                                    GPConstraint::Ignore => false,
                                };
                                if acted {
                                    changed = true;
                                }
                                proof {
                                    Rq::lemma_code(old_reg, gp_reg(old_reg.spec_code() as int));
                                    assert(out@.subrange(0, out0.len() as int) =~= out0) by {
                                        assert(pre_out.subrange(0, out0.len() as int) == out0);
                                    }
                                }
                            }
                        }
                    }
                }
                k = k + 1;
            }
            proof {
                assert(g0.copies(false, constraints@, regs@, asgn_regs@, 0) == (g1, c1));
                assert(g1.swaps(c1, constraints@, regs@, 0) == (self.gp(out@), changed));
            }
            rounds = rounds + 1;
        }
        proof {
            Self::lemma_keeps_located_advances(&o0, self, iidx);
        }
        if changed {
            return Err(CompilationError::InternalError);
        }
        Ok(())
    }

    /// Load the operands that are in no register into the registers chosen
    /// for them, bring their upper bits in line with what is asked, and spill
    /// what the instruction is about to clobber. It is an internal error if a
    /// load would overwrite the only copy of a value that is used later.
    #[verifier::rlimit(80)]
    #[verifier::spinoff_prover]
    pub fn load_inputs(&mut self, out: &mut Vec<AsmInst>, iidx: InstIdx, constraints: &Vec<
        GPConstraint,
    >, regs: &Vec<Rq>) -> (r: Result<(), CompilationError>)
        requires
            old(self).wf(),
            old(self).gp_constraints_ok(constraints@),
            old(self).gp_choice_ok(constraints@, regs@),
        ensures
            final(self).advanced_from(old(self), iidx),
            extends(old(out)@, final(out)@),
            r is Ok ==> final(self).gp_inputs_placed(constraints@, regs@, iidx),
            final(self).gp_agrees(
                final(out)@,
                r,
                old(self).fixed().loaded(old(self).gp(old(out)@), iidx, constraints@, regs@, 0),
            ),
    {
        let ghost o0 = *self;
        let ghost out0 = out@;
        let ghost cs = constraints@;
        let ghost rs = regs@;
        let n = regs.len();
        let mut k: usize = 0;
        proof {
            assert(out@.subrange(0, out@.len() as int) =~= out@);
            Self::lemma_keeps_located_advances(&o0, self, iidx);
        }
        while k < n
            invariant
                k <= n,
                n == rs.len(),
                cs == constraints@,
                rs == regs@,
                o0 == *old(self),
                out0 == old(out)@,
                o0.wf(),
                o0.gp_constraints_ok(cs),
                o0.gp_choice_ok(cs, rs),
                self.advanced_from(&o0, iidx),
                extends(out0, out@),
                self.fixed().loaded(self.gp(out@), iidx, cs, rs, k as int) == o0.fixed().loaded(
                    o0.gp(out0),
                    iidx,
                    cs,
                    rs,
                    0,
                ),
                forall|j: int|
                    0 <= j < k ==> {
                        let st = self.gp_reg_states@[rs[j].spec_code() as int];
                        &&& match (#[trigger] cs[j]).spec_op() {
                            Some(op) => st.holds(op),
                            None => true,
                        }
                        &&& cs[j].clobbers() ==> self.droppable(st, iidx)
                        &&& unshared(cs, rs, j) && !cs[j].clobbers() ==> st.ext().satisfies(
                            cs[j].spec_in_ext(),
                        )
                    },
            decreases n - k,
        {
            let cnstr = constraints[k];
            let reg = regs[k];
            let ghost c = reg.spec_code() as int;
            let ghost start = *self;
            let ghost start_out = out@;
            proof {
                assert(cs[k as int] is Ignore || !gp_reserved().contains(c));
            }
            let mut touched = false;
            match cnstr {
                GPConstraint::Input { op, in_ext, .. } | GPConstraint::InputOutput { op, in_ext, .. } => {
                    let in_place = self.is_input_in_gp_reg(&op, reg);
                    if !in_place && !self.gp_is_spare(reg, iidx) {
                        return Err(CompilationError::InternalError);
                    }
                    let put = self.put_input_in_gp_reg(out, &op, reg, in_ext);
                    proof {
                        if in_place {
                            if put is Ok {
                                Self::lemma_gp_set_keeps(&start, self, c, self.gp_reg_states@[c]);
                                Self::lemma_keeps_located_advances(&start, self, iidx);
                            }
                        } else {
                            Self::lemma_gp_set_keeps_live(
                                &start,
                                self,
                                c,
                                self.gp_reg_states@[c],
                                iidx,
                            );
                        }
                        Self::lemma_advanced_trans(&o0, &start, self, iidx);
                        assert(out@.subrange(0, out0.len() as int) =~= out0) by {
                            assert(start_out.subrange(0, out0.len() as int) == out0);
                        }
                    }
                    if let Err(e) = put {
                        return Err(e);
                    }
                    touched = true;
                },
                _ => {},
            }
            let clobbers = match cnstr {
                GPConstraint::Input { clobber_reg, .. } => clobber_reg,
                GPConstraint::Ignore => false,
                _ => true,
            };
            if clobbers {
                let ghost mid = *self;
                let ghost mid_out = out@;
                let spilled = self.spill_gp_if_not_already(out, iidx, reg);
                proof {
                    Self::lemma_keeps_located_advances(&mid, self, iidx);
                    Self::lemma_advanced_trans(&o0, &mid, self, iidx);
                    assert(out@.subrange(0, out0.len() as int) =~= out0) by {
                        assert(mid_out.subrange(0, out0.len() as int) == out0);
                    }
                }
                if let Err(e) = spilled {
                    return Err(e);
                }
            }
            proof {
                // Only the register of this constraint has changed, and spill
                // slots have only been added.
                assert forall|j: int| 0 <= j < k + 1 implies {
                    let st = self.gp_reg_states@[rs[j].spec_code() as int];
                    &&& match (#[trigger] cs[j]).spec_op() {
                        Some(op) => st.holds(op),
                        None => true,
                    }
                    &&& cs[j].clobbers() ==> self.droppable(st, iidx)
                    &&& unshared(cs, rs, j) && !cs[j].clobbers() ==> st.ext().satisfies(
                        cs[j].spec_in_ext(),
                    )
                } by {
                    let stj = self.gp_reg_states@[rs[j].spec_code() as int];
                    let before = start.gp_reg_states@[rs[j].spec_code() as int];
                    if j < k {
                        if rs[j] == rs[k as int] {
                            if !(cs[k as int] is Ignore) {
                                assert(cs[j].spec_op() is Some || cs[j] is Ignore);
                                if !(cs[j] is Ignore) {
                                    assert(cs[j].spec_op() == cs[k as int].spec_op());
                                    assert(!unshared(cs, rs, j)) by {
                                        assert(!(rs[k as int] != rs[j] || cs[k as int] is Ignore));
                                    }
                                }
                            }
                        } else {
                            Rq::lemma_code(rs[j], rs[k as int]);
                            assert(stj == before);
                        }
                    }
                }
            }
            k = k + 1;
        }
        Ok(())
    }

    /// Mark the chosen registers with what they hold once the instruction
    /// has run: the register of an output holds the instruction's value, and
    /// the clobbered registers are empty.
    pub fn finish_states(&mut self, iidx: InstIdx, constraints: &Vec<GPConstraint>, regs: &Vec<Rq>)
        requires
            old(self).wf(),
            iidx < old(self).m.insts@.len(),
            old(self).gp_choice_ok(constraints@, regs@),
            forall|k: int|
                0 <= k < constraints@.len() && (#[trigger] constraints@[k]).clobbers()
                    ==> old(self).gp_droppable(regs@[k].spec_code() as int, iidx),
        ensures
            final(self).wf(),
            final(self).gp_only(old(self)),
            forall|q: InstIdx|
                q != iidx && #[trigger] old(self).located(q) && old(self).rev_an.used_after(iidx, q)
                    ==> final(self).located(q),
            forall|k: int|
                0 <= k < constraints@.len() && unshared(constraints@, regs@, k)
                    ==> final(self).gp_reg_states@[regs@[k].spec_code() as int]
                    == (#[trigger] constraints@[k]).state_after(
                    iidx,
                    old(self).gp_reg_states@[regs@[k].spec_code() as int],
                ),
            final(self).gp_reg_states@ == finished(
                old(self).gp_reg_states@,
                iidx,
                constraints@,
                regs@,
                0,
            ),
    {
        let ghost o0 = *self;
        let ghost cs = constraints@;
        let ghost rs = regs@;
        let n = regs.len();
        let mut k: usize = 0;
        while k < n
            invariant
                k <= n,
                n == rs.len(),
                cs == constraints@,
                rs == regs@,
                iidx < o0.m.insts@.len(),
                o0 == *old(self),
                o0.wf(),
                o0.gp_choice_ok(cs, rs),
                forall|j: int|
                    0 <= j < cs.len() && (#[trigger] cs[j]).clobbers() ==> o0.gp_droppable(
                        rs[j].spec_code() as int,
                        iidx,
                    ),
                self.wf(),
                self.gp_only(&o0),
                finished(self.gp_reg_states@, iidx, cs, rs, k as int) == finished(
                    o0.gp_reg_states@,
                    iidx,
                    cs,
                    rs,
                    0,
                ),
                forall|c: int|
                    0 <= c < 16 ==> {
                        let st = #[trigger] self.gp_reg_states@[c];
                        st == o0.gp_reg_states@[c] || st is Empty || st.holds(Operand::Var(iidx))
                    },
                forall|q: InstIdx|
                    q != iidx && #[trigger] o0.located(q) && o0.rev_an.used_after(iidx, q)
                        ==> self.located(q),
                forall|j: int|
                    0 <= j < cs.len() && unshared(cs, rs, j) ==> self.gp_reg_states@[rs[j].spec_code() as int]
                        == if j < k {
                        (#[trigger] cs[j]).state_after(
                            iidx,
                            o0.gp_reg_states@[rs[j].spec_code() as int],
                        )
                    } else {
                        o0.gp_reg_states@[rs[j].spec_code() as int]
                    },
            decreases n - k,
        {
            let cnstr = constraints[k];
            let reg = regs[k];
            let ghost c = reg.spec_code() as int;
            let ghost pre = *self;
            proof {
                assert(cs[k as int] is Ignore || !gp_reserved().contains(c));
            }
            let next: Option<RegState> = match cnstr {
                GPConstraint::Input { clobber_reg, .. } => if clobber_reg {
                    Some(RegState::Empty)
                } else {
                    None
                },
                GPConstraint::InputOutput { out_ext, .. } => Some(RegState::FromInst(iidx, out_ext)),
                GPConstraint::Output { out_ext, .. } => Some(RegState::FromInst(iidx, out_ext)),
                GPConstraint::Clobber { .. } => Some(RegState::Empty),
                GPConstraint::Temporary => Some(RegState::Empty),
                GPConstraint::Ignore => None,
            };
            if let Some(st) = next {
                self.set_gp(reg, st);
                proof {
                    let was = pre.gp_reg_states@[c];
                    if was.holds(Operand::Var(iidx)) {
                        Self::lemma_gp_set_keeps_but(&pre, self, c, st, iidx);
                    } else {
                        assert(pre.gp_spare(c, iidx)) by {
                            assert(was == o0.gp_reg_states@[c] || was is Empty);
                            assert(o0.gp_droppable(c, iidx));
                        }
                        Self::lemma_gp_set_keeps_live(&pre, self, c, st, iidx);
                    }
                    assert forall|q: InstIdx|
                        q != iidx && #[trigger] o0.located(q) && o0.rev_an.used_after(
                            iidx,
                            q,
                        ) implies self.located(q) by {
                        assert(pre.located(q));
                    }
                }
            }
            proof {
                assert forall|j: int| 0 <= j < cs.len() && unshared(cs, rs, j) implies self.gp_reg_states@[rs[j].spec_code() as int]
                    == if j < k + 1 {
                    (#[trigger] cs[j]).state_after(iidx, o0.gp_reg_states@[rs[j].spec_code() as int])
                } else {
                    o0.gp_reg_states@[rs[j].spec_code() as int]
                } by {
                    if j != k as int {
                        Rq::lemma_code(rs[j], rs[k as int]);
                        assert(rs[k as int] != rs[j] || cs[k as int] is Ignore);
                    }
                }
            }
            k = k + 1;
        }
    }

    /// Assign general purpose registers for the instruction `iidx`: the
    /// answer names one register for each constraint, in order.
    ///
    /// The constraints must be well formed. On success the registers are as
    /// the constraints ask; where the allocator cannot comply it reports why
    /// and leaves itself in a state from which compilation of the trace can be
    /// abandoned. Either way spill slots that were handed out stay as they
    /// are, and the floating point registers are not touched.
    pub fn assign_gp_regs(&mut self, out: &mut Vec<AsmInst>, iidx: InstIdx, constraints: Vec<
        GPConstraint,
    >) -> (r: Result<Vec<Rq>, CompilationError>)
        requires
            old(self).wf(),
            iidx < old(self).m.insts@.len(),
            old(self).gp_constraints_ok(constraints@),
        ensures
            final(self).wf(),
            final(self).same_trace(old(self)),
            final(self).fp_reg_states == old(self).fp_reg_states,
            final(self).fp_regset == old(self).fp_regset,
            old(self).spills_stable(final(self)),
            extends(old(out)@, final(out)@),
            !holds_var(old(self).gp_reg_states@, iidx) ==> old(self).keeps_live(final(self), iidx),
            match r {
                Ok(regs) => {
                    &&& old(self).gp_choice_ok(constraints@, regs@)
                    &&& old(self).spec_choose_gp(iidx, constraints@) == Some(regs@)
                    &&& forall|k: int|
                        0 <= k < constraints@.len() && unshared(constraints@, regs@, k)
                            ==> gp_answer_ok(
                            #[trigger] constraints@[k],
                            final(self).gp_reg_states@[regs@[k].spec_code() as int],
                            iidx,
                        )
                },
                Err(_) => old(self).keeps_live(final(self), iidx),
            },
            // The answer, the state of the allocator and the instructions
            // emitted are those of the choice carried out; the error is the
            // one that choosing or carrying out ends with.
            match r {
                Ok(regs) => old(self).spec_assign_gp(old(out)@, iidx, constraints@) == Ok::<
                    (Seq<Rq>, Gp),
                    CompilationError,
                >((regs@, final(self).gp(final(out)@))),
                Err(e) => old(self).spec_assign_gp(old(out)@, iidx, constraints@) == Err::<
                    (Seq<Rq>, Gp),
                    CompilationError,
                >(e),
            },
            // Where no register can be had for a constraint nothing is
            // done.
            old(self).spec_choose_gp(iidx, constraints@) is None ==> {
                &&& r == Err::<Vec<Rq>, CompilationError>(CompilationError::InternalError)
                &&& *final(self) == *old(self)
                &&& final(out)@ == old(out)@
            },
    {
        let ghost o0 = *self;
        let ghost out0 = out@;
        proof {
            assert(out@.subrange(0, out@.len() as int) =~= out@);
            Self::lemma_keeps_located_advances(&o0, self, iidx);
        }
        // Stage 1: find a register for each constraint.
        let regs = match self.choose_gp_regs(iidx, &constraints) {
            Ok(regs) => regs,
            Err(e) => {
                return Err(e);
            },
        };
        // Stage 2: get from where we are to where we want to be.
        let evicted = self.evict_unwanted(out, iidx, &constraints, &regs);
        if let Err(e) = evicted {
            return Err(e);
        }
        let ghost s1 = *self;
        let ghost out1 = out@;
        let shuffled = self.shuffle_inputs(out, iidx, &constraints, &regs);
        proof {
            Self::lemma_advanced_trans(&o0, &s1, self, iidx);
            assert(out@.subrange(0, out0.len() as int) =~= out0) by {
                assert(out1.subrange(0, out0.len() as int) == out0);
            }
        }
        if let Err(e) = shuffled {
            return Err(e);
        }
        let ghost s2 = *self;
        let ghost out2 = out@;
        let loaded = self.load_inputs(out, iidx, &constraints, &regs);
        proof {
            Self::lemma_advanced_trans(&o0, &s2, self, iidx);
            assert(out@.subrange(0, out0.len() as int) =~= out0) by {
                assert(out2.subrange(0, out0.len() as int) == out0);
            }
        }
        if let Err(e) = loaded {
            return Err(e);
        }
        let ghost s3 = *self;
        self.finish_states(iidx, &constraints, &regs);
        proof {
            if !holds_var(o0.gp_reg_states@, iidx) {
                assert forall|q: InstIdx| #[trigger]
                    o0.located(q) && o0.rev_an.used_after(iidx, q) implies self.located(q) by {
                    assert(s3.located(q));
                }
            }
            assert forall|k: int|
                0 <= k < constraints@.len() && unshared(constraints@, regs@, k) implies gp_answer_ok(
                #[trigger] constraints@[k],
                self.gp_reg_states@[regs@[k].spec_code() as int],
                iidx,
            ) by {
                let before = s3.gp_reg_states@[regs@[k].spec_code() as int];
                assert(self.gp_reg_states@[regs@[k].spec_code() as int]
                    == constraints@[k].state_after(iidx, before));
            }
        }
        Ok(regs)
    }
}

} // verus!
