//! Register assignment for the general purpose registers.
//!
//! Assignment has two stages. The first picks a register for every
//! constraint and changes nothing. The second brings the allocator, and the
//! machine, from where they are to where the picks want them: values in the
//! way are spilled, operands are moved or loaded into place, and the registers
//! are marked with what they hold once the instruction has run.

use crate::jit_ir::{AsmInst, CompilationError, InstIdx, Operand};
use crate::lsregalloc::{
    extends, holds_var, lemma_first_holder, lemma_update_keeps, GPConstraint, LSRegAlloc,
    RegExtension, RegState, SpillState,
};
use crate::lsregalloc::choice::{lemma_highest_free, Choice, Victims};
use crate::regs::{gp_reg, gp_reserved, AnyRegister, RegSet, Register, Rq};
use vstd::prelude::*;

verus! {

/// How willingly a register holding `st` is given up when a register must be
/// freed: one that holds a constant goes first, then one whose value is
/// spilled already, then one whose value is not; a register that holds
/// nothing is no candidate.
pub open spec fn victim_class(spills: Seq<SpillState>, st: RegState) -> int {
    match st {
        RegState::FromConst(_, _) => 0,
        RegState::FromInst(q, _) => match spills[q as int] {
            SpillState::ConstInt { .. } => 0,
            SpillState::Stack(_) => 1,
            SpillState::Direct(_) => 1,
            SpillState::Empty => 2,
        },
        _ => 3,
    }
}

/// The answer to constraint `c` is left alone by the answers to all others:
/// no other constraint, placeholders aside, was given the same register.
pub open spec fn unshared(cs: Seq<GPConstraint>, regs: Seq<Rq>, k: int) -> bool {
    forall|j: int| 0 <= j < cs.len() && j != k ==> regs[j] != regs[k] || #[trigger] cs[j] is Ignore
}

impl<'a> LSRegAlloc<'a> {
    /// The constraints name operands of the trace that are no floats, at most
    /// one of them has an output, and no register is insisted on twice or is
    /// reserved.
    pub open spec fn gp_constraints_ok(&self, cs: Seq<GPConstraint>) -> bool {
        &&& forall|i: int|
            0 <= i < cs.len() ==> match (#[trigger] cs[i]).spec_op() {
                Some(op) => self.m.valid_op(op) && !self.m.spec_op_ty(op).spec_is_float(),
                None => true,
            }
        &&& forall|i: int, j: int|
            0 <= i < j < cs.len() ==> !((#[trigger] cs[i]).is_output() && (#[trigger] cs[j]).is_output())
        &&& forall|i: int|
            0 <= i < cs.len() ==> match (#[trigger] cs[i]).spec_force_reg() {
                Some(r) => !gp_reserved().contains(r.spec_code() as int),
                None => true,
            }
        &&& forall|i: int, j: int|
            0 <= i < j < cs.len() && (#[trigger] cs[i]).spec_force_reg() is Some && (#[trigger] cs[j]).spec_force_reg()
                is Some ==> cs[i].spec_force_reg() != cs[j].spec_force_reg()
    }

    /// `regs` answers the constraints `cs`: a register that is insisted on is
    /// given; a placeholder gets the first register; no other constraint gets
    /// a reserved register; and two constraints get the same register only if
    /// both want the same operand in it.
    pub open spec fn gp_choice_ok(&self, cs: Seq<GPConstraint>, regs: Seq<Rq>) -> bool {
        &&& regs.len() == cs.len()
        &&& forall|i: int|
            0 <= i < cs.len() ==> match (#[trigger] cs[i]).spec_force_reg() {
                Some(r) => regs[i] == r,
                None => true,
            }
        &&& forall|i: int| 0 <= i < cs.len() && #[trigger] cs[i] is Ignore ==> regs[i] == Rq::RAX
        &&& forall|i: int|
            0 <= i < cs.len() && !(#[trigger] cs[i] is Ignore) ==> !gp_reserved().contains(
                regs[i].spec_code() as int,
            )
        &&& forall|i: int, j: int|
            0 <= i < j < cs.len() && !(#[trigger] cs[i] is Ignore) && !(#[trigger] cs[j] is Ignore)
                && regs[i] == regs[j] ==> cs[i].spec_op() is Some && cs[i].spec_op()
                == cs[j].spec_op()
    }

    /// The same while the choice is being made: `cr` holds the registers
    /// picked so far, `asgn` the registers that later picks must avoid, and
    /// `inputs` the registers picked because they hold the operand already.
    pub open spec fn gp_partial_ok(
        &self,
        cs: Seq<GPConstraint>,
        cr: Seq<Option<Rq>>,
        asgn: Set<int>,
        inputs: Set<int>,
    ) -> bool {
        &&& cr.len() == cs.len()
        &&& forall|c: int| gp_reserved().contains(c) ==> asgn.contains(c)
        &&& forall|i: int|
            0 <= i < cs.len() ==> match (#[trigger] cs[i]).spec_force_reg() {
                Some(r) => cr[i] == Some(r),
                None => true,
            }
        &&& forall|i: int|
            0 <= i < cs.len() ==> match #[trigger] cr[i] {
                Some(r) => if cs[i] is Ignore {
                    r == Rq::RAX
                } else {
                    &&& !gp_reserved().contains(r.spec_code() as int)
                    &&& (asgn.contains(r.spec_code() as int) || (inputs.contains(
                        r.spec_code() as int,
                    ) && match cs[i].spec_op() {
                        Some(op) => self.gp_reg_states@[r.spec_code() as int].holds(op),
                        None => false,
                    }))
                },
                None => true,
            }
        &&& forall|i: int, j: int|
            0 <= i < j < cs.len() && !(#[trigger] cs[i] is Ignore) && !(#[trigger] cs[j] is Ignore)
                && cr[i] is Some && cr[i] == cr[j] ==> cs[i].spec_op() is Some && cs[i].spec_op()
                == cs[j].spec_op()
    }

    /// Is there a constraint in `constraints` that wants `query_op` in its
    /// register?
    pub fn find_op_in_constraints(&self, constraints: &Vec<GPConstraint>, query_op: Operand) -> (r:
        bool)
        ensures
            r == exists|i: int|
                0 <= i < constraints@.len() && (#[trigger] constraints@[i]).spec_op() == Some(
                    query_op,
                ),
    {
        let mut i: usize = 0;
        while i < constraints.len()
            invariant
                i <= constraints@.len(),
                forall|j: int| 0 <= j < i ==> (#[trigger] constraints@[j]).spec_op() != Some(query_op),
            decreases constraints@.len() - i,
        {
            match constraints[i].op() {
                Some(op) => {
                    if op == query_op {
                        return true;
                    }
                },
                None => {},
            }
            i = i + 1;
        }
        false
    }

    /// Pick the register to free when every register is taken: among the
    /// registers outside `asgn` that hold a value, one holding a constant if
    /// there is one, else one whose value is spilled already, else one whose
    /// value is not. Within a class, a register whose value is next used
    /// later than the pick so far was made replaces it.
    pub fn gp_spill_victim(&self, iidx: InstIdx, asgn: &RegSet<Rq>) -> (r: Option<Rq>)
        requires
            self.wf(),
        ensures
            match r {
                Some(reg) => {
                    &&& !asgn.has(reg)
                    &&& self.gp_reg_states@[reg.spec_code() as int].occupied()
                    &&& forall|d: int|
                        0 <= d < 16 && !asgn@.contains(d) ==> victim_class(
                            self.spills@,
                            self.gp_reg_states@[reg.spec_code() as int],
                        ) <= victim_class(self.spills@, #[trigger] self.gp_reg_states@[d])
                },
                None => forall|d: int|
                    0 <= d < 16 ==> asgn@.contains(d) || !(#[trigger] self.gp_reg_states@[d]).occupied(),
            },
            r == self.spec_victim(iidx, asgn@),
    {
        let mut cnd_const: Option<Rq> = None;
        let mut cnd_spill: Option<(Rq, InstIdx)> = None;
        let mut cnd_furthest: Option<(Rq, InstIdx)> = None;
        let mut c: u8 = 0;
        while c < 16
            invariant
                c <= 16,
                self.wf(),
                self.victims(iidx, asgn@, c as int) == (Victims {
                    konst: cnd_const,
                    spilled: cnd_spill,
                    furthest: cnd_furthest,
                }),
                match cnd_const {
                    Some(reg) => !asgn.has(reg) && victim_class(
                        self.spills@,
                        self.gp_reg_states@[reg.spec_code() as int],
                    ) == 0,
                    None => forall|d: int|
                        0 <= d < c && !asgn@.contains(d) ==> victim_class(
                            self.spills@,
                            #[trigger] self.gp_reg_states@[d],
                        ) != 0,
                },
                match cnd_spill {
                    Some((reg, _)) => !asgn.has(reg) && victim_class(
                        self.spills@,
                        self.gp_reg_states@[reg.spec_code() as int],
                    ) == 1,
                    None => forall|d: int|
                        0 <= d < c && !asgn@.contains(d) ==> victim_class(
                            self.spills@,
                            #[trigger] self.gp_reg_states@[d],
                        ) != 1,
                },
                match cnd_furthest {
                    Some((reg, _)) => !asgn.has(reg) && victim_class(
                        self.spills@,
                        self.gp_reg_states@[reg.spec_code() as int],
                    ) == 2,
                    None => forall|d: int|
                        0 <= d < c && !asgn@.contains(d) ==> victim_class(
                            self.spills@,
                            #[trigger] self.gp_reg_states@[d],
                        ) != 2,
                },
            decreases 16 - c,
        {
            let reg = Rq::from_code(c);
            proof {
                Rq::lemma_code(reg, gp_reg(c as int));
            }
            if !asgn.is_set(reg) {
                match self.gp_reg_states[c as usize] {
                    RegState::Reserved => {},
                    RegState::Empty => {},
                    RegState::FromConst(_, _) => {
                        if cnd_const.is_none() {
                            cnd_const = Some(reg);
                        }
                    },
                    RegState::FromInst(from_iidx, _) => {
                        match self.spills[from_iidx] {
                            SpillState::Empty => match cnd_furthest {
                                None => {
                                    cnd_furthest = Some((reg, from_iidx));
                                },
                                Some((_, furthest_iidx)) => {
                                    if let Some(next_iidx) = self.rev_an.next_use(iidx, from_iidx) {
                                        if next_iidx > furthest_iidx {
                                            cnd_furthest = Some((reg, from_iidx));
                                        }
                                    }
                                },
                            },
                            SpillState::Stack(_) | SpillState::Direct(_) => match cnd_spill {
                                None => {
                                    cnd_spill = Some((reg, from_iidx));
                                },
                                Some((_, spill_iidx)) => {
                                    if let Some(next_iidx) = self.rev_an.next_use(iidx, from_iidx) {
                                        if next_iidx > spill_iidx {
                                            cnd_spill = Some((reg, from_iidx));
                                        }
                                    }
                                },
                            },
                            SpillState::ConstInt { .. } => {
                                if cnd_const.is_none() {
                                    cnd_const = Some(reg);
                                }
                            },
                        }
                    },
                }
            }
            c = c + 1;
        }
        if let Some(reg) = cnd_const {
            Some(reg)
        } else if let Some((reg, _)) = cnd_spill {
            Some(reg)
        } else if let Some((reg, _)) = cnd_furthest {
            Some(reg)
        } else {
            None
        }
    }

    /// The first stage: pick a register for each constraint, changing
    /// nothing. In order: registers that are insisted on; for an output, the
    /// register hinted at for this instruction; for an input, a register that
    /// holds the operand already; for the rest, the highest free register, or
    /// else the register of a victim to spill. It is an internal error if
    /// every register is spoken for.
    pub fn choose_gp_regs(&self, iidx: InstIdx, constraints: &Vec<GPConstraint>) -> (r: Result<
        Vec<Rq>,
        CompilationError,
    >)
        requires
            self.wf(),
            iidx < self.m.insts@.len(),
            self.gp_constraints_ok(constraints@),
        ensures
            match r {
                Ok(regs) => self.gp_choice_ok(constraints@, regs@) && self.spec_choose_gp(
                    iidx,
                    constraints@,
                ) == Some(regs@),
                Err(e) => e == CompilationError::InternalError && self.spec_choose_gp(
                    iidx,
                    constraints@,
                ) is None,
            },
    {
        let n = constraints.len();
        let ghost cs = constraints@;
        let mut cnstr_regs: Vec<Option<Rq>> = Vec::new();
        let mut asgn_regs: RegSet<Rq> = RegSet::with_gp_reserved();
        let mut i: usize = 0;
        // Registers that are insisted on must be avoided by everyone else.
        while i < n
            invariant
                i <= n,
                n == cs.len(),
                cs == constraints@,
                self.gp_constraints_ok(cs),
                cnstr_regs@.len() == i,
                Self::forced(cs, i as int) == (Choice {
                    regs: cnstr_regs@,
                    asgn: asgn_regs@,
                    inputs: Set::<int>::empty(),
                }),
                forall|c: int| gp_reserved().contains(c) ==> asgn_regs@.contains(c),
                forall|j: int| 0 <= j < i ==> #[trigger] cnstr_regs@[j] == cs[j].spec_force_reg(),
                forall|j: int|
                    0 <= j < i ==> match #[trigger] cnstr_regs@[j] {
                        Some(r) => asgn_regs@.contains(r.spec_code() as int),
                        None => true,
                    },
            decreases n - i,
        {
            let f = constraints[i].force_reg();
            if let Some(reg) = f {
                asgn_regs.set(reg);
            }
            cnstr_regs.push(f);
            i = i + 1;
        }
        proof {
            assert forall|a: int, b: int|
                0 <= a < b < cs.len() && !(#[trigger] cs[a] is Ignore) && !(#[trigger] cs[b] is Ignore)
                    && cnstr_regs@[a] is Some && cnstr_regs@[a] == cnstr_regs@[b] implies cs[a].spec_op()
                is Some && cs[a].spec_op() == cs[b].spec_op() by {
                assert(cnstr_regs@[a] == cs[a].spec_force_reg());
                assert(cnstr_regs@[b] == cs[b].spec_force_reg());
            }
            assert forall|j: int| 0 <= j < cs.len() implies match (#[trigger] cs[j]).spec_force_reg() {
                Some(r) => cnstr_regs@[j] == Some(r),
                None => true,
            } by {
                assert(cnstr_regs@[j] == cs[j].spec_force_reg());
            }
            assert(self.gp_partial_ok(cs, cnstr_regs@, asgn_regs@, Set::<int>::empty()));
        }
        // An output goes where the reverse analysis would like it, if that is free.
        let hint = self.rev_an.reg_hint(iidx);
        i = 0;
        while i < n
            invariant
                i <= n,
                n == cs.len(),
                cs == constraints@,
                self.wf(),
                iidx < self.m.insts@.len(),
                hint == self.rev_an.reg_hints@[iidx as int],
                cnstr_regs@.len() == n,
                self.gp_partial_ok(cs, cnstr_regs@, asgn_regs@, Set::<int>::empty()),
                self.hinted(iidx, cs, i as int) == (Choice {
                    regs: cnstr_regs@,
                    asgn: asgn_regs@,
                    inputs: Set::<int>::empty(),
                }),
            decreases n - i,
        {
            if cnstr_regs[i].is_none() {
                match constraints[i] {
                    GPConstraint::Output { .. } | GPConstraint::InputOutput { .. } => {
                        if let Some(AnyRegister::GP(reg)) = hint {
                            if !asgn_regs.is_set(reg) {
                                let ghost prev = cnstr_regs@;
                                cnstr_regs.set(i, Some(reg));
                                asgn_regs.set(reg);
                                proof {
                                    assert forall|a: int, b: int|
                                        0 <= a < b < cs.len() && !(#[trigger] cs[a] is Ignore) && !(
                                        #[trigger] cs[b] is Ignore) && cnstr_regs@[a] is Some
                                            && cnstr_regs@[a] == cnstr_regs@[b] implies cs[a].spec_op()
                                        is Some && cs[a].spec_op() == cs[b].spec_op() by {
                                        if a == i as int {
                                            assert(prev[b] is Some);
                                        } else if b == i as int {
                                            assert(prev[a] is Some);
                                        }
                                    }
                                }
                            }
                        }
                    },
                    _ => {},
                }
            }
            i = i + 1;
        }
        // An input that is in a register already stays there. Several inputs
        // may want the same operand, so these registers join the ones to
        // avoid only once all inputs have been looked at.
        let mut input_regs: RegSet<Rq> = RegSet::blank();
        i = 0;
        while i < n
            invariant
                i <= n,
                n == cs.len(),
                cs == constraints@,
                self.wf(),
                self.gp_partial_ok(cs, cnstr_regs@, asgn_regs@, input_regs@),
                forall|c: int| input_regs@.contains(c) ==> !asgn_regs@.contains(c),
                forall|j: int| 0 <= j < i && #[trigger] cs[j] is Ignore ==> cnstr_regs@[j] is Some,
                cnstr_regs@.len() == n,
                self.inputs_kept(iidx, cs, i as int) == (Choice {
                    regs: cnstr_regs@,
                    asgn: asgn_regs@,
                    inputs: input_regs@,
                }),
            decreases n - i,
        {
            if cnstr_regs[i].is_none() {
                match constraints[i] {
                    GPConstraint::Input { op, .. } | GPConstraint::InputOutput { op, .. } => {
                        proof {
                            lemma_first_holder(self.gp_reg_states@, op, Set::<int>::empty(), 0);
                        }
                        if let Some(reg) = self.find_op_in_gp_reg(&op) {
                            proof {
                                Rq::lemma_code(reg, gp_reg(reg.spec_code() as int));
                            }
                            if !asgn_regs.is_set(reg) {
                                let ghost prev = cnstr_regs@;
                                input_regs.set(reg);
                                cnstr_regs.set(i, Some(reg));
                                proof {
                                    assert forall|a: int, b: int|
                                        0 <= a < b < cs.len() && !(#[trigger] cs[a] is Ignore) && !(
                                        #[trigger] cs[b] is Ignore) && cnstr_regs@[a] is Some
                                            && cnstr_regs@[a] == cnstr_regs@[b] implies cs[a].spec_op()
                                        is Some && cs[a].spec_op() == cs[b].spec_op() by {
                                        if a == i as int {
                                            assert(prev[b] == Some(reg));
                                        } else if b == i as int {
                                            assert(prev[a] == Some(reg));
                                        }
                                    }
                                }
                            }
                        }
                    },
                    GPConstraint::Ignore => {
                        // It does not matter which register a placeholder is given.
                        cnstr_regs.set(i, Some(Rq::RAX));
                    },
                    _ => {},
                }
            }
            i = i + 1;
        }
        asgn_regs.union(input_regs);
        proof {
            assert(self.gp_partial_ok(cs, cnstr_regs@, asgn_regs@, Set::<int>::empty()));
        }
        // Everything else gets a free register, or a victim's.
        i = 0;
        while i < n
            invariant
                i <= n,
                n == cs.len(),
                cs == constraints@,
                self.wf(),
                self.gp_partial_ok(cs, cnstr_regs@, asgn_regs@, Set::<int>::empty()),
                forall|j: int| 0 <= j < n && #[trigger] cs[j] is Ignore ==> cnstr_regs@[j] is Some,
                forall|j: int| 0 <= j < i ==> #[trigger] cnstr_regs@[j] is Some,
                cnstr_regs@.len() == n,
                self.rest(iidx, cs, i as int) matches Some(ch) && ch.regs == cnstr_regs@ && ch.asgn
                    == asgn_regs@,
            decreases n - i,
        {
            if cnstr_regs[i].is_none() {
                let free = self.gp_regset.find_empty_avoiding(asgn_regs);
                proof {
                    lemma_highest_free(self.gp_regset@, asgn_regs@, free);
                    if let Some(reg) = free {
                        Rq::lemma_code(reg, gp_reg(reg.spec_code() as int));
                    }
                }
                let reg = match free {
                    Some(reg) => reg,
                    None => match self.gp_spill_victim(iidx, &asgn_regs) {
                        Some(reg) => reg,
                        None => {
                            proof {
                                assert(self.rest(iidx, cs, i + 1) is None);
                                self.lemma_rest_fails(iidx, cs, i + 1, n as int);
                            }
                            return Err(CompilationError::InternalError);
                        },
                    },
                };
                let ghost prev = cnstr_regs@;
                cnstr_regs.set(i, Some(reg));
                asgn_regs.set(reg);
                proof {
                    assert forall|a: int, b: int|
                        0 <= a < b < cs.len() && !(#[trigger] cs[a] is Ignore) && !(#[trigger] cs[b]
                            is Ignore) && cnstr_regs@[a] is Some && cnstr_regs@[a]
                            == cnstr_regs@[b] implies cs[a].spec_op() is Some && cs[a].spec_op()
                        == cs[b].spec_op() by {
                        if a == i as int {
                            assert(prev[b] == Some(reg));
                        } else if b == i as int {
                            assert(prev[a] == Some(reg));
                        }
                    }
                }
            }
            i = i + 1;
        }
        let ghost picked = cnstr_regs@;
        let mut regs: Vec<Rq> = Vec::new();
        i = 0;
        while i < n
            invariant
                i <= n,
                n == cnstr_regs@.len(),
                regs@.len() == i,
                picked == cnstr_regs@,
                forall|j: int| 0 <= j < n ==> #[trigger] cnstr_regs@[j] is Some,
                forall|j: int| 0 <= j < i ==> cnstr_regs@[j] == Some(#[trigger] regs@[j]),
            decreases n - i,
        {
            match cnstr_regs[i] {
                Some(reg) => regs.push(reg),
                None => {
                    proof {
                        assert(cnstr_regs@[i as int] is Some);
                    }
                    regs.push(Rq::RAX);
                },
            }
            i = i + 1;
        }
        proof {
            assert forall|j: int| 0 <= j < cs.len() implies match (#[trigger] cs[j]).spec_force_reg() {
                Some(r) => regs@[j] == r,
                None => true,
            } by {
                assert(cnstr_regs@[j] == Some(regs@[j]));
            }
            assert forall|j: int| 0 <= j < cs.len() && #[trigger] cs[j] is Ignore implies regs@[j]
                == Rq::RAX by {
                assert(cnstr_regs@[j] == Some(regs@[j]));
            }
            assert forall|j: int|
                0 <= j < cs.len() && !(#[trigger] cs[j] is Ignore) implies !gp_reserved().contains(
                regs@[j].spec_code() as int,
            ) by {
                assert(cnstr_regs@[j] == Some(regs@[j]));
            }
            assert forall|a: int, b: int|
                0 <= a < b < cs.len() && !(#[trigger] cs[a] is Ignore) && !(#[trigger] cs[b] is Ignore)
                    && regs@[a] == regs@[b] implies cs[a].spec_op() is Some && cs[a].spec_op()
                == cs[b].spec_op() by {
                assert(cnstr_regs@[a] == Some(regs@[a]));
                assert(cnstr_regs@[b] == Some(regs@[b]));
            }
            assert(self.spec_choose_gp(iidx, cs).unwrap() =~= regs@) by {
                assert forall|j: int| 0 <= j < cs.len() implies picked[j] == Some(regs@[j]) by {}
            }
        }
        Ok(regs)
    }

    /// Once a constraint has been left without a register, so are all
    /// that follow.
    pub proof fn lemma_rest_fails(&self, iidx: InstIdx, cs: Seq<GPConstraint>, at: int, upto: int)
        requires
            0 <= at <= upto,
            self.rest(iidx, cs, at) is None,
        ensures
            self.rest(iidx, cs, upto) is None,
        decreases upto - at,
    {
        if at < upto {
            self.lemma_rest_fails(iidx, cs, at, upto - 1);
        }
    }
}

} // verus!
