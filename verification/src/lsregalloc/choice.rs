//! The first stage of register assignment, as a function of the
//! allocator's state.
//!
//! The registers are picked in four passes over the constraints: the
//! registers that are insisted on; the register hinted at, for an output;
//! the registers that hold their operand already, for the inputs; and for
//! what is left the highest free register, or that of a victim. Each pass
//! is described here by what it does at one constraint, and by what it has
//! done once it has got to a given constraint.

use crate::jit_ir::InstIdx;
use crate::lsregalloc::fp::RegConstraint;
use crate::lsregalloc::{first_holder, GPConstraint, LSRegAlloc, RegState, SpillState};
use crate::regs::{fp_reg, gp_reg, gp_reserved, is_highest_free, AnyRegister, Register, Rq, Rx};
use vstd::prelude::*;

verus! {

/// How far the choice of registers has got.
pub struct Choice {
    /// The register picked for each constraint, if one has been picked.
    pub regs: Seq<Option<Rq>>,
    /// The registers that later picks must avoid.
    pub asgn: Set<int>,
    /// The registers picked because they hold an operand already.
    pub inputs: Set<int>,
}

/// How far the choice of floating point registers has got.
pub struct FpChoice {
    /// The register picked for each constraint, if one has been picked.
    pub regs: Seq<Option<Rx>>,
    /// The registers that later picks must avoid.
    pub avoid: Set<int>,
}

/// The candidates for the register to free, one of each class.
pub struct Victims {
    /// A register that holds a constant.
    pub konst: Option<Rq>,
    /// A register whose value is spilled already, with the value.
    pub spilled: Option<(Rq, InstIdx)>,
    /// A register whose value is not spilled, with the value.
    pub furthest: Option<(Rq, InstIdx)>,
}

/// The highest encoding, from `from` down, in neither `used` nor `avoid`.
pub open spec fn highest_free(used: Set<int>, avoid: Set<int>, from: int) -> Option<int>
    decreases from + 1,
{
    if from < 0 {
        None
    } else if !used.contains(from) && !avoid.contains(from) {
        Some(from)
    } else {
        highest_free(used, avoid, from - 1)
    }
}

/// Where every encoding above `c` is taken and `c` is not, `c` is the
/// highest that is free.
pub proof fn lemma_highest_from(used: Set<int>, avoid: Set<int>, from: int, c: int)
    requires
        0 <= c <= from < 16,
        !used.contains(c),
        !avoid.contains(c),
        forall|d: int| c < d < 16 ==> used.contains(d) || avoid.contains(d),
    ensures
        highest_free(used, avoid, from) == Some(c),
    decreases from - c,
{
    if from > c {
        lemma_highest_from(used, avoid, from - 1, c);
    }
}

/// Where every encoding is taken none is free.
pub proof fn lemma_none_free(used: Set<int>, avoid: Set<int>, from: int)
    requires
        -1 <= from < 16,
        forall|d: int| 0 <= d < 16 ==> used.contains(d) || avoid.contains(d),
    ensures
        highest_free(used, avoid, from) is None,
    decreases from + 1,
{
    if from >= 0 {
        lemma_none_free(used, avoid, from - 1);
    }
}

/// The register that is the highest free one has the highest free
/// encoding.
pub proof fn lemma_highest_free<R: Register>(used: Set<int>, avoid: Set<int>, r: Option<R>)
    requires
        is_highest_free(used, avoid, r),
    ensures
        highest_free(used, avoid, 15) == match r {
            Some(reg) => Some(reg.spec_code() as int),
            None => None::<int>,
        },
{
    match r {
        Some(reg) => {
            R::lemma_code(reg, reg);
            lemma_highest_from(used, avoid, 15, reg.spec_code() as int);
        },
        None => {
            lemma_none_free(used, avoid, 15);
        },
    }
}

impl<'a> LSRegAlloc<'a> {
    /// The candidates once the register with the encoding `c` has been
    /// looked at. A register that must be avoided, or holds nothing, is no
    /// candidate. The first register that holds a constant is the
    /// candidate of its class. In the other classes the first register is
    /// the candidate until a register comes whose value is used next after
    /// the instruction that made the candidate's value.
    pub open spec fn victim_step(&self, iidx: InstIdx, asgn: Set<int>, c: int, v: Victims) -> Victims {
        if asgn.contains(c) {
            v
        } else {
            match self.gp_reg_states@[c] {
                RegState::FromConst(_, _) => if v.konst is None {
                    Victims { konst: Some(gp_reg(c)), ..v }
                } else {
                    v
                },
                RegState::FromInst(q, _) => {
                    let later = |than: InstIdx|
                        self.rev_an.spec_next_use(iidx, q) matches Some(next) && next > than;
                    match self.spills@[q as int] {
                        SpillState::Empty => match v.furthest {
                            None => Victims { furthest: Some((gp_reg(c), q)), ..v },
                            Some((_, f)) => if later(f) {
                                Victims { furthest: Some((gp_reg(c), q)), ..v }
                            } else {
                                v
                            },
                        },
                        SpillState::ConstInt { .. } => if v.konst is None {
                            Victims { konst: Some(gp_reg(c)), ..v }
                        } else {
                            v
                        },
                        _ => match v.spilled {
                            None => Victims { spilled: Some((gp_reg(c), q)), ..v },
                            Some((_, s)) => if later(s) {
                                Victims { spilled: Some((gp_reg(c), q)), ..v }
                            } else {
                                v
                            },
                        },
                    }
                },
                _ => v,
            }
        }
    }

    /// The candidates once the registers with the encodings below `upto`
    /// have been looked at, in order.
    pub open spec fn victims(&self, iidx: InstIdx, asgn: Set<int>, upto: int) -> Victims
        decreases upto,
    {
        if upto <= 0 {
            Victims { konst: None, spilled: None, furthest: None }
        } else {
            self.victim_step(iidx, asgn, upto - 1, self.victims(iidx, asgn, upto - 1))
        }
    }

    /// The register to free when every register is taken: the candidate
    /// that holds a constant, if there is one; else the one whose value is
    /// spilled already; else the one whose value is not.
    pub open spec fn spec_victim(&self, iidx: InstIdx, asgn: Set<int>) -> Option<Rq> {
        let v = self.victims(iidx, asgn, 16);
        if v.konst is Some {
            v.konst
        } else if v.spilled is Some {
            Some(v.spilled.unwrap().0)
        } else if v.furthest is Some {
            Some(v.furthest.unwrap().0)
        } else {
            None
        }
    }

    /// The first pass at the constraint `j`: a register that is insisted
    /// on is picked, and must be avoided by everyone else.
    pub open spec fn force_step(cs: Seq<GPConstraint>, j: int, ch: Choice) -> Choice {
        match cs[j].spec_force_reg() {
            Some(reg) => Choice {
                regs: ch.regs.push(Some(reg)),
                asgn: ch.asgn.insert(reg.spec_code() as int),
                ..ch
            },
            None => Choice { regs: ch.regs.push(None), ..ch },
        }
    }

    /// The choice once the first pass has got to the constraint `upto`.
    /// The reserved registers are avoided from the start.
    pub open spec fn forced(cs: Seq<GPConstraint>, upto: int) -> Choice
        decreases upto,
    {
        if upto <= 0 {
            Choice { regs: Seq::empty(), asgn: gp_reserved(), inputs: Set::empty() }
        } else {
            Self::force_step(cs, upto - 1, Self::forced(cs, upto - 1))
        }
    }

    /// The second pass at the constraint `j`: an output for which no
    /// register has been picked gets the register hinted at for the
    /// instruction, unless that must be avoided.
    pub open spec fn hint_step(&self, iidx: InstIdx, cs: Seq<GPConstraint>, j: int, ch: Choice) -> Choice {
        if ch.regs[j] is None && cs[j].is_output() {
            match self.rev_an.reg_hints@[iidx as int] {
                Some(AnyRegister::GP(reg)) => if ch.asgn.contains(reg.spec_code() as int) {
                    ch
                } else {
                    Choice {
                        regs: ch.regs.update(j, Some(reg)),
                        asgn: ch.asgn.insert(reg.spec_code() as int),
                        ..ch
                    }
                },
                _ => ch,
            }
        } else {
            ch
        }
    }

    /// The choice once the second pass has got to the constraint `upto`.
    pub open spec fn hinted(&self, iidx: InstIdx, cs: Seq<GPConstraint>, upto: int) -> Choice
        decreases upto,
    {
        if upto <= 0 {
            Self::forced(cs, cs.len() as int)
        } else {
            self.hint_step(iidx, cs, upto - 1, self.hinted(iidx, cs, upto - 1))
        }
    }

    /// The third pass at the constraint `j`: an input for which no
    /// register has been picked stays in the first register that holds its
    /// operand, unless that must be avoided; a placeholder is given a
    /// register that means nothing.
    pub open spec fn input_step(&self, cs: Seq<GPConstraint>, j: int, ch: Choice) -> Choice {
        if ch.regs[j] is Some {
            ch
        } else if cs[j] is Ignore {
            Choice { regs: ch.regs.update(j, Some(Rq::RAX)), ..ch }
        } else {
            match cs[j].spec_op() {
                Some(op) => match first_holder(self.gp_reg_states@, op, Set::<int>::empty(), 0) {
                    Some(c) => if ch.asgn.contains(c) {
                        ch
                    } else {
                        Choice {
                            regs: ch.regs.update(j, Some(gp_reg(c))),
                            inputs: ch.inputs.insert(c),
                            ..ch
                        }
                    },
                    None => ch,
                },
                None => ch,
            }
        }
    }

    /// The choice once the third pass has got to the constraint `upto`.
    pub open spec fn inputs_kept(&self, iidx: InstIdx, cs: Seq<GPConstraint>, upto: int) -> Choice
        decreases upto,
    {
        if upto <= 0 {
            self.hinted(iidx, cs, cs.len() as int)
        } else {
            self.input_step(cs, upto - 1, self.inputs_kept(iidx, cs, upto - 1))
        }
    }

    /// The last pass at the constraint `j`: a constraint for which no
    /// register has been picked gets the highest free register that need
    /// not be avoided, or else the register of a victim. `None` if every
    /// register is spoken for.
    pub open spec fn rest_step(&self, iidx: InstIdx, j: int, ch: Choice) -> Option<Choice> {
        if ch.regs[j] is Some {
            Some(ch)
        } else {
            let reg = match highest_free(self.gp_regset@, ch.asgn, 15) {
                Some(c) => Some(gp_reg(c)),
                None => self.spec_victim(iidx, ch.asgn),
            };
            match reg {
                Some(r) => Some(
                    Choice {
                        regs: ch.regs.update(j, Some(r)),
                        asgn: ch.asgn.insert(r.spec_code() as int),
                        ..ch
                    },
                ),
                None => None,
            }
        }
    }

    /// The choice once the last pass has got to the constraint `upto`.
    /// From the start of the pass the registers that inputs stay in are
    /// avoided too.
    pub open spec fn rest(&self, iidx: InstIdx, cs: Seq<GPConstraint>, upto: int) -> Option<Choice>
        decreases upto,
    {
        if upto <= 0 {
            let kept = self.inputs_kept(iidx, cs, cs.len() as int);
            Some(Choice { asgn: kept.asgn.union(kept.inputs), ..kept })
        } else {
            match self.rest(iidx, cs, upto - 1) {
                Some(ch) => self.rest_step(iidx, upto - 1, ch),
                None => None,
            }
        }
    }

    /// The first pass over the constraints on floating point registers, at
    /// the constraint `j`: a register that is named is picked, and must be
    /// avoided by everyone else; a placeholder is given a register that
    /// means nothing.
    pub open spec fn fp_force_step(cs: Seq<RegConstraint<Rx>>, j: int, ch: FpChoice) -> FpChoice {
        if cs[j] is Ignore {
            FpChoice { regs: ch.regs.push(Some(Rx::XMM0)), ..ch }
        } else {
            match cs[j].spec_forced() {
                Some(reg) => FpChoice {
                    regs: ch.regs.push(Some(reg)),
                    avoid: ch.avoid.insert(reg.spec_code() as int),
                },
                None => FpChoice { regs: ch.regs.push(None), ..ch },
            }
        }
    }

    /// The choice once the first pass has got to the constraint `upto`. No
    /// floating point register is reserved.
    pub open spec fn fp_forced(cs: Seq<RegConstraint<Rx>>, upto: int) -> FpChoice
        decreases upto,
    {
        if upto <= 0 {
            FpChoice { regs: Seq::empty(), avoid: Set::empty() }
        } else {
            Self::fp_force_step(cs, upto - 1, Self::fp_forced(cs, upto - 1))
        }
    }

    /// The second pass at the constraint `j`: an output for which no
    /// register has been picked gets the register hinted at for the
    /// instruction, unless that must be avoided.
    pub open spec fn fp_hint_step(&self, iidx: InstIdx, cs: Seq<RegConstraint<Rx>>, j: int, ch: FpChoice) -> FpChoice {
        if ch.regs[j] is None && (cs[j] is Output || cs[j] is InputOutput) {
            match self.rev_an.reg_hints@[iidx as int] {
                Some(AnyRegister::FP(reg)) => if ch.avoid.contains(reg.spec_code() as int) {
                    ch
                } else {
                    FpChoice {
                        regs: ch.regs.update(j, Some(reg)),
                        avoid: ch.avoid.insert(reg.spec_code() as int),
                    }
                },
                _ => ch,
            }
        } else {
            ch
        }
    }

    /// The choice once the second pass has got to the constraint `upto`.
    pub open spec fn fp_hinted(&self, iidx: InstIdx, cs: Seq<RegConstraint<Rx>>, upto: int) -> FpChoice
        decreases upto,
    {
        if upto <= 0 {
            Self::fp_forced(cs, cs.len() as int)
        } else {
            self.fp_hint_step(iidx, cs, upto - 1, self.fp_hinted(iidx, cs, upto - 1))
        }
    }

    /// The third pass at the constraint `j`: an input for which no register
    /// has been picked, and whose operand is the value of an instruction,
    /// stays in the first register that holds it, unless that must be
    /// avoided.
    pub open spec fn fp_input_step(&self, cs: Seq<RegConstraint<Rx>>, j: int, ch: FpChoice) -> FpChoice {
        let op = match cs[j] {
            RegConstraint::Input(op) => Some(op),
            RegConstraint::InputOutput(op) => Some(op),
            _ => None,
        };
        if ch.regs[j] is None && op is Some && op.unwrap() is Var {
            match first_holder(self.fp_reg_states@, op.unwrap(), Set::<int>::empty(), 0) {
                Some(c) => if ch.avoid.contains(c) {
                    ch
                } else {
                    FpChoice { regs: ch.regs.update(j, Some(fp_reg(c))), avoid: ch.avoid.insert(c) }
                },
                None => ch,
            }
        } else {
            ch
        }
    }

    /// The choice once the third pass has got to the constraint `upto`.
    pub open spec fn fp_inputs_kept(&self, iidx: InstIdx, cs: Seq<RegConstraint<Rx>>, upto: int) -> FpChoice
        decreases upto,
    {
        if upto <= 0 {
            self.fp_hinted(iidx, cs, cs.len() as int)
        } else {
            self.fp_input_step(cs, upto - 1, self.fp_inputs_kept(iidx, cs, upto - 1))
        }
    }

    /// The choice once the last pass has got to the constraint `upto`: a
    /// constraint for which no register has been picked gets the highest
    /// free register that need not be avoided. `None` if there is none:
    /// floating point registers are not freed.
    pub open spec fn fp_rest(&self, iidx: InstIdx, cs: Seq<RegConstraint<Rx>>, upto: int) -> Option<
        FpChoice,
    >
        decreases upto,
    {
        if upto <= 0 {
            Some(self.fp_inputs_kept(iidx, cs, cs.len() as int))
        } else {
            match self.fp_rest(iidx, cs, upto - 1) {
                Some(ch) => if ch.regs[upto - 1] is Some {
                    Some(ch)
                } else {
                    match highest_free(self.fp_regset@, ch.avoid, 15) {
                        Some(c) => Some(
                            FpChoice {
                                regs: ch.regs.update(upto - 1, Some(fp_reg(c))),
                                avoid: ch.avoid.insert(c),
                            },
                        ),
                        None => None,
                    }
                },
                None => None,
            }
        }
    }

    /// The registers that the first stage picks for the constraints `cs`
    /// on floating point registers of the instruction `iidx`, one for
    /// each, and the registers to avoid from then on. `None` if a
    /// constraint is an output that may share its input's register, which
    /// is not supported, or if no register is free for a constraint.
    pub open spec fn spec_choose_fp(&self, iidx: InstIdx, cs: Seq<RegConstraint<Rx>>) -> Option<
        (Seq<Rx>, Set<int>),
    > {
        if exists|j: int| 0 <= j < cs.len() && #[trigger] cs[j] is OutputCanBeSameAsInput {
            None
        } else {
            match self.fp_rest(iidx, cs, cs.len() as int) {
                Some(ch) => Some(
                    (
                        Seq::new(
                            cs.len(),
                            |j: int|
                                match ch.regs[j] {
                                    Some(r) => r,
                                    None => Rx::XMM0,
                                },
                        ),
                        ch.avoid,
                    ),
                ),
                None => None,
            }
        }
    }

    /// Once a constraint has been left without a register, so are all
    /// that follow.
    pub proof fn lemma_fp_rest_fails(&self, iidx: InstIdx, cs: Seq<RegConstraint<Rx>>, at: int, upto: int)
        requires
            0 <= at <= upto,
            self.fp_rest(iidx, cs, at) is None,
        ensures
            self.fp_rest(iidx, cs, upto) is None,
        decreases upto - at,
    {
        if at < upto {
            self.lemma_fp_rest_fails(iidx, cs, at, upto - 1);
        }
    }

    /// The registers that the first stage picks for the constraints `cs`
    /// of the instruction `iidx`, one for each; `None` if every register is
    /// spoken for before each constraint has got one.
    pub open spec fn spec_choose_gp(&self, iidx: InstIdx, cs: Seq<GPConstraint>) -> Option<Seq<Rq>> {
        match self.rest(iidx, cs, cs.len() as int) {
            Some(ch) => Some(
                Seq::new(
                    cs.len(),
                    |j: int|
                        match ch.regs[j] {
                            Some(r) => r,
                            None => Rq::RAX,
                        },
                ),
            ),
            None => None,
        }
    }
}

} // verus!
