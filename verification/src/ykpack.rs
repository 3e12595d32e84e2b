//! The intermediate language in which the compiler hands the program's
//! control flow graphs to the tracer, in static single assignment form.

use vstd::prelude::*;

verus! {

pub type CrateHash = u64;

pub type DefIndex = u32;

pub type BasicBlockIndex = u32;

pub type LocalIndex = u32;

/// The compiler's identifier of a definition.
#[derive(Debug, Clone, Copy, PartialEq, Eq, Structural)]
pub struct DefId {
    pub crate_hash: CrateHash,
    pub def_idx: DefIndex,
}

impl DefId {
    pub fn new(crate_hash: CrateHash, def_idx: DefIndex) -> (d: Self)
        ensures
            d == (DefId { crate_hash, def_idx }),
    {
        DefId { crate_hash, def_idx }
    }
}

/// The control flow graph of a function.
#[derive(Debug, Clone, PartialEq, Eq)]
pub struct Mir {
    pub def_id: DefId,
    pub item_path_str: String,
    pub blocks: Vec<BasicBlock>,
}

impl Mir {
    pub fn new(def_id: DefId, item_path_str: String, blocks: Vec<BasicBlock>) -> (m: Self)
        ensures
            m.def_id == def_id,
            m.item_path_str == item_path_str,
            m.blocks == blocks,
    {
        Mir { def_id, item_path_str, blocks }
    }
}

/// A basic block: statements, and a terminator that says where control goes
/// next.
#[derive(Debug, Clone, PartialEq, Eq)]
pub struct BasicBlock {
    pub stmts: Vec<Statement>,
    pub term: Terminator,
}

impl BasicBlock {
    pub fn new(stmts: Vec<Statement>, term: Terminator) -> (b: Self)
        ensures
            b.stmts == stmts,
            b.term == term,
    {
        BasicBlock { stmts, term }
    }
}

/// A place to read a value from or to write one to.
#[derive(Debug, Clone, Copy, PartialEq, Eq, Structural)]
pub enum Place {
    Local(LocalIndex),
    Unimplemented,
}

impl Place {
    /// The local variables that the place names: one, or none.
    pub open spec fn locals(self) -> Seq<LocalIndex> {
        match self {
            Place::Local(l) => seq![l],
            Place::Unimplemented => Seq::empty(),
        }
    }

    /// The place with its local variables replaced by `vals`, in order.
    pub open spec fn with_locals(self, vals: Seq<LocalIndex>) -> Place {
        match self {
            Place::Local(_) => Place::Local(vals[0]),
            Place::Unimplemented => self,
        }
    }

    /// The local variables that reading the place uses, to be renamed
    /// through the references.
    pub fn uses_vars_mut(&mut self) -> (r: Vec<&mut LocalIndex>)
        ensures
            now(r@) == old(self).locals(),
            *final(self) == old(self).with_locals(Seq::new(r@.len(), |i: int| *final(r@[i]))),
    {
        match self {
            Place::Local(l) => {
                let mut v: Vec<&mut LocalIndex> = Vec::new();
                v.push(l);
                proof {
                    assert(now(v@) =~= seq![*v@[0]]);
                    assert(Seq::new(v@.len(), |i: int| *final(v@[i]))[0] == *final(v@[0]));
                }
                v
            },
            Place::Unimplemented => {
                let v: Vec<&mut LocalIndex> = Vec::new();
                proof {
                    assert(now(v@) =~= Seq::<LocalIndex>::empty());
                }
                v
            },
        }
    }

    /// The local variables that writing the place defines, to be renamed
    /// through the references.
    pub fn defs_vars_mut(&mut self) -> (r: Vec<&mut LocalIndex>)
        ensures
            now(r@) == old(self).locals(),
            *final(self) == old(self).with_locals(Seq::new(r@.len(), |i: int| *final(r@[i]))),
    {
        self.uses_vars_mut()
    }
}

/// The variables that the references `refs` point to now.
pub open spec fn now(refs: Seq<&mut LocalIndex>) -> Seq<LocalIndex> {
    Seq::new(refs.len(), |i: int| *refs[i])
}

/// The local variables that the places `ps` name, in order.
pub open spec fn places_locals(ps: Seq<Place>) -> Seq<LocalIndex>
    decreases ps.len(),
{
    if ps.len() == 0 {
        Seq::empty()
    } else {
        ps[0].locals() + places_locals(ps.subrange(1, ps.len() as int))
    }
}

/// The places `ps` with their local variables replaced by `vals`, in order.
pub open spec fn places_with_locals(ps: Seq<Place>, vals: Seq<LocalIndex>) -> Seq<Place>
    decreases ps.len(),
{
    if ps.len() == 0 {
        Seq::empty()
    } else {
        let n = ps[0].locals().len() as int;
        seq![ps[0].with_locals(vals.subrange(0, n))] + places_with_locals(
            ps.subrange(1, ps.len() as int),
            vals.subrange(n, vals.len() as int),
        )
    }
}

/// The local variables that the places of `ps` name, as references through
/// which they can be renamed.
pub fn places_vars_mut(ps: &mut [Place]) -> (r: Vec<&mut LocalIndex>)
    ensures
        now(r@) == places_locals(old(ps)@),
        final(ps)@ == places_with_locals(old(ps)@, Seq::new(r@.len(), |i: int| *final(r@[i]))),
    decreases old(ps)@.len(),
{
    if ps.len() == 0 {
        let v: Vec<&mut LocalIndex> = Vec::new();
        proof {
            assert(now(v@) =~= Seq::<LocalIndex>::empty());
            assert(ps@ =~= Seq::<Place>::empty());
        }
        v
    } else {
        let ghost all = ps@;
        let (head, tail) = ps.split_at_mut(1);
        let ghost head0 = head@;
        let ghost tail0 = tail@;
        let mut v = head[0].uses_vars_mut();
        let ghost first = v@;
        let mut rest = places_vars_mut(tail);
        let ghost others = rest@;
        v.append(&mut rest);
        proof {
            assert(tail0 =~= all.subrange(1, all.len() as int));
            assert(v@ =~= first + others);
            assert(now(v@) =~= now(first) + now(others));
            let n = all[0].locals().len() as int;
            assert(first.len() == n) by {
                assert(now(first).len() == first.len());
            }
            assert(Seq::new(v@.len(), |i: int| *final(v@[i])).subrange(0, n) =~= Seq::new(first.len(), |i: int| *final(first[i])));
            assert(Seq::new(v@.len(), |i: int| *final(v@[i])).subrange(n, v@.len() as int) =~= Seq::new(others.len(), |i: int| *final(others[i])));
        }
        v
    }
}

/// A value that is computed.
#[derive(Debug, Clone, PartialEq, Eq)]
pub enum Rvalue {
    Place(Place),
    /// The value of the place that belongs to the edge over which control
    /// has come.
    Phi(Vec<Place>),
    Unimplemented,
}

impl Rvalue {
    /// The local variables that computing the value uses.
    pub open spec fn uses(self) -> Seq<LocalIndex> {
        match self {
            Rvalue::Place(p) => p.locals(),
            Rvalue::Phi(ps) => places_locals(ps@),
            Rvalue::Unimplemented => Seq::empty(),
        }
    }

    /// Is `n` the value `self` with the local variables that it uses
    /// replaced by `vals`, in order?
    pub open spec fn renamed_to(self, n: Rvalue, vals: Seq<LocalIndex>) -> bool {
        match self {
            Rvalue::Place(p) => n == Rvalue::Place(p.with_locals(vals)),
            Rvalue::Phi(ps) => {
                &&& n matches Rvalue::Phi(ps2)
                &&& ps2@ == places_with_locals(ps@, vals)
            },
            Rvalue::Unimplemented => n == Rvalue::Unimplemented,
        }
    }

    /// The local variables that computing the value uses, to be renamed
    /// through the references.
    pub fn uses_vars_mut(&mut self) -> (r: Vec<&mut LocalIndex>)
        ensures
            now(r@) == old(self).uses(),
            old(self).renamed_to(*final(self), Seq::new(r@.len(), |i: int| *final(r@[i]))),
    {
        match self {
            Rvalue::Place(p) => p.uses_vars_mut(),
            Rvalue::Phi(ps) => places_vars_mut(ps.as_mut_slice()),
            Rvalue::Unimplemented => {
                let v: Vec<&mut LocalIndex> = Vec::new();
                proof {
                    assert(now(v@) =~= Seq::<LocalIndex>::empty());
                }
                v
            },
        }
    }
}

/// A statement.
#[derive(Debug, Clone, PartialEq, Eq)]
pub enum Statement {
    Nop,
    /// The local variables that are defined on entry to the function: only
    /// used while static single assignment form is built.
    SsaEntryDefs(Vec<LocalIndex>),
    Assign(Place, Rvalue),
    Unimplemented,
}

impl Statement {
    /// The local variables that the statement uses.
    pub open spec fn uses(self) -> Seq<LocalIndex> {
        match self {
            Statement::Assign(_, rv) => rv.uses(),
            _ => Seq::empty(),
        }
    }

    /// The local variables that the statement defines.
    pub open spec fn defs(self) -> Seq<LocalIndex> {
        match self {
            Statement::Assign(p, _) => p.locals(),
            Statement::SsaEntryDefs(vs) => vs@,
            _ => Seq::empty(),
        }
    }

    /// The local variables that the statement uses, to be renamed through
    /// the references.
    pub fn uses_vars_mut(&mut self) -> (r: Vec<&mut LocalIndex>)
        ensures
            now(r@) == old(self).uses(),
            match *old(self) {
                Statement::Assign(p, rv) => {
                    &&& *final(self) matches Statement::Assign(p2, rv2)
                    &&& p2 == p
                    &&& rv.renamed_to(rv2, Seq::new(r@.len(), |i: int| *final(r@[i])))
                },
                _ => *final(self) == *old(self),
            },
    {
        match self {
            Statement::Assign(_, rv) => rv.uses_vars_mut(),
            _ => {
                let v: Vec<&mut LocalIndex> = Vec::new();
                proof {
                    assert(now(v@) =~= Seq::<LocalIndex>::empty());
                }
                v
            },
        }
    }

    /// The local variables that the statement defines, to be renamed
    /// through the references.
    pub fn defs_vars_mut(&mut self) -> (r: Vec<&mut LocalIndex>)
        ensures
            now(r@) == old(self).defs(),
            match *old(self) {
                Statement::Assign(p, rv) => *final(self) == Statement::Assign(
                    p.with_locals(Seq::new(r@.len(), |i: int| *final(r@[i]))),
                    rv,
                ),
                Statement::SsaEntryDefs(_) => {
                    &&& *final(self) matches Statement::SsaEntryDefs(vs2)
                    &&& vs2@ == Seq::new(r@.len(), |i: int| *final(r@[i]))
                },
                _ => *final(self) == *old(self),
            },
    {
        match self {
            Statement::Assign(p, _) => p.defs_vars_mut(),
            Statement::SsaEntryDefs(vs) => locals_mut(vs.as_mut_slice()),
            _ => {
                let v: Vec<&mut LocalIndex> = Vec::new();
                proof {
                    assert(now(v@) =~= Seq::<LocalIndex>::empty());
                }
                v
            },
        }
    }

    /// Does the statement assign the value of a phi?
    pub fn is_phi(&self) -> (r: bool)
        ensures
            r == (*self matches Statement::Assign(_, rv) && rv is Phi),
    {
        match self {
            Statement::Assign(_, Rvalue::Phi(_)) => true,
            _ => false,
        }
    }

    /// The local variable that argument `j` of the phi that the statement
    /// assigns names, to be renamed through the reference. `None` if the
    /// statement assigns no phi, or the argument names no local variable.
    /// A phi has the argument that is asked for.
    pub fn phi_arg_mut(&mut self, j: usize) -> (r: Option<&mut LocalIndex>)
        requires
            *old(self) matches Statement::Assign(_, Rvalue::Phi(ps)) ==> j < ps@.len(),
        ensures
            match *old(self) {
                Statement::Assign(p, Rvalue::Phi(ps)) => match ps@[j as int] {
                    Place::Local(l) => {
                        &&& r matches Some(x) && *x == l
                        &&& *final(self) matches Statement::Assign(p2, Rvalue::Phi(ps2)) && p2 == p
                            && ps2@ == ps@.update(j as int, Place::Local(*final(r.unwrap())))
                    },
                    Place::Unimplemented => {
                        &&& r is None
                        &&& *final(self) matches Statement::Assign(p2, Rvalue::Phi(ps2)) && p2 == p
                            && ps2@ == ps@
                    },
                },
                _ => r is None && *final(self) == *old(self),
            },
    {
        match self {
            Statement::Assign(_, Rvalue::Phi(ps)) => match &mut ps[j] {
                Place::Local(l) => Some(l),
                Place::Unimplemented => None,
            },
            _ => None,
        }
    }
}

/// The elements of `vs`, as references through which they can be renamed.
pub fn locals_mut(vs: &mut [LocalIndex]) -> (r: Vec<&mut LocalIndex>)
    ensures
        now(r@) == old(vs)@,
        final(vs)@ == Seq::new(r@.len(), |i: int| *final(r@[i])),
    decreases old(vs)@.len(),
{
    if vs.len() == 0 {
        let v: Vec<&mut LocalIndex> = Vec::new();
        proof {
            assert(now(v@) =~= Seq::<LocalIndex>::empty());
            assert(vs@ =~= Seq::<LocalIndex>::empty());
        }
        v
    } else {
        let ghost all = vs@;
        let (head, tail) = vs.split_at_mut(1);
        let ghost head0 = head@;
        let ghost tail0 = tail@;
        let mut v: Vec<&mut LocalIndex> = Vec::new();
        v.push(&mut head[0]);
        let ghost first = v@;
        let mut rest = locals_mut(tail);
        let ghost others = rest@;
        v.append(&mut rest);
        proof {
            assert(head0 =~= all.subrange(0, 1));
            assert(tail0 =~= all.subrange(1, all.len() as int));
            assert(*first[0] == all[0]);
            assert(v@ =~= first + others);
            assert(now(v@) =~= now(first) + now(others));
            assert(now(first) =~= seq![all[0]]);
            assert(now(v@) =~= all);
        }
        v
    }
}

/// An operand of a terminator.
#[derive(Debug, Clone, Copy, PartialEq, Eq, Structural)]
pub enum Operand {
    Copy(Place),
    Move(Place),
    Constant(Constant),
}

impl Operand {
    /// The local variables that the operand uses.
    pub open spec fn uses(self) -> Seq<LocalIndex> {
        match self {
            Operand::Copy(p) => p.locals(),
            Operand::Move(p) => p.locals(),
            Operand::Constant(_) => Seq::empty(),
        }
    }

    /// Taken as the operand of a call: the definition that is called, if
    /// the operand is a constant of a function's type.
    pub fn call_operand_defid(&self) -> (r: Option<&DefId>)
        ensures
            match *self {
                Operand::Constant(Constant { ty: TyS { sty: TyKind::FnDef(d) } }) => r == Some(&d),
                _ => r is None,
            },
    {
        match self {
            Operand::Constant(Constant { ty: TyS { sty: TyKind::FnDef(def_id) } }) => Some(def_id),
            _ => None,
        }
    }

    /// The operand with the local variables that it uses replaced by
    /// `vals`, in order.
    pub open spec fn with_locals(self, vals: Seq<LocalIndex>) -> Operand {
        match self {
            Operand::Copy(p) => Operand::Copy(p.with_locals(vals)),
            Operand::Move(p) => Operand::Move(p.with_locals(vals)),
            Operand::Constant(_) => self,
        }
    }

    /// The local variables that the operand uses, to be renamed through the
    /// references.
    pub fn uses_vars_mut(&mut self) -> (r: Vec<&mut LocalIndex>)
        ensures
            now(r@) == old(self).uses(),
            *final(self) == old(self).with_locals(Seq::new(r@.len(), |i: int| *final(r@[i]))),
    {
        match self {
            Operand::Copy(p) => p.uses_vars_mut(),
            Operand::Move(p) => p.uses_vars_mut(),
            Operand::Constant(_) => {
                let v: Vec<&mut LocalIndex> = Vec::new();
                proof {
                    assert(now(v@) =~= Seq::<LocalIndex>::empty());
                }
                v
            },
        }
    }
}

/// A type.
#[derive(Debug, Clone, Copy, PartialEq, Eq, Structural)]
pub struct TyS {
    pub sty: TyKind,
}

/// What kind of type a type is.
#[derive(Debug, Clone, Copy, PartialEq, Eq, Structural)]
pub enum TyKind {
    /// The type of the function with the given definition.
    FnDef(DefId),
    Unimplemented,
}

/// A constant that is known when the program is compiled.
#[derive(Debug, Clone, Copy, PartialEq, Eq, Structural)]
pub struct Constant {
    pub ty: TyS,
}

/// A constant of a primitive type.
#[derive(Debug, Clone, Copy, PartialEq, Eq, Structural)]
pub enum Scalar {
    Bits { size: u8, bits: u128 },
    Unimplemented,
}

/// The terminator of a basic block.
#[allow(inconsistent_fields)]
#[derive(Debug, Clone, PartialEq, Eq)]
pub enum Terminator {
    Goto { target_bb: BasicBlockIndex },
    SwitchInt { discr: Operand, target_bbs: Vec<BasicBlockIndex> },
    Resume,
    Abort,
    /// In static single assignment form the variable that is returned has
    /// to be named.
    Return { local: LocalIndex },
    Unreachable,
    Drop { target_bb: BasicBlockIndex, unwind_bb: Option<BasicBlockIndex> },
    DropAndReplace { target_bb: BasicBlockIndex, unwind_bb: Option<BasicBlockIndex> },
    Call { func: Operand, cleanup_bb: Option<BasicBlockIndex>, ret_bb: Option<BasicBlockIndex> },
    Assert { cond: Operand, target_bb: BasicBlockIndex, cleanup_bb: Option<BasicBlockIndex> },
    Yield { value: Operand, resume_bb: BasicBlockIndex, drop_bb: Option<BasicBlockIndex> },
    GeneratorDrop,
}

impl Terminator {
    /// The local variables that the terminator uses.
    pub open spec fn uses(self) -> Seq<LocalIndex> {
        match self {
            Terminator::SwitchInt { discr, .. } => discr.uses(),
            Terminator::Return { local } => seq![local],
            Terminator::Call { func, .. } => func.uses(),
            Terminator::Assert { cond, .. } => cond.uses(),
            Terminator::Yield { value, .. } => value.uses(),
            _ => Seq::empty(),
        }
    }

    /// The terminator with the local variables that it uses replaced by
    /// `vals`, in order.
    pub open spec fn with_uses(self, vals: Seq<LocalIndex>) -> Terminator {
        match self {
            Terminator::SwitchInt { discr, target_bbs } => Terminator::SwitchInt {
                discr: discr.with_locals(vals),
                target_bbs,
            },
            Terminator::Return { .. } => Terminator::Return { local: vals[0] },
            Terminator::Call { func, cleanup_bb, ret_bb } => Terminator::Call {
                func: func.with_locals(vals),
                cleanup_bb,
                ret_bb,
            },
            Terminator::Assert { cond, target_bb, cleanup_bb } => Terminator::Assert {
                cond: cond.with_locals(vals),
                target_bb,
                cleanup_bb,
            },
            Terminator::Yield { value, resume_bb, drop_bb } => Terminator::Yield {
                value: value.with_locals(vals),
                resume_bb,
                drop_bb,
            },
            _ => self,
        }
    }

    /// The local variables that the terminator uses, to be renamed through
    /// the references.
    pub fn uses_vars_mut(&mut self) -> (r: Vec<&mut LocalIndex>)
        ensures
            now(r@) == old(self).uses(),
            *final(self) == old(self).with_uses(Seq::new(r@.len(), |i: int| *final(r@[i]))),
    {
        match self {
            Terminator::SwitchInt { discr, .. } => discr.uses_vars_mut(),
            Terminator::Return { local } => {
                let mut v: Vec<&mut LocalIndex> = Vec::new();
                v.push(local);
                proof {
                    assert(now(v@) =~= seq![*v@[0]]);
                    assert(Seq::new(v@.len(), |i: int| *final(v@[i]))[0] == *final(v@[0]));
                }
                v
            },
            Terminator::Call { func, .. } => func.uses_vars_mut(),
            Terminator::Assert { cond, .. } => cond.uses_vars_mut(),
            Terminator::Yield { value, .. } => value.uses_vars_mut(),
            _ => {
                let v: Vec<&mut LocalIndex> = Vec::new();
                proof {
                    assert(now(v@) =~= Seq::<LocalIndex>::empty());
                }
                v
            },
        }
    }
}

/// What the compiler packs up for the tracer.
#[derive(Debug, Clone, PartialEq, Eq)]
pub enum Pack {
    Mir(Mir),
}

} // verus!
