//! Traces in the tracing intermediate representation.
//!
//! A trace arrives as the sequence of the blocks that the program has run
//! through. Here it becomes a straight line of statements and guards: the
//! statements of the blocks, with the local variables of inlined calls
//! renamed apart, and a guard wherever the program could have gone another
//! way.

use crate::sir::{
    BasicBlockIndex, CallOperand, IRPlace, Local, LocalDecl, Sir, Statement, Terminator,
    BODY_DO_NOT_TRACE, BODY_INTERP_STEP, INTERP_STEP_ARG,
};
use std::collections::HashMap;
use vstd::prelude::*;

pub mod construct;

verus! {

broadcast use vstd::std_specs::hash::group_hash_axioms;

/// A block of a trace: a block of the function with the symbol name
/// `symbol_name`, which starts at the address `addr` if that is known.
#[derive(Debug)]
pub struct SirLoc {
    pub symbol_name: String,
    pub bb_idx: BasicBlockIndex,
    pub addr: Option<u64>,
}

/// Why a trace cannot be turned into a straight line.
#[derive(Debug)]
pub enum InvalidTraceError {
    /// The trace runs through the function of this symbol name, of which
    /// the program has no representation.
    NoSir(String),
    /// The trace contradicts the representation of the program.
    Malformed,
    /// The trace uses the local variable of this number before defining it.
    UndefinedLocal(u32),
    /// The trace runs through blocks that do not follow each other.
    Disconnected,
}

/// What a guard demands of its value.
#[derive(Debug)]
pub enum GuardKind {
    /// The value must be equal to the integer.
    Integer(u128),
    /// The value must be none of the integers.
    OtherInteger(Vec<u128>),
    /// The value must equal the Boolean.
    Boolean(bool),
}

/// A guard: what is taken for granted from its position in a trace onward.
#[derive(Debug)]
pub struct Guard {
    /// The value that is checked.
    pub val: IRPlace,
    /// What the value must be for the guard to pass.
    pub kind: GuardKind,
}

/// An operation of a trace.
#[derive(Debug)]
pub enum TirOp {
    Statement(Statement),
    Guard(Guard),
}

impl TirOp {
    /// May the operation change local variables besides those that it
    /// names? Only a call may.
    pub fn may_have_side_effects(&self) -> (r: bool)
        ensures
            r == (*self matches TirOp::Statement(s) && (s is Call || s is Enter)),
    {
        match self {
            TirOp::Statement(Statement::Call(..)) => true,
            TirOp::Statement(Statement::Enter(..)) => true,
            _ => false,
        }
    }
}

/// Renames the local variables of inlined calls apart: the variables of each
/// call are moved up by an offset, beyond the variables of everything that
/// was entered before.
#[derive(Debug)]
pub struct VarRenamer {
    /// The offsets of the calls that have been entered and not left,
    /// outermost first, after the offset 0 of the outermost function.
    pub stack: Vec<u32>,
    /// The offset in use.
    pub offset: u32,
    /// The number of variables that are taken: the offset of the call that
    /// is entered next.
    pub acc: Option<u32>,
    /// The variables that hold what the entered calls return.
    pub returns: Vec<Local>,
    /// What is known of each renamed variable.
    pub local_decls: HashMap<u32, LocalDecl>,
}

impl VarRenamer {
    /// The offset in use is the one at the top of the stack.
    pub open spec fn wf(&self) -> bool {
        self.stack@.len() >= 1 && self.stack@.last() == self.offset
    }

    pub fn new() -> (r: Self)
        ensures
            r.wf(),
            r.stack@ == seq![0u32],
            r.offset == 0,
            r.acc is None,
            r.returns@.len() == 0,
            r.local_decls@ == Map::<u32, LocalDecl>::empty(),
    {
        let mut stack = Vec::new();
        stack.push(0u32);
        VarRenamer { stack, offset: 0, acc: None, returns: Vec::new(), local_decls: HashMap::new() }
    }

    /// Finish renaming, and hand out what is known of the renamed
    /// variables.
    pub fn done(self) -> (r: HashMap<u32, LocalDecl>)
        ensures
            r == self.local_decls,
    {
        self.local_decls
    }

    /// The offset in use.
    pub fn offset(&self) -> (r: u32)
        ensures
            r == self.offset,
    {
        self.offset
    }

    /// Note how many local variables the outermost function has, the first
    /// time this is called.
    pub fn init_acc(&mut self, num_locals: usize)
        requires
            num_locals <= u32::MAX,
        ensures
            final(self).acc == Some(
                match old(self).acc {
                    Some(a) => a,
                    None => num_locals as u32,
                },
            ),
            final(self).stack == old(self).stack,
            final(self).offset == old(self).offset,
            final(self).returns == old(self).returns,
            final(self).local_decls == old(self).local_decls,
    {
        if self.acc.is_none() {
            self.acc = Some(num_locals as u32);
        }
    }

    /// Enter an inlined call of a function with `num_locals` local
    /// variables: its variables start where the variables taken so far end.
    pub fn enter(&mut self, num_locals: usize, dest: IRPlace)
        requires
            old(self).acc matches Some(a) && a + num_locals <= u32::MAX,
        ensures
            final(self).wf(),
            final(self).offset == old(self).acc.unwrap(),
            final(self).stack@ == old(self).stack@.push(old(self).acc.unwrap()),
            final(self).acc == Some((old(self).acc.unwrap() + num_locals) as u32),
            final(self).returns@ == old(self).returns@.push(Local(old(self).acc.unwrap())),
            final(self).local_decls == old(self).local_decls,
    {
        let a = self.acc.unwrap();
        self.offset = a;
        self.stack.push(a);
        self.acc = Some(a + num_locals as u32);
        self.returns.push(Local(a));
    }

    /// Leave an inlined call: the offset is again what it was before the
    /// call was entered.
    pub fn leave(&mut self)
        requires
            old(self).stack@.len() >= 2,
        ensures
            final(self).wf(),
            final(self).stack@ == old(self).stack@.drop_last(),
            final(self).offset == old(self).stack@[old(self).stack@.len() - 2],
            final(self).returns@ == if old(self).returns@.len() > 0 {
                old(self).returns@.drop_last()
            } else {
                old(self).returns@
            },
            final(self).acc == old(self).acc,
            final(self).local_decls == old(self).local_decls,
    {
        self.stack.pop();
        self.returns.pop();
        self.offset = self.stack[self.stack.len() - 1];
    }

    /// Rename a local variable of the function with the local variables
    /// `decls`, and note what is known of it under its new name.
    pub fn rename_local(&mut self, local: &Local, decls: &Vec<LocalDecl>) -> (r: Local)
        requires
            local.0 < decls@.len(),
            local.0 + old(self).offset <= u32::MAX,
        ensures
            r.0 == local.0 + old(self).offset,
            final(self).local_decls@ == old(self).local_decls@.insert(r.0, decls@[local.0 as int]),
            final(self).stack == old(self).stack,
            final(self).offset == old(self).offset,
            final(self).acc == old(self).acc,
            final(self).returns == old(self).returns,
    {
        let renamed = Local(local.0 + self.offset);
        self.local_decls.insert(renamed.0, decls[local.0 as usize]);
        renamed
    }

    /// Can the local variable that `ip` names be moved up by `offset`: is
    /// it a local variable of the function with the local variables
    /// `decls`, and is there a number for it?
    pub open spec fn movable(ip: IRPlace, offset: u32, decls: Seq<LocalDecl>) -> bool {
        match ip {
            IRPlace::Val { local, .. } => local.0 < decls.len() && local.0 + offset <= u32::MAX,
            IRPlace::Indirect { ptr, .. } => ptr.local.0 < decls.len() && ptr.local.0 + offset
                <= u32::MAX,
            _ => true,
        }
    }

    /// Can the local variables that `ip` names be renamed?
    pub open spec fn renamable(&self, ip: IRPlace, decls: Seq<LocalDecl>) -> bool {
        match ip {
            IRPlace::Val { local, .. } => local.0 < decls.len() && local.0 + self.offset
                <= u32::MAX,
            IRPlace::Indirect { ptr, .. } => ptr.local.0 < decls.len() && ptr.local.0 + self.offset
                <= u32::MAX,
            _ => true,
        }
    }

    /// The place `ip` with its local variable moved up by `offset`.
    pub open spec fn renamed(ip: IRPlace, offset: u32) -> IRPlace {
        match ip {
            IRPlace::Val { local, off, ty } => IRPlace::Val {
                local: Local((local.0 + offset) as u32),
                off,
                ty,
            },
            IRPlace::Indirect { ptr, off, ty } => IRPlace::Indirect {
                ptr: crate::sir::Ptr { local: Local((ptr.local.0 + offset) as u32), off: ptr.off },
                off,
                ty,
            },
            p => p,
        }
    }

    /// What is known of the renamed local variables once the local
    /// variable that the place `ip` names, if it names one, has been moved
    /// up by `offset`: what `decls` says of it is known of it under its new
    /// name.
    pub open spec fn noted_place(known: Map<u32, LocalDecl>, ip: IRPlace, offset: u32, decls: Seq<
        LocalDecl,
    >) -> Map<u32, LocalDecl> {
        match ip {
            IRPlace::Val { local, .. } => known.insert(
                (local.0 + offset) as u32,
                decls[local.0 as int],
            ),
            IRPlace::Indirect { ptr, .. } => known.insert(
                (ptr.local.0 + offset) as u32,
                decls[ptr.local.0 as int],
            ),
            _ => known,
        }
    }

    /// What is known of the renamed local variables once the first `n` of
    /// the places `ips` have been renamed.
    pub open spec fn noted_places(known: Map<u32, LocalDecl>, ips: Seq<IRPlace>, offset: u32, decls: Seq<
        LocalDecl,
    >, n: int) -> Map<u32, LocalDecl>
        decreases n,
    {
        if n <= 0 {
            known
        } else {
            Self::noted_place(
                Self::noted_places(known, ips, offset, decls, n - 1),
                ips[n - 1],
                offset,
                decls,
            )
        }
    }

    /// Rename the local variable that a place names, if it names one.
    pub fn rename_iplace(&mut self, ip: &IRPlace, decls: &Vec<LocalDecl>) -> (r: IRPlace)
        requires
            old(self).renamable(*ip, decls@),
        ensures
            r == Self::renamed(*ip, old(self).offset),
            final(self).local_decls@ == Self::noted_place(
                old(self).local_decls@,
                *ip,
                old(self).offset,
                decls@,
            ),
            final(self).stack == old(self).stack,
            final(self).offset == old(self).offset,
            final(self).acc == old(self).acc,
            final(self).returns == old(self).returns,
    {
        match ip {
            IRPlace::Val { local, off, ty } => IRPlace::Val {
                local: self.rename_local(local, decls),
                off: *off,
                ty: *ty,
            },
            IRPlace::Indirect { ptr, off, ty } => IRPlace::Indirect {
                ptr: crate::sir::Ptr { local: self.rename_local(&ptr.local, decls), off: ptr.off },
                off: *off,
                ty: *ty,
            },
            p => *p,
        }
    }

    /// Rename the local variables that the arguments of a call name.
    pub fn rename_args(&mut self, args: &Vec<IRPlace>, decls: &Vec<LocalDecl>) -> (r: Vec<IRPlace>)
        requires
            forall|i: int| 0 <= i < args@.len() ==> old(self).renamable(#[trigger] args@[i], decls@),
        ensures
            r@.len() == args@.len(),
            forall|i: int|
                0 <= i < args@.len() ==> #[trigger] r@[i] == Self::renamed(
                    args@[i],
                    old(self).offset,
                ),
            final(self).local_decls@ == Self::noted_places(
                old(self).local_decls@,
                args@,
                old(self).offset,
                decls@,
                args@.len() as int,
            ),
            final(self).stack == old(self).stack,
            final(self).offset == old(self).offset,
            final(self).acc == old(self).acc,
            final(self).returns == old(self).returns,
    {
        let mut out: Vec<IRPlace> = Vec::new();
        let mut i: usize = 0;
        while i < args.len()
            invariant
                i <= args@.len(),
                out@.len() == i,
                self.stack == old(self).stack,
                self.offset == old(self).offset,
                self.acc == old(self).acc,
                self.returns == old(self).returns,
                forall|k: int| 0 <= k < args@.len() ==> self.renamable(#[trigger] args@[k], decls@),
                forall|k: int|
                    0 <= k < i ==> #[trigger] out@[k] == Self::renamed(args@[k], old(self).offset),
                self.local_decls@ == Self::noted_places(
                    old(self).local_decls@,
                    args@,
                    old(self).offset,
                    decls@,
                    i as int,
                ),
            decreases args@.len() - i,
        {
            let p = self.rename_iplace(&args[i], decls);
            out.push(p);
            i = i + 1;
        }
        out
    }
}

/// The local variable that the place `ip` names, if it names one.
pub fn place_local(ip: &IRPlace) -> (r: Option<u32>)
    ensures
        r == match *ip {
            IRPlace::Val { local, .. } => Some(local.0),
            IRPlace::Indirect { ptr, .. } => Some(ptr.local.0),
            _ => None::<u32>,
        },
{
    match ip {
        IRPlace::Val { local, .. } => Some(local.0),
        IRPlace::Indirect { ptr, .. } => Some(ptr.local.0),
        _ => None,
    }
}

/// The first position from `from` on at which `lu` names the local
/// variable `l`.
pub open spec fn pos_of(lu: Seq<(u32, usize)>, l: u32, from: int) -> Option<int>
    decreases lu.len() - from,
{
    if from < 0 || from >= lu.len() {
        None
    } else if lu[from].0 == l {
        Some(from)
    } else {
        pos_of(lu, l, from + 1)
    }
}

/// The last uses `lu` once the operation of index `idx` has used the local
/// variable `l`: the variable keeps its place among those that are used,
/// or joins them at the end.
pub open spec fn touched(lu: Seq<(u32, usize)>, l: u32, idx: usize) -> Seq<(u32, usize)> {
    match pos_of(lu, l, 0) {
        Some(i) => lu.update(i, (l, idx)),
        None => lu.push((l, idx)),
    }
}

/// The last uses `lu` once the operation of index `idx` has read the
/// first `n` of the places `srcs`. The argument of the interpreter's step
/// function is not counted: it lives to the end.
pub open spec fn noted_srcs(lu: Seq<(u32, usize)>, srcs: Seq<IRPlace>, idx: usize, n: int) -> Seq<
    (u32, usize),
>
    decreases n,
{
    if n <= 0 {
        lu
    } else {
        let prev = noted_srcs(lu, srcs, idx, n - 1);
        match place_local_of(srcs[n - 1]) {
            Some(l) => if l != INTERP_STEP_ARG {
                touched(prev, l, idx)
            } else {
                prev
            },
            None => prev,
        }
    }
}

/// The last uses `lu` once the statement `stmt` has become the operation
/// of index `idx`: it uses the local variables that it reads, in order,
/// and then the one through which it stores.
pub open spec fn noted_uses(lu: Seq<(u32, usize)>, stmt: Statement, idx: usize) -> Seq<(u32, usize)> {
    let read = noted_srcs(lu, stmt_srcs(stmt), idx, stmt_srcs(stmt).len() as int);
    match stored_through(stmt) {
        Some(l) => if l != INTERP_STEP_ARG {
            touched(read, l, idx)
        } else {
            read
        },
        None => read,
    }
}

/// Which local variables the operations of a trace define and use, and
/// where.
#[derive(Debug)]
pub struct Liveness {
    /// The local variables that are defined.
    pub defined: Vec<u32>,
    /// The local variables that are used, each with the index of the
    /// operation that used it last.
    pub last_use: Vec<(u32, usize)>,
}

impl Liveness {
    /// No local variable is noted twice as used.
    pub open spec fn wf(&self) -> bool {
        forall|i: int, j: int|
            0 <= i < j < self.last_use@.len() ==> (#[trigger] self.last_use@[i]).0 != (
            #[trigger] self.last_use@[j]).0
    }

    /// Is the local variable `l` defined?
    pub open spec fn spec_is_defined(&self, l: u32) -> bool {
        exists|i: int| 0 <= i < self.defined@.len() && #[trigger] self.defined@[i] == l
    }

    /// The argument of the interpreter's step function is defined from the
    /// start.
    pub fn new() -> (r: Self)
        ensures
            r.wf(),
            r.defined@ == seq![INTERP_STEP_ARG],
            r.last_use@.len() == 0,
    {
        let mut defined = Vec::new();
        defined.push(INTERP_STEP_ARG);
        Liveness { defined, last_use: Vec::new() }
    }

    /// Is the local variable `l` defined?
    pub fn is_defined(&self, l: u32) -> (r: bool)
        ensures
            r == self.spec_is_defined(l),
    {
        let mut i: usize = 0;
        while i < self.defined.len()
            invariant
                i <= self.defined@.len(),
                forall|k: int| 0 <= k < i ==> #[trigger] self.defined@[k] != l,
            decreases self.defined@.len() - i,
        {
            if self.defined[i] == l {
                return true;
            }
            i = i + 1;
        }
        false
    }

    /// Note that the operation defines the local variable `l`, unless that
    /// is defined already.
    pub fn define(&mut self, l: u32)
        requires
            old(self).wf(),
        ensures
            final(self).wf(),
            final(self).last_use == old(self).last_use,
            final(self).spec_is_defined(l),
            forall|x: u32| old(self).spec_is_defined(x) ==> final(self).spec_is_defined(x),
            forall|x: u32|
                final(self).spec_is_defined(x) <==> old(self).spec_is_defined(x) || x == l,
    {
        if !self.is_defined(l) {
            let ghost pre = self.defined@;
            self.defined.push(l);
            proof {
                assert(self.defined@[pre.len() as int] == l);
                assert forall|x: u32| old(self).spec_is_defined(x) implies self.spec_is_defined(
                    x,
                ) by {
                    let i = choose|i: int| 0 <= i < pre.len() && #[trigger] pre[i] == x;
                    assert(self.defined@[i] == x);
                }
                assert forall|x: u32| self.spec_is_defined(x) implies old(self).spec_is_defined(x)
                    || x == l by {
                    let i = choose|i: int| 0 <= i < self.defined@.len() && #[trigger] self.defined@[i] == x;
                    if i < pre.len() {
                        assert(pre[i] == x);
                    }
                }
            }
        }
    }

    /// Note that the operation of index `op_idx` uses the local variable
    /// `l`, which must be defined. Returns whether it is.
    #[verifier::loop_isolation(false)]
    pub fn use_at(&mut self, l: u32, op_idx: usize) -> (r: bool)
        requires
            old(self).wf(),
        ensures
            final(self).wf(),
            final(self).defined == old(self).defined,
            r == (l == INTERP_STEP_ARG || old(self).spec_is_defined(l)),
            !r || l == INTERP_STEP_ARG ==> final(self).last_use == old(self).last_use,
            r && l != INTERP_STEP_ARG ==> exists|i: int|
                0 <= i < final(self).last_use@.len() && #[trigger] final(self).last_use@[i] == (
                    l,
                    op_idx,
                ),
            forall|x: u32|
                #[trigger] final(self).spec_last_use(x) == if r && l != INTERP_STEP_ARG && x == l {
                    Some(op_idx)
                } else {
                    old(self).spec_last_use(x)
                },
            final(self).last_use@ == if r && l != INTERP_STEP_ARG {
                touched(old(self).last_use@, l, op_idx)
            } else {
                old(self).last_use@
            },
    {
        // The step function's argument is live for the whole trace.
        if l == INTERP_STEP_ARG {
            return true;
        }
        if !self.is_defined(l) {
            return false;
        }
        let mut i: usize = 0;
        while i < self.last_use.len()
            invariant
                i <= self.last_use@.len(),
                self.wf(),
                *self == *old(self),
                forall|k: int| 0 <= k < i ==> (#[trigger] self.last_use@[k]).0 != l,
                pos_of(self.last_use@, l, i as int) == pos_of(self.last_use@, l, 0),
            decreases self.last_use@.len() - i,
        {
            if self.last_use[i].0 == l {
                let ghost pre = self.last_use@;
                self.last_use.set(i, (l, op_idx));
                proof {
                    assert(self.last_use@[i as int] == (l, op_idx));
                    assert forall|a: int, b: int| 0 <= a < b < self.last_use@.len() implies (
                    #[trigger] self.last_use@[a]).0 != (#[trigger] self.last_use@[b]).0 by {
                        assert(self.last_use@[a].0 == pre[a].0);
                        assert(self.last_use@[b].0 == pre[b].0);
                    }
                    assert forall|x: u32|
                        #[trigger] self.spec_last_use(x) == if x == l {
                            Some(op_idx)
                        } else {
                            old(self).spec_last_use(x)
                        } by {
                        if x == l {
                            assert(self.used_at(i as int, l));
                            self.lemma_last_use(i as int, l);
                        } else if exists|j: int| old(self).used_at(j, x) {
                            let j = choose|j: int| old(self).used_at(j, x);
                            old(self).lemma_last_use(j, x);
                            assert(self.last_use@[j] == pre[j]);
                            assert(self.used_at(j, x));
                            self.lemma_last_use(j, x);
                        } else {
                            assert forall|j: int| !self.used_at(j, x) by {
                                if self.used_at(j, x) {
                                    assert(old(self).used_at(j, x));
                                }
                            }
                        }
                    }
                }
                return true;
            }
            i = i + 1;
        }
        let ghost pre = self.last_use@;
        self.last_use.push((l, op_idx));
        proof {
            assert(self.last_use@[pre.len() as int] == (l, op_idx));
            assert forall|a: int, b: int| 0 <= a < b < self.last_use@.len() implies (
            #[trigger] self.last_use@[a]).0 != (#[trigger] self.last_use@[b]).0 by {
                if b < pre.len() {
                    assert(self.last_use@[a] == pre[a]);
                    assert(self.last_use@[b] == pre[b]);
                } else {
                    assert(self.last_use@[a] == pre[a]);
                }
            }
            assert forall|x: u32|
                #[trigger] self.spec_last_use(x) == if x == l {
                    Some(op_idx)
                } else {
                    old(self).spec_last_use(x)
                } by {
                if x == l {
                    assert(self.used_at(pre.len() as int, l));
                    self.lemma_last_use(pre.len() as int, l);
                } else if exists|j: int| old(self).used_at(j, x) {
                    let j = choose|j: int| old(self).used_at(j, x);
                    old(self).lemma_last_use(j, x);
                    assert(self.last_use@[j] == pre[j]);
                    assert(self.used_at(j, x));
                    self.lemma_last_use(j, x);
                } else {
                    assert forall|j: int| !self.used_at(j, x) by {
                        if self.used_at(j, x) {
                            assert(self.last_use@[j] == pre[j]);
                            assert(old(self).used_at(j, x));
                        }
                    }
                }
            }
        }
        true
    }

    /// Note what the statement `stmt`, which becomes the operation of index
    /// `op_idx`, defines and uses: a statement defines the local variable
    /// that it stores to, and uses the local variables that it reads, and
    /// those through which it stores. Returns the first local variable
    /// that is used without being defined, if there is one.
    #[verifier::loop_isolation(false)]
    pub fn note(&mut self, stmt: &Statement, op_idx: usize) -> (r: Option<u32>)
        requires
            old(self).wf(),
        ensures
            final(self).wf(),
            forall|x: u32| old(self).spec_is_defined(x) ==> final(self).spec_is_defined(x),
            match r {
                Some(l) => l != INTERP_STEP_ARG && !final(self).spec_is_defined(l),
                None => true,
            },
            r == old(self).spec_note(*stmt),
            forall|x: u32|
                final(self).spec_is_defined(x) <==> old(self).spec_is_defined(x) || defined_by(*stmt)
                    == Some(x),
            forall|x: u32|
                #[trigger] final(self).spec_last_use(x) == if old(self).noted(*stmt, x) {
                    Some(op_idx)
                } else {
                    old(self).spec_last_use(x)
                },
            r is None ==> final(self).last_use@ == noted_uses(old(self).last_use@, *stmt, op_idx),
    {
        let (dest, srcs): (Option<IRPlace>, Vec<IRPlace>) = match stmt {
            Statement::MkRef(d, s) | Statement::Store(d, s) => {
                let mut v = Vec::new();
                v.push(*s);
                (Some(*d), v)
            },
            Statement::BinaryOp { dest, opnd1, opnd2, .. } => {
                let mut v = Vec::new();
                v.push(*opnd1);
                v.push(*opnd2);
                (Some(*dest), v)
            },
            Statement::Call(_, args, dest) | Statement::Enter(_, args, dest, _) => {
                let mut v: Vec<IRPlace> = Vec::new();
                let mut i: usize = 0;
                while i < args.len()
                    invariant
                        i <= args@.len(),
                        v@ == args@.subrange(0, i as int),
                    decreases args@.len() - i,
                {
                    v.push(args[i]);
                    proof {
                        assert(v@ =~= args@.subrange(0, i + 1));
                    }
                    i = i + 1;
                }
                proof {
                    assert(args@.subrange(0, args@.len() as int) =~= args@);
                }
                (*dest, v)
            },
            _ => (None, Vec::new()),
        };
        proof {
            assert(srcs@ =~= stmt_srcs(*stmt));
        }
        if let Some(IRPlace::Val { local, .. }) = dest {
            self.define(local.0);
        }
        let ghost mid = *self;
        let ghost ss = stmt_srcs(*stmt);
        proof {
            Self::lemma_same_uses(old(self), &mid);
        }
        let mut i: usize = 0;
        while i < srcs.len()
            invariant
                i <= srcs@.len(),
                self.wf(),
                self.defined == mid.defined,
                srcs@ == ss,
                ss == stmt_srcs(*stmt),
                dest == stmt_dest(*stmt),
                self.last_use@ == noted_srcs(old(self).last_use@, ss, op_idx, i as int),
                forall|x: u32| mid.spec_is_defined(x) <==> old(self).usable(*stmt, x) && (x
                    != INTERP_STEP_ARG || old(self).spec_is_defined(x) || defined_by(*stmt) == Some(
                    x,
                )),
                old(self).first_bad(*stmt, 0) == old(self).first_bad(*stmt, i as int),
                forall|x: u32|
                    #[trigger] self.spec_last_use(x) == if x != INTERP_STEP_ARG && old(self).read_before(
                        *stmt,
                        x,
                        i as int,
                    ) {
                        Some(op_idx)
                    } else {
                        old(self).spec_last_use(x)
                    },
            decreases srcs@.len() - i,
        {
            let ghost before = *self;
            if let Some(l) = place_local(&srcs[i]) {
                if !self.use_at(l, op_idx) {
                    proof {
                        assert(old(self).first_bad(*stmt, i as int) == i);
                        assert forall|x: u32|
                            #[trigger] self.spec_last_use(x) == if old(self).noted(*stmt, x) {
                                Some(op_idx)
                            } else {
                                old(self).spec_last_use(x)
                            } by {
                            assert(self.spec_last_use(x) == before.spec_last_use(x));
                        }
                    }
                    return Some(l);
                }
            }
            proof {
                assert forall|x: u32|
                    #[trigger] self.spec_last_use(x) == if x != INTERP_STEP_ARG && old(
                        self,
                    ).read_before(*stmt, x, i + 1) {
                        Some(op_idx)
                    } else {
                        old(self).spec_last_use(x)
                    } by {
                    if old(self).read_before(*stmt, x, i as int) {
                        let k = choose|k: int| 0 <= k < i && place_local_of(ss[k]) == Some(x);
                        assert(0 <= k < i + 1 && place_local_of(ss[k]) == Some(x));
                    }
                    if place_local_of(ss[i as int]) == Some(x) {
                        assert(0 <= i < i + 1 && place_local_of(ss[i as int]) == Some(x));
                    }
                    if old(self).read_before(*stmt, x, i + 1) {
                        let k = choose|k: int| 0 <= k < i + 1 && place_local_of(ss[k]) == Some(x);
                        if k < i {
                            assert(old(self).read_before(*stmt, x, i as int));
                        }
                    }
                    assert(self.spec_last_use(x) == if place_local_of(ss[i as int]) == Some(x) && x
                        != INTERP_STEP_ARG {
                        Some(op_idx)
                    } else {
                        before.spec_last_use(x)
                    });
                }
            }
            i = i + 1;
        }
        proof {
            assert(old(self).first_bad(*stmt, 0) == ss.len());
        }
        let ghost before = *self;
        if let Some(IRPlace::Indirect { ptr, .. }) = dest {
            if !self.use_at(ptr.local.0, op_idx) {
                proof {
                    assert forall|x: u32|
                        #[trigger] self.spec_last_use(x) == if old(self).noted(*stmt, x) {
                            Some(op_idx)
                        } else {
                            old(self).spec_last_use(x)
                        } by {
                        assert(self.spec_last_use(x) == before.spec_last_use(x));
                    }
                }
                return Some(ptr.local.0);
            }
        }
        proof {
            assert forall|x: u32|
                #[trigger] self.spec_last_use(x) == if old(self).noted(*stmt, x) {
                    Some(op_idx)
                } else {
                    old(self).spec_last_use(x)
                } by {
                assert(before.spec_last_use(x) == if x != INTERP_STEP_ARG && old(self).read_before(
                    *stmt,
                    x,
                    ss.len() as int,
                ) {
                    Some(op_idx)
                } else {
                    old(self).spec_last_use(x)
                });
            }
        }
        None
    }

    /// Is the local variable `l` noted as used at position `i`?
    pub open spec fn used_at(&self, i: int, l: u32) -> bool {
        0 <= i < self.last_use@.len() && self.last_use@[i].0 == l
    }

    /// The index of the operation that used the local variable `l` last,
    /// if one has used it.
    pub open spec fn spec_last_use(&self, l: u32) -> Option<usize> {
        if exists|i: int| self.used_at(i, l) {
            Some(self.last_use@[choose|i: int| self.used_at(i, l)].1)
        } else {
            None
        }
    }

    /// A local variable is noted as used in one place at most.
    pub proof fn lemma_last_use(&self, i: int, l: u32)
        requires
            self.wf(),
            self.used_at(i, l),
        ensures
            self.spec_last_use(l) == Some(self.last_use@[i].1),
    {
        let c = choose|c: int| self.used_at(c, l);
        if c < i {
            assert(self.last_use@[c].0 != self.last_use@[i].0);
        } else if i < c {
            assert(self.last_use@[i].0 != self.last_use@[c].0);
        }
    }

    /// What is noted of the uses of local variables depends on nothing
    /// else.
    pub proof fn lemma_same_uses(a: &Self, b: &Self)
        requires
            a.wf(),
            a.last_use@ == b.last_use@,
        ensures
            forall|x: u32| #[trigger] a.spec_last_use(x) == b.spec_last_use(x),
    {
        assert forall|x: u32| #[trigger] a.spec_last_use(x) == b.spec_last_use(x) by {
            if exists|j: int| a.used_at(j, x) {
                let j = choose|j: int| a.used_at(j, x);
                a.lemma_last_use(j, x);
                assert(b.used_at(j, x));
                b.lemma_last_use(j, x);
            } else {
                assert forall|j: int| !b.used_at(j, x) by {
                    if b.used_at(j, x) {
                        assert(a.used_at(j, x));
                    }
                }
            }
        }
    }

    /// Can the statement `stmt` use the local variable `l`: is it the
    /// argument of the interpreter's step function, is it defined, or does
    /// the statement itself define it?
    pub open spec fn usable(&self, stmt: Statement, l: u32) -> bool {
        l == INTERP_STEP_ARG || self.spec_is_defined(l) || defined_by(stmt) == Some(l)
    }

    /// The position, from `i` on, of the first place that the statement
    /// `stmt` reads whose local variable it cannot use; the number of the
    /// places that it reads if there is none.
    pub open spec fn first_bad(&self, stmt: Statement, i: int) -> int
        decreases stmt_srcs(stmt).len() - i,
    {
        if i < 0 || i >= stmt_srcs(stmt).len() {
            stmt_srcs(stmt).len() as int
        } else if place_local_of(stmt_srcs(stmt)[i]) matches Some(l) && !self.usable(stmt, l) {
            i
        } else {
            self.first_bad(stmt, i + 1)
        }
    }

    /// Does the statement `stmt` read the local variable `l` at one of
    /// its first `n` places?
    pub open spec fn read_before(&self, stmt: Statement, l: u32, n: int) -> bool {
        exists|k: int| 0 <= k < n && place_local_of(stmt_srcs(stmt)[k]) == Some(l)
    }

    /// The first local variable that the statement `stmt` uses and cannot
    /// use: of a place that it reads, or else the one through which it
    /// stores.
    pub open spec fn spec_note(&self, stmt: Statement) -> Option<u32> {
        let b = self.first_bad(stmt, 0);
        if b < stmt_srcs(stmt).len() {
            place_local_of(stmt_srcs(stmt)[b])
        } else {
            match stmt_dest(stmt) {
                Some(IRPlace::Indirect { ptr, .. }) => if self.usable(stmt, ptr.local.0) {
                    None
                } else {
                    Some(ptr.local.0)
                },
                _ => None,
            }
        }
    }

    /// Is the statement `stmt` noted as the last use of the local variable
    /// `l`: does it use the variable, which is not the argument of the
    /// interpreter's step function, before it uses one that it cannot use?
    pub open spec fn noted(&self, stmt: Statement, l: u32) -> bool {
        let b = self.first_bad(stmt, 0);
        &&& l != INTERP_STEP_ARG
        &&& self.read_before(stmt, l, b) || (b == stmt_srcs(stmt).len() && self.usable(stmt, l)
            && stored_through(stmt) == Some(l))
    }
}

/// The local variable that the place `ip` names, if it names one.
pub open spec fn place_local_of(ip: IRPlace) -> Option<u32> {
    match ip {
        IRPlace::Val { local, .. } => Some(local.0),
        IRPlace::Indirect { ptr, .. } => Some(ptr.local.0),
        _ => None,
    }
}

/// The place that the statement `stmt` stores to, if it stores.
pub open spec fn stmt_dest(stmt: Statement) -> Option<IRPlace> {
    match stmt {
        Statement::MkRef(d, _) => Some(d),
        Statement::Store(d, _) => Some(d),
        Statement::BinaryOp { dest, .. } => Some(dest),
        Statement::Call(_, _, dest) => dest,
        Statement::Enter(_, _, dest, _) => dest,
        _ => None,
    }
}

/// The places that the statement `stmt` reads, in order.
pub open spec fn stmt_srcs(stmt: Statement) -> Seq<IRPlace> {
    match stmt {
        Statement::MkRef(_, s) => seq![s],
        Statement::Store(_, s) => seq![s],
        Statement::BinaryOp { opnd1, opnd2, .. } => seq![opnd1, opnd2],
        Statement::Call(_, args, _) => args@,
        Statement::Enter(_, args, _, _) => args@,
        _ => Seq::empty(),
    }
}

/// The local variable through which the statement `stmt` stores, if it
/// stores through one.
pub open spec fn stored_through(stmt: Statement) -> Option<u32> {
    match stmt_dest(stmt) {
        Some(IRPlace::Indirect { ptr, .. }) => Some(ptr.local.0),
        _ => None,
    }
}

/// The local variable that the statement `stmt` defines: the one that it
/// stores to, if it stores to one.
pub open spec fn defined_by(stmt: Statement) -> Option<u32> {
    match stmt_dest(stmt) {
        Some(IRPlace::Val { local, .. }) => Some(local.0),
        _ => None,
    }
}

/// A trace: a straight line of operations.
#[derive(Debug)]
pub struct TirTrace {
    pub ops: Vec<TirOp>,
    /// What is known of each local variable.
    pub local_decls: HashMap<u32, LocalDecl>,
    /// The addresses of the functions that the trace runs through, each
    /// with the function's symbol name.
    pub addr_map: Vec<(String, u64)>,
}

/// What a guard demands of its value, with the integers as a sequence.
pub enum Demand {
    /// The value must be equal to the integer.
    Integer(u128),
    /// The value must be none of the integers.
    OtherInteger(Seq<u128>),
    /// The value must equal the Boolean.
    Boolean(bool),
}

/// A statement of a trace, with its names and arguments as sequences. The
/// death of a local variable is no part of it, and the statements that are
/// not handled are all alike.
pub enum StmtView {
    Nop,
    MkRef(IRPlace, IRPlace),
    Store(IRPlace, IRPlace),
    BinaryOp { dest: IRPlace, op: crate::sir::BinOp, opnd1: IRPlace, opnd2: IRPlace, checked: bool },
    /// A call of the function of the given symbol name, if that is known.
    Call(Option<Seq<char>>, Seq<IRPlace>, Option<IRPlace>),
    /// The entry to an inlined call, whose local variables are moved up by
    /// the offset.
    Enter(Option<Seq<char>>, Seq<IRPlace>, Option<IRPlace>, u32),
    Leave,
    Debug(Seq<char>),
    Other,
}

/// An operation of a trace: a statement, or a guard with its value and its
/// demand.
pub enum OpView {
    Stmt(StmtView),
    Guard(IRPlace, Demand),
}

/// The symbol name of the function that is called, if it is known.
pub open spec fn callee_view(o: crate::sir::CallOperand) -> Option<Seq<char>> {
    match o {
        crate::sir::CallOperand::Fn(s) => Some(s@),
        crate::sir::CallOperand::Unknown => None,
    }
}

/// The statement `s` with its names and arguments as sequences.
pub open spec fn stmt_view(s: Statement) -> StmtView {
    match s {
        Statement::Nop => StmtView::Nop,
        Statement::MkRef(d, x) => StmtView::MkRef(d, x),
        Statement::Store(d, x) => StmtView::Store(d, x),
        Statement::BinaryOp { dest, op, opnd1, opnd2, checked } => StmtView::BinaryOp {
            dest,
            op,
            opnd1,
            opnd2,
            checked,
        },
        Statement::Call(o, args, dest) => StmtView::Call(callee_view(o), args@, dest),
        Statement::Enter(o, args, dest, off) => StmtView::Enter(callee_view(o), args@, dest, off),
        Statement::Leave => StmtView::Leave,
        Statement::Debug(t) => StmtView::Debug(t@),
        _ => StmtView::Other,
    }
}

/// The places that the statement `sv` reads, in order.
pub open spec fn srcs_v(sv: StmtView) -> Seq<IRPlace> {
    match sv {
        StmtView::MkRef(_, s) => seq![s],
        StmtView::Store(_, s) => seq![s],
        StmtView::BinaryOp { opnd1, opnd2, .. } => seq![opnd1, opnd2],
        StmtView::Call(_, args, _) => args,
        StmtView::Enter(_, args, _, _) => args,
        _ => Seq::empty(),
    }
}

/// The place that the statement `sv` stores to, if it stores.
pub open spec fn dest_v(sv: StmtView) -> Option<IRPlace> {
    match sv {
        StmtView::MkRef(d, _) => Some(d),
        StmtView::Store(d, _) => Some(d),
        StmtView::BinaryOp { dest, .. } => Some(dest),
        StmtView::Call(_, _, dest) => dest,
        StmtView::Enter(_, _, dest, _) => dest,
        _ => None,
    }
}

/// Does the statement `sv` define the local variable `l`: does it store to
/// it?
pub open spec fn defines_v(sv: StmtView, l: u32) -> bool {
    dest_v(sv) matches Some(IRPlace::Val { local, .. }) && local.0 == l
}

/// Does one of the operations `body` define the local variable `l`?
pub open spec fn defined_in(body: Seq<OpView>, l: u32) -> bool {
    exists|k: int|
        0 <= k < body.len() && (#[trigger] body[k] matches OpView::Stmt(v) && defines_v(v, l))
}

/// Can the statement `sv`, which comes after the operations `body`, use the
/// local variable `l`: is it the argument of the interpreter's step
/// function, is it defined, or does the statement itself define it?
pub open spec fn usable_v(body: Seq<OpView>, sv: StmtView, l: u32) -> bool {
    l == INTERP_STEP_ARG || defined_in(body, l) || defines_v(sv, l)
}

/// The position, from `i` on, of the first place that the statement `sv`
/// reads whose local variable it cannot use; the number of the places that
/// it reads if there is none.
pub open spec fn first_bad_v(body: Seq<OpView>, sv: StmtView, i: int) -> int
    decreases srcs_v(sv).len() - i,
{
    if i < 0 || i >= srcs_v(sv).len() {
        srcs_v(sv).len() as int
    } else if place_local_of(srcs_v(sv)[i]) matches Some(l) && !usable_v(body, sv, l) {
        i
    } else {
        first_bad_v(body, sv, i + 1)
    }
}

/// The first local variable that the statement `sv`, which comes after the
/// operations `body`, uses and cannot use: of a place that it reads, or
/// else the one through which it stores.
pub open spec fn note_v(body: Seq<OpView>, sv: StmtView) -> Option<u32> {
    let b = first_bad_v(body, sv, 0);
    if b < srcs_v(sv).len() {
        place_local_of(srcs_v(sv)[b])
    } else {
        match dest_v(sv) {
            Some(IRPlace::Indirect { ptr, .. }) => if usable_v(body, sv, ptr.local.0) {
                None
            } else {
                Some(ptr.local.0)
            },
            _ => None,
        }
    }
}

/// Why a trace cannot be turned into a straight line, with the symbol name
/// as a sequence of characters.
pub enum TraceFault {
    NoSir(Seq<char>),
    Malformed,
    UndefinedLocal(u32),
    Disconnected,
}

/// The error `e` with its symbol name as a sequence of characters.
pub open spec fn fault_of(e: InvalidTraceError) -> TraceFault {
    match e {
        InvalidTraceError::NoSir(s) => TraceFault::NoSir(s@),
        InvalidTraceError::Malformed => TraceFault::Malformed,
        InvalidTraceError::UndefinedLocal(l) => TraceFault::UndefinedLocal(l),
        InvalidTraceError::Disconnected => TraceFault::Disconnected,
    }
}

/// Why a terminator has no guard though it needs one.
pub enum GuardFault {
    /// The trace does not go on in a block that the terminator leads to.
    Disconnected,
    /// The terminator contradicts itself, or cannot be reached.
    Malformed,
}

impl Guard {
    /// What the guard demands of its value.
    pub open spec fn demand(&self) -> Demand {
        match self.kind {
            GuardKind::Integer(v) => Demand::Integer(v),
            GuardKind::OtherInteger(vs) => Demand::OtherInteger(vs@),
            GuardKind::Boolean(b) => Demand::Boolean(b),
        }
    }
}

/// The first index from `from` on at which `targets` holds the block `n`.
pub open spec fn first_target(targets: Seq<BasicBlockIndex>, n: BasicBlockIndex, from: int) -> Option<
    int,
>
    decreases targets.len() - from,
{
    if from < 0 || from >= targets.len() {
        None
    } else if targets[from] == n {
        Some(from)
    } else {
        first_target(targets, n, from + 1)
    }
}

/// The value and the demand of the guard that stands for the terminator
/// `term` of a block of a trace that goes on in the block `next`, if the
/// terminator needs a guard. A switch demands the value of the first of its
/// targets that is `next`; if none is, and `next` is where it goes
/// otherwise, it demands none of its values. An assertion demands what it
/// expects. It is a fault if the trace ends at a switch or goes on where
/// the switch does not lead, if a target of a switch has no value, and if
/// the terminator cannot be reached.
pub open spec fn spec_guard_for(term: Terminator, next: Option<BasicBlockIndex>) -> Result<
    Option<(IRPlace, Demand)>,
    GuardFault,
> {
    match term {
        Terminator::SwitchInt { discr, values, target_bbs, otherwise_bb } => match next {
            Some(n) => match first_target(target_bbs@, n, 0) {
                Some(i) => if i >= values@.len() {
                    Err(GuardFault::Malformed)
                } else {
                    Ok(Some((discr, Demand::Integer(values@[i]))))
                },
                None => if n != otherwise_bb {
                    Err(GuardFault::Disconnected)
                } else {
                    Ok(Some((discr, Demand::OtherInteger(values@))))
                },
            },
            None => Err(GuardFault::Disconnected),
        },
        Terminator::Assert { cond, expected, .. } => Ok(Some((cond, Demand::Boolean(expected)))),
        Terminator::Unreachable => Err(GuardFault::Malformed),
        _ => Ok(None),
    }
}

/// The guard that stands for the terminator `term` of a block of a trace
/// that goes on in the block `next`: a switch demands the value that leads
/// to `next`, or, if it is the default that leads there, none of the
/// values; an assertion demands what it expects. Other terminators need no
/// guard.
#[verifier::loop_isolation(false)]
pub fn guard_for(term: &Terminator, next: Option<BasicBlockIndex>) -> (r: Result<
    Option<Guard>,
    InvalidTraceError,
>)
    ensures
        match *term {
            Terminator::SwitchInt { discr, values, target_bbs, otherwise_bb } => match next {
                Some(n) => match r {
                    Ok(Some(g)) => {
                        &&& g.val == discr
                        &&& match g.kind {
                            GuardKind::Integer(v) => exists|i: int|
                                0 <= i < target_bbs@.len() && i < values@.len() && (
                                #[trigger] target_bbs@[i]) == n && values@[i] == v,
                            GuardKind::OtherInteger(vs) => vs@ == values@ && n == otherwise_bb,
                            GuardKind::Boolean(_) => false,
                        }
                    },
                    Ok(None) => false,
                    Err(e) => e is Disconnected || e is Malformed,
                },
                None => r matches Err(e) && e is Disconnected,
            },
            Terminator::Assert { cond, expected, .. } => {
                &&& r matches Ok(Some(g))
                &&& g.val == cond
                &&& g.kind matches GuardKind::Boolean(b)
                &&& b == expected
            },
            Terminator::Unreachable => r matches Err(e) && e is Malformed,
            _ => r matches Ok(None),
        },
        match r {
            Ok(Some(g)) => spec_guard_for(*term, next) == Ok::<Option<(IRPlace, Demand)>, GuardFault>(
                Some((g.val, g.demand())),
            ),
            Ok(None) => spec_guard_for(*term, next) == Ok::<Option<(IRPlace, Demand)>, GuardFault>(
                None,
            ),
            Err(e) => match spec_guard_for(*term, next) {
                Err(GuardFault::Disconnected) => e is Disconnected,
                Err(GuardFault::Malformed) => e is Malformed,
                Ok(_) => false,
            },
        },
{
    match term {
        Terminator::SwitchInt { discr, values, target_bbs, otherwise_bb } => {
            let next_blk = match next {
                Some(n) => n,
                None => {
                    return Err(InvalidTraceError::Disconnected);
                },
            };
            let mut i: usize = 0;
            while i < target_bbs.len()
                invariant
                    i <= target_bbs@.len(),
                    forall|k: int| 0 <= k < i ==> #[trigger] target_bbs@[k] != next_blk,
                    first_target(target_bbs@, next_blk, i as int) == first_target(
                        target_bbs@,
                        next_blk,
                        0,
                    ),
                decreases target_bbs@.len() - i,
            {
                if target_bbs[i] == next_blk {
                    if i >= values.len() {
                        return Err(InvalidTraceError::Malformed);
                    }
                    return Ok(Some(Guard { val: *discr, kind: GuardKind::Integer(values[i]) }));
                }
                i = i + 1;
            }
            if next_blk != *otherwise_bb {
                return Err(InvalidTraceError::Disconnected);
            }
            let mut vs: Vec<u128> = Vec::new();
            let mut k: usize = 0;
            while k < values.len()
                invariant
                    k <= values@.len(),
                    vs@ == values@.subrange(0, k as int),
                decreases values@.len() - k,
            {
                vs.push(values[k]);
                proof {
                    assert(vs@ =~= values@.subrange(0, k + 1));
                }
                k = k + 1;
            }
            proof {
                assert(values@.subrange(0, values@.len() as int) =~= values@);
            }
            Ok(Some(Guard { val: *discr, kind: GuardKind::OtherInteger(vs) }))
        },
        Terminator::Assert { cond, expected, .. } => Ok(
            Some(Guard { val: *cond, kind: GuardKind::Boolean(*expected) }),
        ),
        Terminator::Unreachable => Err(InvalidTraceError::Malformed),
        _ => Ok(None),
    }
}

impl TirTrace {
    /// Return the operation at index `idx` in the trace.
    pub fn op(&self, idx: usize) -> (r: &TirOp)
        requires
            idx < self.ops@.len(),
        ensures
            *r == self.ops@[idx as int],
    {
        &self.ops[idx]
    }

    /// Return the length of the trace, measured in operations.
    pub fn len(&self) -> (r: usize)
        ensures
            r == self.ops@.len(),
    {
        self.ops.len()
    }
}

} // verus!
