//! Building a trace from the blocks that the program has run through.

use crate::sir::{
    BasicBlockIndex, CallOperand, IRPlace, Local, LocalDecl, Sir, Statement, Terminator,
    BODY_DO_NOT_TRACE, BODY_INTERP_STEP, INTERP_STEP_ARG, RETURN_LOCAL,
};
use crate::tir::{
    defined_in, defines_v, dest_v, fault_of, first_bad_v, note_v, noted_uses, srcs_v, stmt_dest,
    stmt_srcs, usable_v, TraceFault,
};
use crate::tir::{
    callee_view, guard_for, spec_guard_for, stmt_view, Demand, Guard, InvalidTraceError, Liveness,
    OpView, SirLoc, StmtView, TirOp, TirTrace, VarRenamer,
};
use vstd::prelude::*;

verus! {

broadcast use vstd::std_specs::hash::group_hash_axioms;

/// Can the renamer rename the local variable that `ip` names?
fn can_rename(rnm: &VarRenamer, ip: &IRPlace, decls: &Vec<LocalDecl>) -> (r: bool)
    ensures
        r == rnm.renamable(*ip, decls@),
{
    let local = match ip {
        IRPlace::Val { local, .. } => local.0,
        IRPlace::Indirect { ptr, .. } => ptr.local.0,
        _ => {
            return true;
        },
    };
    (local as usize) < decls.len() && local <= u32::MAX - rnm.offset
}

/// Rename the local variable that `ip` names, if that is possible.
fn rename(rnm: &mut VarRenamer, ip: &IRPlace, decls: &Vec<LocalDecl>) -> (r: Result<
    IRPlace,
    InvalidTraceError,
>)
    ensures
        final(rnm).stack == old(rnm).stack,
        final(rnm).offset == old(rnm).offset,
        final(rnm).acc == old(rnm).acc,
        final(rnm).returns == old(rnm).returns,
        match r {
            Ok(p) => old(rnm).renamable(*ip, decls@) && p == VarRenamer::renamed(
                *ip,
                old(rnm).offset,
            ) && final(rnm).local_decls@ == VarRenamer::noted_place(
                old(rnm).local_decls@,
                *ip,
                old(rnm).offset,
                decls@,
            ),
            Err(e) => e is Malformed && !old(rnm).renamable(*ip, decls@) && final(rnm).local_decls
                == old(rnm).local_decls,
        },
{
    if can_rename(rnm, ip, decls) {
        Ok(rnm.rename_iplace(ip, decls))
    } else {
        Err(InvalidTraceError::Malformed)
    }
}

/// The statement of a block as an operation of the trace, with its local
/// variables renamed. Statements that only traces have cannot occur in a
/// block.
fn rename_statement(rnm: &mut VarRenamer, stmt: &Statement, decls: &Vec<LocalDecl>) -> (r: Result<
    Statement,
    InvalidTraceError,
>)
    ensures
        final(rnm).stack == old(rnm).stack,
        final(rnm).offset == old(rnm).offset,
        final(rnm).acc == old(rnm).acc,
        final(rnm).returns == old(rnm).returns,
        match r {
            Ok(s) => match *stmt {
                Statement::MkRef(d, x) => s == Statement::MkRef(
                    VarRenamer::renamed(d, old(rnm).offset),
                    VarRenamer::renamed(x, old(rnm).offset),
                ),
                Statement::Store(d, x) => s == Statement::Store(
                    VarRenamer::renamed(d, old(rnm).offset),
                    VarRenamer::renamed(x, old(rnm).offset),
                ),
                Statement::BinaryOp { dest, op, opnd1, opnd2, checked } => s
                    == (Statement::BinaryOp {
                    dest: VarRenamer::renamed(dest, old(rnm).offset),
                    op,
                    opnd1: VarRenamer::renamed(opnd1, old(rnm).offset),
                    opnd2: VarRenamer::renamed(opnd2, old(rnm).offset),
                    checked,
                }),
                Statement::Nop => s is Nop,
                Statement::Debug(_) => s is Debug,
                Statement::StorageDead(_) => false,
                Statement::Call(..) => false,
                Statement::Enter(..) => false,
                Statement::Leave => false,
                _ => s is Unimplemented,
            },
            Err(e) => e is Malformed,
        },
        r matches Ok(s) ==> stmt_view(s) == renamed_stmt(*stmt, old(rnm).offset) && !(s
            is StorageDead),
        r is Ok ==> final(rnm).local_decls@ == noted_stmt(
            old(rnm).local_decls@,
            *stmt,
            old(rnm).offset,
            decls@,
        ),
        r is Ok <==> movable_stmt(*stmt, old(rnm).offset, decls@),
{
    match stmt {
        Statement::MkRef(dest, src) => {
            let d = match rename(rnm, dest, decls) {
                Ok(p) => p,
                Err(e) => {
                    return Err(e);
                },
            };
            let s = match rename(rnm, src, decls) {
                Ok(p) => p,
                Err(e) => {
                    return Err(e);
                },
            };
            Ok(Statement::MkRef(d, s))
        },
        Statement::Store(dest, src) => {
            let d = match rename(rnm, dest, decls) {
                Ok(p) => p,
                Err(e) => {
                    return Err(e);
                },
            };
            let s = match rename(rnm, src, decls) {
                Ok(p) => p,
                Err(e) => {
                    return Err(e);
                },
            };
            Ok(Statement::Store(d, s))
        },
        Statement::BinaryOp { dest, op, opnd1, opnd2, checked } => {
            let d = match rename(rnm, dest, decls) {
                Ok(p) => p,
                Err(e) => {
                    return Err(e);
                },
            };
            let a = match rename(rnm, opnd1, decls) {
                Ok(p) => p,
                Err(e) => {
                    return Err(e);
                },
            };
            let b = match rename(rnm, opnd2, decls) {
                Ok(p) => p,
                Err(e) => {
                    return Err(e);
                },
            };
            Ok(Statement::BinaryOp { dest: d, op: *op, opnd1: a, opnd2: b, checked: *checked })
        },
        Statement::Nop => Ok(Statement::Nop),
        Statement::Debug(s) => Ok(Statement::Debug(s.clone())),
        Statement::StorageDead(_) | Statement::Call(..) | Statement::Enter(..) | Statement::Leave => {
            Err(InvalidTraceError::Malformed)
        },
        _ => Ok(Statement::Unimplemented),
    }
}

/// Does `live` hold as defined the argument of the interpreter's step
/// function and the local variables that the operations `body` define?
pub open spec fn tracks(live: &Liveness, body: Seq<OpView>) -> bool {
    forall|l: u32| #[trigger]
        live.spec_is_defined(l) <==> (l == INTERP_STEP_ARG || defined_in(body, l))
}

/// What is defined after one more operation.
pub proof fn lemma_defined_push(body: Seq<OpView>, op: OpView, l: u32)
    ensures
        defined_in(body.push(op), l) <==> defined_in(body, l) || (op matches OpView::Stmt(v)
            && defines_v(v, l)),
{
    let more = body.push(op);
    if defined_in(body, l) {
        let k = choose|k: int|
            0 <= k < body.len() && (#[trigger] body[k] matches OpView::Stmt(v) && defines_v(v, l));
        assert(more[k] == body[k]);
    }
    if op matches OpView::Stmt(v) && defines_v(v, l) {
        assert(more[body.len() as int] == op);
    }
    if defined_in(more, l) {
        let k = choose|k: int|
            0 <= k < more.len() && (#[trigger] more[k] matches OpView::Stmt(v) && defines_v(v, l));
        if k < body.len() {
            assert(body[k] == more[k]);
        }
    }
}

/// The first place that a statement cannot read is the same whether the
/// statement is looked at as it is or with its names and arguments as
/// sequences.
proof fn lemma_bad_view(live: &Liveness, body: Seq<OpView>, stmt: Statement, i: int)
    requires
        tracks(live, body),
        0 <= i <= stmt_srcs(stmt).len(),
        !(stmt is StorageDead),
    ensures
        stmt_srcs(stmt) == srcs_v(stmt_view(stmt)),
        stmt_dest(stmt) == dest_v(stmt_view(stmt)),
        live.first_bad(stmt, i) == first_bad_v(body, stmt_view(stmt), i),
        forall|l: u32| live.usable(stmt, l) == usable_v(body, stmt_view(stmt), l),
    decreases stmt_srcs(stmt).len() - i,
{
    assert forall|l: u32| live.usable(stmt, l) == usable_v(body, stmt_view(stmt), l) by {
        assert(live.spec_is_defined(l) <==> (l == INTERP_STEP_ARG || defined_in(body, l)));
    }
    if i < stmt_srcs(stmt).len() {
        lemma_bad_view(live, body, stmt, i + 1);
    }
}

/// Add the statement `stmt` to the operations, and note what it defines and
/// uses.
fn push_statement(ops: &mut Vec<TirOp>, live: &mut Liveness, stmt: Statement) -> (r: Result<
    (),
    InvalidTraceError,
>)
    requires
        old(live).wf(),
    ensures
        final(live).wf(),
        match r {
            Ok(()) => final(ops)@ == old(ops)@.push(TirOp::Statement(stmt)),
            Err(e) => e is UndefinedLocal && final(ops)@ == old(ops)@,
        },
        guards_of(final(ops)@) == guards_of(old(ops)@),
        r is Ok && !(stmt is StorageDead) ==> body_of(final(ops)@) == body_of(old(ops)@).push(
            OpView::Stmt(stmt_view(stmt)),
        ),
        r is Ok && !(stmt is StorageDead) && deathless(old(ops)@) ==> deathless(final(ops)@),
        !(stmt is StorageDead) && tracks(old(live), body_of(old(ops)@)) ==> match r {
            Ok(()) => note_v(body_of(old(ops)@), stmt_view(stmt)) is None && tracks(
                final(live),
                body_of(final(ops)@),
            ),
            Err(e) => note_v(body_of(old(ops)@), stmt_view(stmt)) matches Some(l) && fault_of(e)
                == TraceFault::UndefinedLocal(l),
        },
        r is Ok && old(live).last_use@ == lu_of(old(ops)@) ==> final(live).last_use@ == lu_of(
            final(ops)@,
        ),
{
    proof {
        lemma_guards_push(ops@, TirOp::Statement(stmt));
        lemma_body_push(ops@, TirOp::Statement(stmt));
    }
    let ghost before = *live;
    proof {
        if !(stmt is StorageDead) && tracks(live, body_of(ops@)) {
            lemma_bad_view(live, body_of(ops@), stmt, 0);
            assert forall|l: u32|
                defined_in(body_of(ops@).push(OpView::Stmt(stmt_view(stmt))), l) <==> defined_in(
                    body_of(ops@),
                    l,
                ) || defines_v(stmt_view(stmt), l) by {
                lemma_defined_push(body_of(ops@), OpView::Stmt(stmt_view(stmt)), l);
            }
        }
    }
    proof {
        if !(stmt is StorageDead) && tracks(live, body_of(ops@)) {
            assert(live.spec_note(stmt) == note_v(body_of(ops@), stmt_view(stmt)));
        }
    }
    match live.note(&stmt, ops.len()) {
        Some(l) => Err(InvalidTraceError::UndefinedLocal(l)),
        None => {
            proof {
                if !(stmt is StorageDead) && tracks(&before, body_of(ops@)) {
                    let more = body_of(ops@).push(OpView::Stmt(stmt_view(stmt)));
                    assert forall|l: u32| #[trigger]
                        live.spec_is_defined(l) <==> (l == INTERP_STEP_ARG || defined_in(more, l)) by {
                        lemma_defined_push(body_of(ops@), OpView::Stmt(stmt_view(stmt)), l);
                        assert(before.spec_is_defined(l) <==> (l == INTERP_STEP_ARG || defined_in(
                            body_of(ops@),
                            l,
                        )));
                        assert((crate::tir::defined_by(stmt) == Some(l)) == defines_v(
                            stmt_view(stmt),
                            l,
                        ));
                    }
                }
                assert(ops@.push(TirOp::Statement(stmt)).drop_last() =~= ops@);
            }
            ops.push(TirOp::Statement(stmt));
            Ok(())
        },
    }
}

/// A copy of the places `v`.
fn copy_places(v: &Vec<IRPlace>) -> (r: Vec<IRPlace>)
    ensures
        r@ == v@,
{
    let mut r: Vec<IRPlace> = Vec::new();
    let mut i: usize = 0;
    while i < v.len()
        invariant
            i <= v@.len(),
            r@ == v@.subrange(0, i as int),
        decreases v@.len() - i,
    {
        r.push(v[i]);
        proof {
            assert(r@ =~= v@.subrange(0, i + 1));
        }
        i = i + 1;
    }
    proof {
        assert(v@.subrange(0, v@.len() as int) =~= v@);
    }
    r
}

/// Where a trace is as it is followed through its blocks.
pub struct Ctl {
    /// The function that is not traced, while the trace is in it.
    pub ignore: Option<Seq<char>>,
    /// Is the trace inside the interpreter's step function?
    pub inside: bool,
}

/// The value and the demand of each guard among the operations `ops`, in
/// order.
pub open spec fn guards_of(ops: Seq<TirOp>) -> Seq<(IRPlace, Demand)>
    decreases ops.len(),
{
    if ops.len() == 0 {
        Seq::empty()
    } else {
        let rest = guards_of(ops.drop_last());
        match ops.last() {
            TirOp::Guard(g) => rest.push((g.val, g.demand())),
            TirOp::Statement(_) => rest,
        }
    }
}

/// A statement at the end of the operations adds no guard.
pub proof fn lemma_guards_push(ops: Seq<TirOp>, op: TirOp)
    ensures
        guards_of(ops.push(op)) == match op {
            TirOp::Guard(g) => guards_of(ops).push((g.val, g.demand())),
            TirOp::Statement(_) => guards_of(ops),
        },
{
    assert(ops.push(op).drop_last() =~= ops);
}

/// A statement among the operations adds no guard.
pub proof fn lemma_guards_insert(ops: Seq<TirOp>, i: int, stmt: Statement)
    requires
        0 <= i <= ops.len(),
    ensures
        guards_of(ops.insert(i, TirOp::Statement(stmt))) == guards_of(ops),
    decreases ops.len(),
{
    let with = ops.insert(i, TirOp::Statement(stmt));
    if i == ops.len() {
        assert(with =~= ops.push(TirOp::Statement(stmt)));
        lemma_guards_push(ops, TirOp::Statement(stmt));
    } else {
        assert(with.drop_last() =~= ops.drop_last().insert(i, TirOp::Statement(stmt)));
        assert(with.last() == ops.last());
        lemma_guards_insert(ops.drop_last(), i, stmt);
    }
}

/// The operations `ops` but for the deaths of local variables, in order.
pub open spec fn body_of(ops: Seq<TirOp>) -> Seq<OpView>
    decreases ops.len(),
{
    if ops.len() == 0 {
        Seq::empty()
    } else {
        let rest = body_of(ops.drop_last());
        match ops.last() {
            TirOp::Guard(g) => rest.push(OpView::Guard(g.val, g.demand())),
            TirOp::Statement(Statement::StorageDead(_)) => rest,
            TirOp::Statement(s) => rest.push(OpView::Stmt(stmt_view(s))),
        }
    }
}

/// What an operation at the end of the operations adds to them.
pub proof fn lemma_body_push(ops: Seq<TirOp>, op: TirOp)
    ensures
        body_of(ops.push(op)) == match op {
            TirOp::Guard(g) => body_of(ops).push(OpView::Guard(g.val, g.demand())),
            TirOp::Statement(Statement::StorageDead(_)) => body_of(ops),
            TirOp::Statement(s) => body_of(ops).push(OpView::Stmt(stmt_view(s))),
        },
{
    assert(ops.push(op).drop_last() =~= ops);
}

/// The death of a local variable adds nothing to the other operations.
pub proof fn lemma_body_insert(ops: Seq<TirOp>, i: int, l: Local)
    requires
        0 <= i <= ops.len(),
    ensures
        body_of(ops.insert(i, TirOp::Statement(Statement::StorageDead(l)))) == body_of(ops),
    decreases ops.len(),
{
    let dead = TirOp::Statement(Statement::StorageDead(l));
    let with = ops.insert(i, dead);
    if i == ops.len() {
        assert(with =~= ops.push(dead));
        lemma_body_push(ops, dead);
    } else {
        assert(with.drop_last() =~= ops.drop_last().insert(i, dead));
        assert(with.last() == ops.last());
        lemma_body_insert(ops.drop_last(), i, l);
    }
}

/// For each local variable that the operations `ops` use, in the order in
/// which the variables are used first, the index of the operation that uses
/// it last. Guards are not counted.
pub open spec fn lu_of(ops: Seq<TirOp>) -> Seq<(u32, usize)>
    decreases ops.len(),
{
    if ops.len() == 0 {
        Seq::empty()
    } else {
        let prev = lu_of(ops.drop_last());
        match ops.last() {
            TirOp::Statement(st) => noted_uses(prev, st, (ops.len() - 1) as usize),
            TirOp::Guard(_) => prev,
        }
    }
}

/// Is none of the operations `ops` the death of a local variable?
pub open spec fn deathless(ops: Seq<TirOp>) -> bool {
    forall|k: int| 0 <= k < ops.len() ==> !(#[trigger] ops[k] matches TirOp::Statement(
        Statement::StorageDead(_),
    ))
}

/// The operations `ops` with the deaths of the local variables that were
/// used last by the operation of index `site`, from the entry of index `k`
/// of `lu` on: each stands right behind the operation.
pub open spec fn deaths_at(ops: Seq<TirOp>, lu: Seq<(u32, usize)>, site: int, k: int) -> Seq<TirOp>
    decreases lu.len() - k,
{
    if k < 0 || k >= lu.len() {
        ops
    } else {
        deaths_at(
            if lu[k].1 == site && site < ops.len() {
                ops.insert(site + 1, TirOp::Statement(Statement::StorageDead(Local(lu[k].0))))
            } else {
                ops
            },
            lu,
            site,
            k + 1,
        )
    }
}

/// The operations `ops` with the deaths of the local variables that were
/// used last by an operation of an index below `site`, where `lu` names
/// each local variable that is used with the index of the operation that
/// uses it last.
pub open spec fn with_deaths(ops: Seq<TirOp>, lu: Seq<(u32, usize)>, site: int) -> Seq<TirOp>
    decreases site,
{
    if site <= 0 {
        ops
    } else {
        with_deaths(deaths_at(ops, lu, site - 1, 0), lu, site - 1)
    }
}

/// How far the local variables have been renamed apart.
pub struct Rn {
    /// The offset in use.
    pub offset: u32,
    /// The offsets of the calls that have been entered and not left.
    pub stack: Seq<u32>,
    /// The number of variables that are taken.
    pub acc: Option<u32>,
    /// Where the calls that have been entered and not left want what they
    /// return.
    pub rets: Seq<IRPlace>,
    /// What is known of each renamed local variable.
    pub known: Map<u32, LocalDecl>,
}

/// The statement `st` of a block as a statement of a trace, with its local
/// variables moved up by `off`.
pub open spec fn renamed_stmt(st: Statement, off: u32) -> StmtView {
    match st {
        Statement::MkRef(d, x) => StmtView::MkRef(
            VarRenamer::renamed(d, off),
            VarRenamer::renamed(x, off),
        ),
        Statement::Store(d, x) => StmtView::Store(
            VarRenamer::renamed(d, off),
            VarRenamer::renamed(x, off),
        ),
        Statement::BinaryOp { dest, op, opnd1, opnd2, checked } => StmtView::BinaryOp {
            dest: VarRenamer::renamed(dest, off),
            op,
            opnd1: VarRenamer::renamed(opnd1, off),
            opnd2: VarRenamer::renamed(opnd2, off),
            checked,
        },
        Statement::Nop => StmtView::Nop,
        Statement::Debug(t) => StmtView::Debug(t@),
        _ => StmtView::Other,
    }
}

/// What is known of the renamed local variables once the statement `st` of
/// a block has been renamed: what the function's `decls` say of the local
/// variables that the statement names is known of them under their new
/// names.
pub open spec fn noted_stmt(known: Map<u32, LocalDecl>, st: Statement, off: u32, decls: Seq<
    LocalDecl,
>) -> Map<u32, LocalDecl> {
    match st {
        Statement::MkRef(d, x) => VarRenamer::noted_place(
            VarRenamer::noted_place(known, d, off, decls),
            x,
            off,
            decls,
        ),
        Statement::Store(d, x) => VarRenamer::noted_place(
            VarRenamer::noted_place(known, d, off, decls),
            x,
            off,
            decls,
        ),
        Statement::BinaryOp { dest, opnd1, opnd2, .. } => VarRenamer::noted_place(
            VarRenamer::noted_place(VarRenamer::noted_place(known, dest, off, decls), opnd1, off, decls),
            opnd2,
            off,
            decls,
        ),
        _ => known,
    }
}

/// What is known of the renamed local variables once the statements
/// `stmts` of a block have been renamed.
pub open spec fn noted_stmts(known: Map<u32, LocalDecl>, stmts: Seq<Statement>, off: u32, decls: Seq<
    LocalDecl,
>) -> Map<u32, LocalDecl>
    decreases stmts.len(),
{
    if stmts.len() == 0 {
        known
    } else {
        noted_stmt(noted_stmts(known, stmts.drop_last(), off, decls), stmts.last(), off, decls)
    }
}

/// What is known of the renamed local variables once the first `n`
/// arguments of an inlined call have been handed over: what the callee's
/// `decls` say of its first local variables, after the one that it returns,
/// is known of them under their new names.
pub open spec fn noted_params(known: Map<u32, LocalDecl>, a: u32, decls: Seq<LocalDecl>, n: int) -> Map<
    u32,
    LocalDecl,
>
    decreases n,
{
    if n <= 0 {
        known
    } else {
        noted_params(known, a, decls, n - 1).insert((n + a) as u32, decls[n])
    }
}

/// The statements `stmts` of a block as operations of a trace, with their
/// local variables moved up by `off`.
pub open spec fn block_stmts(stmts: Seq<Statement>, off: u32) -> Seq<OpView>
    decreases stmts.len(),
{
    if stmts.len() == 0 {
        Seq::empty()
    } else {
        block_stmts(stmts.drop_last(), off).push(OpView::Stmt(renamed_stmt(stmts.last(), off)))
    }
}

/// Can the statement `st` of a block become a statement of a trace, with
/// its local variables moved up by `off`: is it no statement that only
/// traces have, and can its local variables be moved up?
pub open spec fn movable_stmt(st: Statement, off: u32, decls: Seq<LocalDecl>) -> bool {
    match st {
        Statement::MkRef(d, x) => VarRenamer::movable(d, off, decls) && VarRenamer::movable(
            x,
            off,
            decls,
        ),
        Statement::Store(d, x) => VarRenamer::movable(d, off, decls) && VarRenamer::movable(
            x,
            off,
            decls,
        ),
        Statement::BinaryOp { dest, opnd1, opnd2, .. } => VarRenamer::movable(dest, off, decls)
            && VarRenamer::movable(opnd1, off, decls) && VarRenamer::movable(opnd2, off, decls),
        Statement::StorageDead(_) => false,
        Statement::Call(..) => false,
        Statement::Enter(..) => false,
        Statement::Leave => false,
        _ => true,
    }
}

/// Why the statements `stmts` of a block, from the one of index `k` on,
/// cannot join the operations `body`, if they cannot: the first that
/// cannot become a statement of a trace makes the trace malformed; the
/// first that uses a local variable that it cannot use leaves that
/// variable undefined.
pub open spec fn stmts_fault(body: Seq<OpView>, stmts: Seq<Statement>, off: u32, decls: Seq<
    LocalDecl,
>, k: int) -> Option<TraceFault>
    decreases stmts.len() - k,
{
    if k < 0 || k >= stmts.len() {
        None
    } else if !movable_stmt(stmts[k], off, decls) {
        Some(TraceFault::Malformed)
    } else {
        match note_v(body + block_stmts(stmts.subrange(0, k), off), renamed_stmt(stmts[k], off)) {
            Some(l) => Some(TraceFault::UndefinedLocal(l)),
            None => stmts_fault(body, stmts, off, decls, k + 1),
        }
    }
}

/// The store that hands the argument of index `j` of `args` to an inlined
/// call whose local variables start at `a`.
pub open spec fn arg_store(args: Seq<IRPlace>, a: u32, j: int) -> StmtView {
    StmtView::Store(
        IRPlace::Val { local: Local((j + 1 + a) as u32), off: 0, ty: args[j].spec_ty().unwrap() },
        args[j],
    )
}

/// Why the arguments `args`, from the one of index `j` on, cannot be handed
/// to an inlined call whose `n` local variables start at `a`, if they
/// cannot, after the operations `body`: the callee has no local variable
/// for an argument, or no number is left for it, or the argument has no
/// type; or the argument is undefined.
pub open spec fn params_fault(body: Seq<OpView>, args: Seq<IRPlace>, a: u32, n: int, j: int) -> Option<
    TraceFault,
>
    decreases args.len() - j,
{
    if j < 0 || j >= args.len() {
        None
    } else if j + 1 >= n || j + 1 > u32::MAX - a || args[j].spec_ty() is None {
        Some(TraceFault::Malformed)
    } else {
        match note_v(body + arg_stores(args, a, j), arg_store(args, a, j)) {
            Some(l) => Some(TraceFault::UndefinedLocal(l)),
            None => params_fault(body, args, a, n, j + 1),
        }
    }
}

/// The stores that hand the first `n` of the arguments `args` to an
/// inlined call whose local variables start at `a`: the arguments become
/// the first local variables of the callee, after the one that it returns.
pub open spec fn arg_stores(args: Seq<IRPlace>, a: u32, n: int) -> Seq<OpView>
    decreases n,
{
    if n <= 0 {
        Seq::empty()
    } else {
        arg_stores(args, a, n - 1).push(OpView::Stmt(arg_store(args, a, n - 1)))
    }
}

/// The functions that the blocks `trace` enter, in order: the symbol name
/// and the address of each block that is the first of its function.
pub open spec fn entries(trace: Seq<SirLoc>) -> Seq<(Seq<char>, u64)>
    decreases trace.len(),
{
    if trace.len() == 0 {
        Seq::empty()
    } else {
        let rest = entries(trace.drop_last());
        let loc = trace.last();
        if loc.bb_idx == 0 && loc.addr is Some {
            rest.push((loc.symbol_name@, loc.addr.unwrap()))
        } else {
            rest
        }
    }
}

/// The symbol names and addresses `m` with the names as sequences of
/// characters.
pub open spec fn addr_views(m: Seq<(String, u64)>) -> Seq<(Seq<char>, u64)> {
    Seq::new(m.len(), |k: int| (m[k].0@, m[k].1))
}

impl TirTrace {
    /// Is the block `loc` a block of a function of the program, with its
    /// address if it is the first of its function?
    pub open spec fn known(sir: &Sir, loc: SirLoc) -> bool {
        &&& sir.spec_body(loc.symbol_name@, 0) matches Some(b)
        &&& sir.bodies@[b as int].local_decls@.len() <= u32::MAX
        &&& loc.bb_idx < sir.bodies@[b as int].blocks@.len()
        &&& loc.bb_idx == 0 ==> loc.addr is Some
    }

    /// Does the block `loc` end in a call of the interpreter's step
    /// function?
    pub open spec fn enters_step(sir: &Sir, loc: SirLoc) -> bool {
        match sir.spec_body(loc.symbol_name@, 0) {
            Some(b) => loc.bb_idx < sir.bodies@[b as int].blocks@.len()
                && match sir.bodies@[b as int].blocks@[loc.bb_idx as int].term {
                Terminator::Call { operand: CallOperand::Fn(s), .. } => match sir.spec_body(s@, 0) {
                    Some(cb) => sir.bodies@[cb as int].flags & BODY_INTERP_STEP != 0,
                    None => false,
                },
                _ => false,
            },
            None => false,
        }
    }

    /// The terminator of the block `loc`, which is known.
    pub open spec fn term_of(sir: &Sir, loc: SirLoc) -> Terminator {
        sir.bodies@[sir.spec_body(loc.symbol_name@, 0).unwrap() as int].blocks@[loc.bb_idx as int].term
    }

    /// Where the trace is after the block `loc`, which is known, if it is
    /// at `c` before it. A function that is not to be traced is passed
    /// over from its call to its return. What is traced starts with the
    /// call of the interpreter's step function and ends with the return
    /// from it.
    pub open spec fn ctl_after(sir: &Sir, loc: SirLoc, c: Ctl) -> Ctl {
        let body = sir.bodies@[sir.spec_body(loc.symbol_name@, 0).unwrap() as int];
        let term = Self::term_of(sir, loc);
        match c.ignore {
            Some(sym) => if sym == loc.symbol_name@ && term is Return {
                Ctl { ignore: None, ..c }
            } else {
                c
            },
            None => if Self::enters_step(sir, loc) {
                Ctl { inside: true, ..c }
            } else if !c.inside {
                c
            } else {
                match term {
                    Terminator::Call { operand: CallOperand::Fn(s), .. } => match sir.spec_body(
                        s@,
                        0,
                    ) {
                        Some(cb) => if sir.bodies@[cb as int].flags & BODY_DO_NOT_TRACE != 0 {
                            Ctl { ignore: Some(s@), ..c }
                        } else {
                            c
                        },
                        None => c,
                    },
                    Terminator::Return => if body.flags & BODY_INTERP_STEP != 0 {
                        Ctl { inside: false, ..c }
                    } else {
                        c
                    },
                    _ => c,
                }
            },
        }
    }

    /// Is the block `loc` traced, when the trace is at `c` before it: is
    /// it inside the interpreter's step function and in no function that
    /// is passed over?
    pub open spec fn traced(sir: &Sir, loc: SirLoc, c: Ctl) -> bool {
        c.ignore is None && c.inside && !Self::enters_step(sir, loc)
    }

    /// Where the trace `trace`, whose blocks are known, is before its
    /// block of index `i`, and the guards up to there: each traced block
    /// that ends in a switch or an assertion has its guard, which says how
    /// the trace went on.
    pub open spec fn walk(sir: &Sir, trace: Seq<SirLoc>, i: int) -> (Ctl, Seq<(IRPlace, Demand)>)
        decreases i,
    {
        if i <= 0 {
            (Ctl { ignore: None, inside: false }, Seq::empty())
        } else {
            let (c, gs) = Self::walk(sir, trace, i - 1);
            let loc = trace[i - 1];
            let next = if i < trace.len() {
                Some(trace[i].bb_idx)
            } else {
                None
            };
            (
                Self::ctl_after(sir, loc, c),
                if Self::traced(sir, loc, c) {
                    match spec_guard_for(Self::term_of(sir, loc), next) {
                        Ok(Some(g)) => gs.push(g),
                        _ => gs,
                    }
                } else {
                    gs
                },
            )
        }
    }

    /// What the block `loc`, which is known, adds to the trace, and how
    /// far the local variables are renamed apart after it, if the trace is
    /// at `c` and they are at `rn` before it, and the trace goes on in the
    /// block `next`.
    ///
    /// A traced block adds its statements; what its terminator asks for;
    /// and its guard, if it needs one. A call adds itself, unless it is
    /// inlined: then it adds the entry to the call, whose local variables
    /// start where those taken so far end, and the stores that hand over
    /// the arguments. A return from an inlined call adds the store of what
    /// is returned to where the call wanted it, and the exit from the call.
    pub open spec fn block_ops(sir: &Sir, loc: SirLoc, next: Option<BasicBlockIndex>, c: Ctl, rn: Rn) -> (
        Rn,
        Seq<OpView>,
    ) {
        let body = sir.bodies@[sir.spec_body(loc.symbol_name@, 0).unwrap() as int];
        let block = body.blocks@[loc.bb_idx as int];
        let rn0 = Rn {
            acc: Some(
                match rn.acc {
                    Some(a) => a,
                    None => body.local_decls@.len() as u32,
                },
            ),
            ..rn
        };
        if !Self::traced(sir, loc, c) {
            (rn0, Seq::empty())
        } else {
            let stmts = block_stmts(block.stmts@, rn0.offset);
            let rn0 = Rn {
                known: noted_stmts(rn0.known, block.stmts@, rn0.offset, body.local_decls@),
                ..rn0
            };
            let (rn1, asked) = match block.term {
                Terminator::Call { operand, args, destination } => {
                    let ret = VarRenamer::renamed(destination.unwrap().0, rn0.offset);
                    let known = VarRenamer::noted_places(
                        VarRenamer::noted_place(
                            rn0.known,
                            destination.unwrap().0,
                            rn0.offset,
                            body.local_decls@,
                        ),
                        args@,
                        rn0.offset,
                        body.local_decls@,
                        args@.len() as int,
                    );
                    let newargs = Seq::new(
                        args@.len(),
                        |i: int| VarRenamer::renamed(args@[i], rn0.offset),
                    );
                    let inlined = match operand {
                        CallOperand::Fn(s) => match sir.spec_body(s@, 0) {
                            Some(cb) => if sir.bodies@[cb as int].flags & BODY_DO_NOT_TRACE != 0 {
                                None
                            } else {
                                Some(cb)
                            },
                            None => None,
                        },
                        CallOperand::Unknown => None,
                    };
                    match inlined {
                        None => (
                            Rn { rets: rn0.rets.push(ret), known, ..rn0 },
                            seq![OpView::Stmt(StmtView::Call(callee_view(operand), newargs, Some(ret)))],
                        ),
                        Some(cb) => {
                            let a = rn0.acc.unwrap();
                            (
                                Rn {
                                    offset: a,
                                    stack: rn0.stack.push(a),
                                    acc: Some((a + sir.bodies@[cb as int].local_decls@.len()) as u32),
                                    rets: rn0.rets.push(ret),
                                    known: noted_params(
                                        known,
                                        a,
                                        sir.bodies@[cb as int].local_decls@,
                                        newargs.len() as int,
                                    ),
                                },
                                seq![
                                    OpView::Stmt(
                                        StmtView::Enter(callee_view(operand), newargs, Some(ret), a),
                                    ),
                                ] + arg_stores(newargs, a, newargs.len() as int),
                            )
                        },
                    }
                },
                Terminator::Return => if body.flags & BODY_INTERP_STEP != 0 {
                    (rn0, Seq::empty())
                } else {
                    let dest = rn0.rets.last();
                    let src = VarRenamer::renamed(
                        IRPlace::Val {
                            local: Local(RETURN_LOCAL),
                            off: 0,
                            ty: dest.spec_ty().unwrap(),
                        },
                        rn0.offset,
                    );
                    (
                        Rn {
                            offset: rn0.stack[rn0.stack.len() - 2],
                            stack: rn0.stack.drop_last(),
                            rets: rn0.rets.drop_last(),
                            known: rn0.known.insert(
                                (RETURN_LOCAL + rn0.offset) as u32,
                                body.local_decls@[RETURN_LOCAL as int],
                            ),
                            ..rn0
                        },
                        seq![OpView::Stmt(StmtView::Store(dest, src)), OpView::Stmt(StmtView::Leave)],
                    )
                },
                _ => (rn0, Seq::empty()),
            };
            let guard = match spec_guard_for(block.term, next) {
                Ok(Some((v, d))) => seq![OpView::Guard(v, d)],
                _ => Seq::empty(),
            };
            (rn1, stmts + asked + guard)
        }
    }

    /// Why the block `loc` cannot join the trace, if it cannot, where the
    /// trace is at `c`, the local variables are renamed apart as far as
    /// `rn`, and the operations are `ops` before it, and the trace goes on
    /// in the block `next`.
    ///
    /// A block must be known. A traced block must not call the
    /// interpreter's step function again; its statements must be able to
    /// join the trace; what its terminator asks for must be there: a call
    /// has a destination, a callee and arguments that can be renamed, and,
    /// if it is inlined, its callee has a local variable for each argument;
    /// a return has a call to return to; and the statements that stand for
    /// the terminator use no local variable that is undefined. Last, the
    /// guard of the block must be had.
    pub open spec fn block_fault(
        sir: &Sir,
        loc: SirLoc,
        next: Option<BasicBlockIndex>,
        c: Ctl,
        rn: Rn,
        ops: Seq<OpView>,
    ) -> Option<TraceFault> {
        if sir.spec_body(loc.symbol_name@, 0) is None {
            Some(TraceFault::NoSir(loc.symbol_name@))
        } else if !Self::known(sir, loc) {
            Some(TraceFault::Malformed)
        } else if c.ignore is Some {
            None
        } else {
            let body = sir.bodies@[sir.spec_body(loc.symbol_name@, 0).unwrap() as int];
            let block = body.blocks@[loc.bb_idx as int];
            let decls = body.local_decls@;
            let off = rn.offset;
            let acc = match rn.acc {
                Some(a) => a,
                None => decls.len() as u32,
            };
            let sf = if c.inside {
                stmts_fault(ops, block.stmts@, off, decls, 0)
            } else {
                None
            };
            if sf is Some {
                sf
            } else if Self::enters_step(sir, loc) {
                if c.inside {
                    Some(TraceFault::Malformed)
                } else {
                    None
                }
            } else if !c.inside {
                None
            } else {
                let ops1 = ops + block_stmts(block.stmts@, off);
                let tf = match block.term {
                    Terminator::Call { operand, args, destination } => {
                        if destination is None || !VarRenamer::movable(
                            destination.unwrap().0,
                            off,
                            decls,
                        ) || operand is Unknown || exists|i: int|
                            0 <= i < args@.len() && !VarRenamer::movable(
                                #[trigger] args@[i],
                                off,
                                decls,
                            ) {
                            Some(TraceFault::Malformed)
                        } else {
                            let ret = VarRenamer::renamed(destination.unwrap().0, off);
                            let newargs = Seq::new(
                                args@.len(),
                                |i: int| VarRenamer::renamed(args@[i], off),
                            );
                            let inlined = match sir.spec_body(operand->Fn_0@, 0) {
                                Some(cb) => if sir.bodies@[cb as int].flags & BODY_DO_NOT_TRACE != 0 {
                                    None
                                } else {
                                    Some(cb)
                                },
                                None => None,
                            };
                            match inlined {
                                None => match note_v(
                                    ops1,
                                    StmtView::Call(callee_view(operand), newargs, Some(ret)),
                                ) {
                                    Some(l) => Some(TraceFault::UndefinedLocal(l)),
                                    None => None,
                                },
                                Some(cb) => {
                                    let n = sir.bodies@[cb as int].local_decls@.len();
                                    let enter = StmtView::Enter(
                                        callee_view(operand),
                                        newargs,
                                        Some(ret),
                                        acc,
                                    );
                                    if n > u32::MAX - acc {
                                        Some(TraceFault::Malformed)
                                    } else {
                                        match note_v(ops1, enter) {
                                            Some(l) => Some(TraceFault::UndefinedLocal(l)),
                                            None => params_fault(
                                                ops1.push(OpView::Stmt(enter)),
                                                newargs,
                                                acc,
                                                n as int,
                                                0,
                                            ),
                                        }
                                    }
                                },
                            }
                        }
                    },
                    Terminator::Return => if body.flags & BODY_INTERP_STEP != 0 {
                        None
                    } else if rn.rets.len() == 0 || rn.rets.last().spec_ty() is None
                        || !VarRenamer::movable(
                        IRPlace::Val {
                            local: Local(RETURN_LOCAL),
                            off: 0,
                            ty: rn.rets.last().spec_ty().unwrap(),
                        },
                        off,
                        decls,
                    ) || rn.stack.len() < 2 {
                        Some(TraceFault::Malformed)
                    } else {
                        match note_v(
                            ops1,
                            StmtView::Store(
                                rn.rets.last(),
                                VarRenamer::renamed(
                                    IRPlace::Val {
                                        local: Local(RETURN_LOCAL),
                                        off: 0,
                                        ty: rn.rets.last().spec_ty().unwrap(),
                                    },
                                    off,
                                ),
                            ),
                        ) {
                            Some(l) => Some(TraceFault::UndefinedLocal(l)),
                            None => None,
                        }
                    },
                    _ => None,
                };
                if tf is Some {
                    tf
                } else {
                    match spec_guard_for(block.term, next) {
                        Err(crate::tir::GuardFault::Disconnected) => Some(TraceFault::Disconnected),
                        Err(crate::tir::GuardFault::Malformed) => Some(TraceFault::Malformed),
                        Ok(_) => None,
                    }
                }
            }
        }
    }

    /// Why the trace `trace` cannot be turned into a straight line from
    /// its block of index `i` on, if it cannot: why the first of its
    /// blocks that cannot join it cannot.
    pub open spec fn first_fault(sir: &Sir, trace: Seq<SirLoc>, i: int) -> Option<TraceFault>
        decreases trace.len() - i,
    {
        if i < 0 || i >= trace.len() {
            None
        } else {
            let next = if i + 1 < trace.len() {
                Some(trace[i + 1].bb_idx)
            } else {
                None
            };
            match Self::block_fault(
                sir,
                trace[i],
                next,
                Self::walk(sir, trace, i).0,
                Self::follow(sir, trace, i).0,
                Self::follow(sir, trace, i).1,
            ) {
                Some(f) => Some(f),
                None => Self::first_fault(sir, trace, i + 1),
            }
        }
    }

    /// The operations of the trace `trace`, whose blocks are known, up to
    /// its block of index `i`, but for the deaths of local variables; and
    /// how far the local variables are renamed apart there.
    pub open spec fn follow(sir: &Sir, trace: Seq<SirLoc>, i: int) -> (Rn, Seq<OpView>)
        decreases i,
    {
        if i <= 0 {
            (
                Rn {
                    offset: 0,
                    stack: seq![0u32],
                    acc: None,
                    rets: Seq::empty(),
                    known: Map::empty(),
                },
                Seq::empty(),
            )
        } else {
            let (rn, ops) = Self::follow(sir, trace, i - 1);
            let next = if i < trace.len() {
                Some(trace[i].bb_idx)
            } else {
                None
            };
            let (rn2, more) = Self::block_ops(
                sir,
                trace[i - 1],
                next,
                Self::walk(sir, trace, i - 1).0,
                rn,
            );
            (rn2, ops + more)
        }
    }

    /// Create a trace from the blocks `trace` that the program has run
    /// through.
    ///
    /// Only what happens between a call of the interpreter's step function
    /// and its return becomes part of the trace. Calls of functions of the
    /// program are inlined, with their local variables renamed apart,
    /// unless the function is marked as not to be traced. Where a block
    /// ends in a switch or an assertion, a guard notes which way the trace
    /// went. After its last use a local variable is declared dead.
    ///
    /// It is an error if the trace runs through a function of which the
    /// program has no representation, if it contradicts the program, if
    /// its blocks do not follow each other, or if it uses a local
    /// variable that is not defined: the first block that cannot join the
    /// trace decides the error.
    #[verifier::rlimit(100)]
    #[verifier::spinoff_prover]
    pub fn new(sir: &Sir, trace: &Vec<SirLoc>) -> (r: Result<Self, InvalidTraceError>)
        ensures
            r matches Ok(t) ==> {
                &&& forall|i: int| 0 <= i < trace@.len() ==> Self::known(sir, #[trigger] trace@[i])
                &&& addr_views(t.addr_map@) == entries(trace@)
                &&& guards_of(t.ops@) == Self::walk(sir, trace@, trace@.len() as int).1
                &&& t.local_decls@ == Self::follow(sir, trace@, trace@.len() as int).0.known
                &&& exists|traced: Seq<TirOp>|
                    {
                        &&& deathless(traced)
                        &&& body_of(traced) == Self::follow(sir, trace@, trace@.len() as int).1
                        &&& #[trigger] with_deaths(traced, lu_of(traced), traced.len() as int)
                            == t.ops@
                    }
            },
            // It is an error if a block cannot join the trace: the first
            // such block decides which.
            match Self::first_fault(sir, trace@, 0) {
                Some(f) => r matches Err(e) && fault_of(e) == f,
                None => r is Ok,
            },
    {
        let mut ops: Vec<TirOp> = Vec::new();
        let mut rnm = VarRenamer::new();
        // The function that is not traced, while the trace is in it.
        let mut ignore: Option<String> = None;
        let mut addr_map: Vec<(String, u64)> = Vec::new();
        let mut return_iplaces: Vec<IRPlace> = Vec::new();
        let mut live = Liveness::new();
        let mut in_interp_step = false;
        let mut idx: usize = 0;
        proof {
            assert forall|l: u32| #[trigger]
                live.spec_is_defined(l) <==> (l == INTERP_STEP_ARG || defined_in(body_of(ops@), l)) by {
                if live.spec_is_defined(l) {
                    let i = choose|i: int| 0 <= i < live.defined@.len() && #[trigger] live.defined@[i] == l;
                    assert(live.defined@[i] == INTERP_STEP_ARG);
                }
                if l == INTERP_STEP_ARG {
                    assert(live.defined@[0] == l);
                }
            }
        }
        while idx < trace.len()
            invariant
                idx <= trace@.len(),
                live.wf(),
                rnm.wf(),
                forall|i: int| 0 <= i < idx ==> Self::known(sir, #[trigger] trace@[i]),
                addr_views(addr_map@) == entries(trace@.subrange(0, idx as int)),
                Self::walk(sir, trace@, idx as int) == ((
                    Ctl {
                        ignore: match ignore {
                            Some(s) => Some(s@),
                            None => None,
                        },
                        inside: in_interp_step,
                    },
                    guards_of(ops@),
                )),
                Self::follow(sir, trace@, idx as int) == ((
                    Rn {
                        offset: rnm.offset,
                        stack: rnm.stack@,
                        acc: rnm.acc,
                        rets: return_iplaces@,
                        known: rnm.local_decls@,
                    },
                    body_of(ops@),
                )),
                deathless(ops@),
                live.last_use@ == lu_of(ops@),
                tracks(&live, body_of(ops@)),
                Self::first_fault(sir, trace@, idx as int) == Self::first_fault(sir, trace@, 0),
            decreases trace@.len() - idx,
        {
            let loc = &trace[idx];
            let ghost at = idx as int;
            let ghost f0 = Self::follow(sir, trace@, at);
            let ghost c0 = Self::walk(sir, trace@, at).0;
            let ghost start = body_of(ops@);
            let ghost nxt = if at + 1 < trace@.len() {
                Some(trace@[at + 1].bb_idx)
            } else {
                None
            };
            let ghost bf = Self::block_fault(sir, trace@[at], nxt, c0, f0.0, f0.1);
            let ghost all = Self::first_fault(sir, trace@, 0);
            proof {
                assert(all == (if bf is Some {
                    bf
                } else {
                    Self::first_fault(sir, trace@, at + 1)
                }));
                assert(trace@.subrange(0, idx + 1).drop_last() =~= trace@.subrange(0, idx as int));
                assert(trace@.subrange(0, idx + 1).last() == trace@[idx as int]);
            }
            idx = idx + 1;
            let body = match sir.body(&loc.symbol_name) {
                Some(b) => &sir.bodies[b],
                None => {
                    return Err(InvalidTraceError::NoSir(loc.symbol_name.clone()));
                },
            };
            if body.local_decls.len() > u32::MAX as usize {
                return Err(InvalidTraceError::Malformed);
            }
            rnm.init_acc(body.local_decls.len());
            let bb = loc.bb_idx as usize;
            if bb >= body.blocks.len() {
                return Err(InvalidTraceError::Malformed);
            }
            let block = &body.blocks[bb];
            // The address of a function is that of its first block.
            if bb == 0 {
                match loc.addr {
                    Some(a) => addr_map.push((loc.symbol_name.clone(), a)),
                    None => {
                        return Err(InvalidTraceError::Malformed);
                    },
                }
            }
            proof {
                assert(addr_views(addr_map@) =~= entries(trace@.subrange(0, idx as int)));
                assert(Self::known(sir, trace@[idx - 1]));
            }
            if let Some(sym) = &ignore {
                if *sym == loc.symbol_name {
                    if let Terminator::Return = block.term {
                        ignore = None;
                    }
                }
                continue ;
            }
            if in_interp_step {
                let mut k: usize = 0;
                let ghost gs0 = guards_of(ops@);
                let ghost b0 = body_of(ops@);
                let ghost rn0 = rnm;
                proof {
                    assert(block.stmts@.subrange(0, 0) =~= Seq::<Statement>::empty());
                    assert(b0 + block_stmts(Seq::<Statement>::empty(), rnm.offset) =~= b0);
                }
                while k < block.stmts.len()
                    invariant
                        k <= block.stmts@.len(),
                        live.wf(),
                        rnm.wf(),
                        guards_of(ops@) == gs0,
                        rnm.offset == rn0.offset,
                        rnm.stack == rn0.stack,
                        rnm.acc == rn0.acc,
                        body_of(ops@) == b0 + block_stmts(
                            block.stmts@.subrange(0, k as int),
                            rn0.offset,
                        ),
                        rnm.local_decls@ == noted_stmts(
                            rn0.local_decls@,
                            block.stmts@.subrange(0, k as int),
                            rn0.offset,
                            body.local_decls@,
                        ),
                        deathless(ops@),
                        live.last_use@ == lu_of(ops@),
                        tracks(&live, body_of(ops@)),
                        stmts_fault(b0, block.stmts@, rn0.offset, body.local_decls@, k as int)
                            == stmts_fault(b0, block.stmts@, rn0.offset, body.local_decls@, 0),
                        stmts_fault(b0, block.stmts@, rn0.offset, body.local_decls@, 0) matches Some(
                            f,
                        ) ==> all == Some(f),
                        all == Self::first_fault(sir, trace@, 0),
                    decreases block.stmts@.len() - k,
                {
                    proof {
                        assert(block.stmts@.subrange(0, k + 1).drop_last() =~= block.stmts@.subrange(
                            0,
                            k as int,
                        ));
                        assert(block.stmts@.subrange(0, k + 1).last() == block.stmts@[k as int]);
                    }
                    let op = match rename_statement(&mut rnm, &block.stmts[k], &body.local_decls) {
                        Ok(s) => s,
                        Err(e) => {
                            return Err(e);
                        },
                    };
                    let ghost v = OpView::Stmt(stmt_view(op));
                    proof {
                        assert((b0 + block_stmts(block.stmts@.subrange(0, k as int), rn0.offset)).push(v)
                            =~= b0 + block_stmts(block.stmts@.subrange(0, k + 1), rn0.offset));
                    }
                    match push_statement(&mut ops, &mut live, op) {
                        Ok(()) => {},
                        Err(e) => {
                            return Err(e);
                        },
                    }
                    k = k + 1;
                }
                proof {
                    assert(block.stmts@.subrange(0, block.stmts@.len() as int) =~= block.stmts@);
                }
            }
            if let Terminator::Call { operand, .. } = &block.term {
                if let Some(callee_sym) = operand.symbol() {
                    if let Some(cb) = sir.body(callee_sym) {
                        if sir.bodies[cb].flags & BODY_INTERP_STEP != 0 {
                            if in_interp_step {
                                return Err(InvalidTraceError::Malformed);
                            }
                            in_interp_step = true;
                            continue ;
                        }
                    }
                }
            }
            if !in_interp_step {
                continue ;
            }
            // A terminator becomes no statement, or some.
            match &block.term {
                Terminator::Call { operand, args, destination } => {
                    let ret_val = match destination {
                        Some((p, _)) => match rename(&mut rnm, p, &body.local_decls) {
                            Ok(p) => p,
                            Err(e) => {
                                return Err(e);
                            },
                        },
                        None => {
                            return Err(InvalidTraceError::Malformed);
                        },
                    };
                    return_iplaces.push(ret_val);
                    let callee_sym = match operand.symbol() {
                        Some(s) => s,
                        None => {
                            return Err(InvalidTraceError::Malformed);
                        },
                    };
                    let mut a: usize = 0;
                    while a < args.len()
                        invariant
                            a <= args@.len(),
                                (exists|i: int|
                                0 <= i < args@.len() && !VarRenamer::movable(
                                    #[trigger] args@[i],
                                    rnm.offset,
                                    body.local_decls@,
                                )) ==> all == Some(TraceFault::Malformed),
                            all == Self::first_fault(sir, trace@, 0),
                            forall|i: int|
                                0 <= i < a ==> rnm.renamable(
                                    #[trigger] args@[i],
                                    body.local_decls@,
                                ),
                        decreases args@.len() - a,
                    {
                        if !can_rename(&rnm, &args[a], &body.local_decls) {
                            return Err(InvalidTraceError::Malformed);
                        }
                        a = a + 1;
                    }
                    let ghost off = rnm.offset;
                    let newargs = rnm.rename_args(args, &body.local_decls);
                    let ghost renamed_args = Seq::new(
                        args@.len(),
                        |i: int| VarRenamer::renamed(args@[i], off),
                    );
                    let ghost before_call = body_of(ops@);
                    proof {
                        assert(newargs@ =~= renamed_args);
                    }
                    let inlined = match sir.body(callee_sym) {
                        Some(cb) => {
                            if sir.bodies[cb].flags & BODY_DO_NOT_TRACE != 0 {
                                ignore = Some(callee_sym.clone());
                                None
                            } else {
                                Some(cb)
                            }
                        },
                        None => None,
                    };
                    match inlined {
                        None => {
                            // The callee does not appear in the trace: it
                            // is called.
                            match push_statement(
                                &mut ops,
                                &mut live,
                                Statement::Call(operand.duplicate(), newargs, Some(ret_val)),
                            ) {
                                Ok(()) => {},
                                Err(e) => {
                                    return Err(e);
                                },
                            }
                        },
                        Some(cb) => {
                            let callee = &sir.bodies[cb];
                            let n = callee.local_decls.len();
                            match rnm.acc {
                                Some(acc) => {
                                    if n > (u32::MAX - acc) as usize {
                                        return Err(InvalidTraceError::Malformed);
                                    }
                                },
                                None => {
                                    return Err(InvalidTraceError::Malformed);
                                },
                            }
                            rnm.enter(n, ret_val);
                            match push_statement(
                                &mut ops,
                                &mut live,
                                Statement::Enter(
                                    operand.duplicate(),
                                    copy_places(&newargs),
                                    Some(ret_val),
                                    rnm.offset(),
                                ),
                            ) {
                                Ok(()) => {},
                                Err(e) => {
                                    return Err(e);
                                },
                            }
                            // The arguments become the first local variables
                            // of the callee, after the one that it returns.
                            let mut j: usize = 0;
                            let ghost gs1 = guards_of(ops@);
                            let ghost b1 = body_of(ops@);
                            let ghost rn1 = rnm;
                            proof {
                                assert(b1 + arg_stores(renamed_args, rnm.offset, 0) =~= b1);
                            }
                            while j < newargs.len()
                                invariant
                                    j <= newargs@.len(),
                                    live.wf(),
                                    rnm.wf(),
                                                guards_of(ops@) == gs1,
                                    newargs@ == renamed_args,
                                    rnm.offset == rn1.offset,
                                    rnm.stack == rn1.stack,
                                    rnm.acc == rn1.acc,
                                    body_of(ops@) == b1 + arg_stores(
                                        renamed_args,
                                        rn1.offset,
                                        j as int,
                                    ),
                                    rnm.local_decls@ == noted_params(
                                        rn1.local_decls@,
                                        rn1.offset,
                                        callee.local_decls@,
                                        j as int,
                                    ),
                                    deathless(ops@),
                                    live.last_use@ == lu_of(ops@),
                                    tracks(&live, body_of(ops@)),
                                    params_fault(
                                        b1,
                                        renamed_args,
                                        rn1.offset,
                                        callee.local_decls@.len() as int,
                                        j as int,
                                    ) == params_fault(
                                        b1,
                                        renamed_args,
                                        rn1.offset,
                                        callee.local_decls@.len() as int,
                                        0,
                                    ),
                                    params_fault(
                                        b1,
                                        renamed_args,
                                        rn1.offset,
                                        callee.local_decls@.len() as int,
                                        0,
                                    ) matches Some(f) ==> all == Some(f),
                                    all == Self::first_fault(sir, trace@, 0),
                                decreases newargs@.len() - j,
                            {
                                proof {
                                    assert((b1 + arg_stores(renamed_args, rn1.offset, j as int)).push(
                                        arg_stores(renamed_args, rn1.offset, j + 1).last(),
                                    ) =~= b1 + arg_stores(renamed_args, rn1.offset, j + 1));
                                }
                                if j + 1 >= callee.local_decls.len() || j + 1 > (u32::MAX
                                    - rnm.offset) as usize {
                                    return Err(InvalidTraceError::Malformed);
                                }
                                let ty = match newargs[j].ty() {
                                    Some(t) => t,
                                    None => {
                                        return Err(InvalidTraceError::Malformed);
                                    },
                                };
                                let dest_local = rnm.rename_local(
                                    &Local((j + 1) as u32),
                                    &callee.local_decls,
                                );
                                match push_statement(
                                    &mut ops,
                                    &mut live,
                                    Statement::Store(
                                        IRPlace::Val { local: dest_local, off: 0, ty },
                                        newargs[j],
                                    ),
                                ) {
                                    Ok(()) => {},
                                    Err(e) => {
                                        return Err(e);
                                    },
                                }
                                j = j + 1;
                            }
                        },
                    }
                },
                Terminator::Return => {
                    if body.flags & BODY_INTERP_STEP != 0 {
                        in_interp_step = false;
                        continue ;
                    }
                    // What the callee returns goes where the call wanted it.
                    let dest_ip = match return_iplaces.pop() {
                        Some(p) => p,
                        None => {
                            return Err(InvalidTraceError::Malformed);
                        },
                    };
                    let ty = match dest_ip.ty() {
                        Some(t) => t,
                        None => {
                            return Err(InvalidTraceError::Malformed);
                        },
                    };
                    let src_ip = match rename(
                        &mut rnm,
                        &IRPlace::Val { local: Local(RETURN_LOCAL), off: 0, ty },
                        &body.local_decls,
                    ) {
                        Ok(p) => p,
                        Err(e) => {
                            return Err(e);
                        },
                    };
                    if rnm.stack.len() < 2 {
                        return Err(InvalidTraceError::Malformed);
                    }
                    rnm.leave();
                    match push_statement(&mut ops, &mut live, Statement::Store(dest_ip, src_ip)) {
                        Ok(()) => {},
                        Err(e) => {
                            return Err(e);
                        },
                    }
                    match push_statement(&mut ops, &mut live, Statement::Leave) {
                        Ok(()) => {},
                        Err(e) => {
                            return Err(e);
                        },
                    }
                },
                _ => {},
            }
            // Where the program could have gone another way, a guard says
            // which way the trace went.
            let next = if idx < trace.len() {
                Some(trace[idx].bb_idx)
            } else {
                None
            };
            match guard_for(&block.term, next) {
                Ok(Some(g)) => {
                    proof {
                        lemma_guards_push(ops@, TirOp::Guard(g));
                        lemma_body_push(ops@, TirOp::Guard(g));
                        assert(ops@.push(TirOp::Guard(g)).drop_last() =~= ops@);
                        assert forall|l: u32|
                            defined_in(
                                body_of(ops@).push(OpView::Guard(g.val, g.demand())),
                                l,
                            ) <==> defined_in(body_of(ops@), l) by {
                            lemma_defined_push(body_of(ops@), OpView::Guard(g.val, g.demand()), l);
                        }
                    }
                    ops.push(TirOp::Guard(g))
                },
                Ok(None) => {},
                Err(e) => {
                    return Err(e);
                },
            }
            proof {
                let stmts = block_stmts(block.stmts@, f0.0.offset);
                let (rn1, more) = Self::block_ops(sir, trace@[at], next, c0, f0.0);
                assert(start == f0.1);
                assert(Self::traced(sir, trace@[at], c0));
                assert(body_of(ops@) =~= f0.1 + more);
            }
        }
        proof {
            assert(trace@.subrange(0, idx as int) =~= trace@);
        }
        let local_decls = rnm.done();
        // Local variables die after their last use. The later deaths are
        // put in first, so that the indices of the earlier ones stay valid.
        let mut site = ops.len();
        let ghost gs = guards_of(ops@);
        let ghost bd = body_of(ops@);
        let ghost traced = ops@;
        let ghost lu = live.last_use@;
        while site > 0
            invariant
                site <= ops@.len(),
                guards_of(ops@) == gs,
                body_of(ops@) == bd,
                lu == live.last_use@,
                with_deaths(ops@, lu, site as int) == with_deaths(traced, lu, traced.len() as int),
            decreases site,
        {
            site = site - 1;
            let mut k: usize = 0;
            let ghost at_site = ops@;
            while k < live.last_use.len()
                invariant
                    k <= live.last_use@.len(),
                    site < ops@.len(),
                    guards_of(ops@) == gs,
                    body_of(ops@) == bd,
                    lu == live.last_use@,
                    deaths_at(ops@, lu, site as int, k as int) == deaths_at(at_site, lu, site as int, 0),
                decreases live.last_use@.len() - k,
            {
                if live.last_use[k].1 == site && site < ops.len() {
                    proof {
                        lemma_body_insert(ops@, site + 1, Local(live.last_use@[k as int].0));
                        lemma_guards_insert(
                            ops@,
                            site + 1,
                            Statement::StorageDead(Local(live.last_use@[k as int].0)),
                        );
                    }
                    ops.insert(
                        site + 1,
                        TirOp::Statement(Statement::StorageDead(Local(live.last_use[k].0))),
                    );
                }
                k = k + 1;
            }
        }
        Ok(TirTrace { ops, local_decls, addr_map })
    }
}

} // verus!
