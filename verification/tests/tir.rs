use yk::sir::{
    BasicBlock, BinOp, Body, CallOperand, Constant, ConstantInt, Fields, IRPlace, Local,
    LocalDecl, Ptr, Sir, Statement, Terminator, Ty, TyKind, TypeId, UnsignedInt, UnsignedIntTy,
    BODY_DO_NOT_TRACE, BODY_INTERP_STEP,
};
use yk::tir::{
    guard_for, place_local, Guard, GuardKind, InvalidTraceError, Liveness, SirLoc, TirOp,
    TirTrace, VarRenamer,
};

const USIZE: TypeId = TypeId { cgu: 1, idx: 0 };
const BOOL: TypeId = TypeId { cgu: 1, idx: 1 };
const UNIT: TypeId = TypeId { cgu: 1, idx: 2 };
const IO_REF: TypeId = TypeId { cgu: 1, idx: 3 };
const CHECKED: TypeId = TypeId { cgu: 1, idx: 4 };

fn fields(offsets: Vec<u64>, tys: Vec<TypeId>) -> Fields {
    Fields { offsets, tys }
}

fn types() -> Vec<(TypeId, Ty)> {
    let ty = |size, kind| Ty {
        size,
        align: if size == 0 { 1 } else { size.min(8) },
        kind,
    };
    vec![
        (USIZE, ty(8, TyKind::UnsignedInt(UnsignedIntTy::Usize))),
        (BOOL, ty(1, TyKind::Bool)),
        (UNIT, ty(0, TyKind::Tuple(fields(vec![], vec![])))),
        (IO_REF, ty(8, TyKind::Ref(UNIT))),
        (
            CHECKED,
            ty(16, TyKind::Tuple(fields(vec![0, 8], vec![USIZE, BOOL]))),
        ),
    ]
}

fn val(local: u32, ty: TypeId) -> IRPlace {
    IRPlace::Val {
        local: Local(local),
        off: 0,
        ty,
    }
}

fn field(local: u32, off: u32, ty: TypeId) -> IRPlace {
    IRPlace::Val {
        local: Local(local),
        off,
        ty,
    }
}

/// The field at `off` of what the local variable `local` points to.
fn through(local: u32, off: i32) -> IRPlace {
    IRPlace::Indirect {
        ptr: Ptr {
            local: Local(local),
            off: 0,
        },
        off,
        ty: USIZE,
    }
}

fn word(v: usize) -> IRPlace {
    IRPlace::Const {
        val: Constant::Int(ConstantInt::UnsignedInt(UnsignedInt::Usize(v))),
        ty: USIZE,
    }
}

fn decls(tys: &[TypeId]) -> Vec<LocalDecl> {
    tys.iter()
        .map(|ty| LocalDecl {
            ty: *ty,
            referenced: false,
        })
        .collect()
}

fn body(name: &str, flags: u8, tys: &[TypeId], blocks: Vec<BasicBlock>) -> Body {
    Body {
        symbol_name: name.to_string(),
        blocks,
        flags,
        local_decls: decls(tys),
        layout: (8 * tys.len(), 8),
        offsets: (0..tys.len()).map(|i| 8 * i).collect(),
    }
}

fn block(stmts: Vec<Statement>, term: Terminator) -> BasicBlock {
    BasicBlock { stmts, term }
}

fn call(sym: &str, args: Vec<IRPlace>, dest: IRPlace, next: u32) -> Terminator {
    Terminator::Call {
        operand: CallOperand::Fn(sym.to_string()),
        args,
        destination: Some((dest, next)),
    }
}

fn loc(sym: &str, bb_idx: u32) -> SirLoc {
    SirLoc {
        symbol_name: sym.to_string(),
        bb_idx,
        addr: if bb_idx == 0 { Some(0x1000) } else { None },
    }
}

/// The function that calls the interpreter's step function `step`.
fn driver(step: &str) -> Body {
    body(
        "driver",
        0,
        &[UNIT, IO_REF, UNIT, UNIT, UNIT, UNIT, UNIT],
        vec![
            block(vec![], call(step, vec![val(1, IO_REF)], val(2, UNIT), 1)),
            block(vec![], Terminator::Return),
        ],
    )
}

/// ```text
/// fn work(io: &mut IO) {
///     let mut res = 0;
///     while res < io.1 {
///         res += io.0;
///     }
///     io.2 = res
/// }
/// ```
/// with `$2` for `res`.
fn work_body() -> Body {
    body(
        "work",
        BODY_INTERP_STEP,
        &[UNIT, IO_REF, USIZE, BOOL, USIZE, USIZE, CHECKED],
        vec![
            block(
                vec![Statement::Store(val(2, USIZE), word(0))],
                Terminator::Goto(1),
            ),
            block(
                vec![
                    Statement::Store(val(4, USIZE), through(1, 8)),
                    Statement::BinaryOp {
                        dest: val(3, BOOL),
                        op: BinOp::Lt,
                        opnd1: val(2, USIZE),
                        opnd2: val(4, USIZE),
                        checked: false,
                    },
                ],
                Terminator::SwitchInt {
                    discr: val(3, BOOL),
                    values: vec![0],
                    target_bbs: vec![4],
                    otherwise_bb: 2,
                },
            ),
            block(
                vec![
                    Statement::Store(val(5, USIZE), through(1, 0)),
                    Statement::BinaryOp {
                        dest: val(6, CHECKED),
                        op: BinOp::Add,
                        opnd1: val(2, USIZE),
                        opnd2: val(5, USIZE),
                        checked: true,
                    },
                ],
                Terminator::Assert {
                    cond: field(6, 8, BOOL),
                    expected: false,
                    target_bb: 3,
                },
            ),
            block(
                vec![Statement::Store(val(2, USIZE), field(6, 0, USIZE))],
                Terminator::Goto(1),
            ),
            block(
                vec![Statement::Store(through(1, 16), val(2, USIZE))],
                Terminator::Return,
            ),
        ],
    )
}

struct IO(usize, usize, usize);

/// `work` as the machine runs it, noting each block that it enters.
fn work(io: &mut IO, trace: &mut Vec<SirLoc>) {
    trace.push(loc("work", 0));
    let mut res = 0;
    loop {
        trace.push(loc("work", 1));
        if !(res < io.1) {
            break;
        }
        trace.push(loc("work", 2));
        res += io.0;
        trace.push(loc("work", 3));
    }
    trace.push(loc("work", 4));
    io.2 = res
}

#[test]
fn nonempty_tir_trace() {
    let sir = Sir {
        bodies: vec![driver("work"), work_body()],
        types: types(),
    };
    let mut io = IO(3, 13, 0);
    let mut sir_trace = vec![loc("driver", 0)];
    work(&mut io, &mut sir_trace);
    sir_trace.push(loc("driver", 1));
    let tir_trace = TirTrace::new(&sir, &sir_trace).unwrap();
    assert_eq!(io.2, 15);
    assert!(tir_trace.len() > 0);

    // One store; six times the head of the loop, with its guard; five times
    // the body of the loop, with its guard, and the step; the store at the
    // end; and the deaths of the local variables that are read.
    assert_eq!(sir_trace.len(), 20);
    assert_eq!(tir_trace.len(), 1 + 6 * 3 + 5 * 3 + 5 + 1 + 4);
    assert!(matches!(
        tir_trace.op(0),
        TirOp::Statement(Statement::Store(d, s)) if *d == val(2, USIZE) && *s == word(0)
    ));
    let guards: Vec<&Guard> = tir_trace
        .ops
        .iter()
        .filter_map(|op| match op {
            TirOp::Guard(g) => Some(g),
            _ => None,
        })
        .collect();
    assert_eq!(guards.len(), 11);
    // The loop is entered: the condition is not 0.
    assert_eq!(guards[0].val, val(3, BOOL));
    assert!(matches!(&guards[0].kind, GuardKind::OtherInteger(vs) if *vs == vec![0]));
    // The sum has not overflowed.
    assert_eq!(guards[1].val, field(6, 8, BOOL));
    assert!(matches!(guards[1].kind, GuardKind::Boolean(false)));
    // The loop is left: the condition is 0.
    assert!(matches!(guards[10].kind, GuardKind::Integer(0)));
    // Every local variable that is read dies once, after its last use.
    let mut dead: Vec<u32> = tir_trace
        .ops
        .iter()
        .filter_map(|op| match op {
            TirOp::Statement(Statement::StorageDead(l)) => Some(l.0),
            _ => None,
        })
        .collect();
    dead.sort();
    assert_eq!(dead, vec![2, 4, 5, 6]);
    assert!(matches!(
        tir_trace.op(tir_trace.len() - 1),
        TirOp::Statement(Statement::StorageDead(Local(2)))
    ));
    assert!(matches!(
        tir_trace.op(tir_trace.len() - 2),
        TirOp::Statement(Statement::Store(d, s)) if *d == through(1, 16) && *s == val(2, USIZE)
    ));
    assert_eq!(tir_trace.addr_map, vec![
        ("driver".to_string(), 0x1000),
        ("work".to_string(), 0x1000)
    ]);
    assert_eq!(tir_trace.local_decls.len(), 6);
    assert_eq!(tir_trace.local_decls[&6].ty, CHECKED);
}

/// `fn step(io: &mut IO) { io.0 = twice(io.0) }` with `twice` as it is
/// given.
fn calling(twice: Body) -> Sir {
    let step = body(
        "step",
        BODY_INTERP_STEP,
        &[UNIT, IO_REF, USIZE, USIZE],
        vec![
            block(
                vec![Statement::Store(val(2, USIZE), through(1, 0))],
                call("twice", vec![val(2, USIZE)], val(3, USIZE), 1),
            ),
            block(
                vec![Statement::Store(through(1, 0), val(3, USIZE))],
                Terminator::Return,
            ),
        ],
    );
    Sir {
        bodies: vec![driver("step"), step, twice],
        types: types(),
    }
}

fn twice(flags: u8) -> Body {
    body(
        "twice",
        flags,
        &[USIZE, USIZE, CHECKED],
        vec![
            block(
                vec![Statement::BinaryOp {
                    dest: val(2, CHECKED),
                    op: BinOp::Add,
                    opnd1: val(1, USIZE),
                    opnd2: val(1, USIZE),
                    checked: true,
                }],
                Terminator::Assert {
                    cond: field(2, 8, BOOL),
                    expected: false,
                    target_bb: 1,
                },
            ),
            block(
                vec![Statement::Store(val(0, USIZE), field(2, 0, USIZE))],
                Terminator::Return,
            ),
        ],
    )
}

fn calling_trace() -> Vec<SirLoc> {
    vec![
        loc("driver", 0),
        loc("step", 0),
        loc("twice", 0),
        loc("twice", 1),
        loc("step", 1),
        loc("driver", 1),
    ]
}

#[test]
fn a_call_is_inlined_with_its_variables_renamed_apart() {
    let sir = calling(twice(0));
    let t = TirTrace::new(&sir, &calling_trace()).unwrap();
    let ops: Vec<String> = t.ops.iter().map(|op| format!("{:?}", op)).collect();
    // The variables of `twice` come after the seven of the driver, by
    // which the renaming starts.
    let ret = val(7, USIZE);
    let arg = val(8, USIZE);
    let sum = val(9, CHECKED);
    let expected = vec![
        TirOp::Statement(Statement::Store(val(2, USIZE), through(1, 0))),
        TirOp::Statement(Statement::Enter(
            CallOperand::Fn("twice".to_string()),
            vec![val(2, USIZE)],
            Some(val(3, USIZE)),
            7,
        )),
        TirOp::Statement(Statement::Store(arg, val(2, USIZE))),
        TirOp::Statement(Statement::StorageDead(Local(2))),
        TirOp::Statement(Statement::BinaryOp {
            dest: sum,
            op: BinOp::Add,
            opnd1: arg,
            opnd2: arg,
            checked: true,
        }),
        TirOp::Statement(Statement::StorageDead(Local(8))),
        // A guard names its variable as the function does.
        TirOp::Guard(Guard {
            val: field(2, 8, BOOL),
            kind: GuardKind::Boolean(false),
        }),
        TirOp::Statement(Statement::Store(ret, field(9, 0, USIZE))),
        TirOp::Statement(Statement::StorageDead(Local(9))),
        TirOp::Statement(Statement::Store(val(3, USIZE), ret)),
        TirOp::Statement(Statement::StorageDead(Local(7))),
        TirOp::Statement(Statement::Leave),
        TirOp::Statement(Statement::Store(through(1, 0), val(3, USIZE))),
        TirOp::Statement(Statement::StorageDead(Local(3))),
    ];
    assert_eq!(ops.len(), expected.len());
    for (i, op) in expected.iter().enumerate() {
        assert_eq!(ops[i], format!("{:?}", op), "operation {}", i);
    }
}

#[test]
fn a_function_that_is_not_to_be_traced_is_called() {
    let sir = calling(twice(BODY_DO_NOT_TRACE));
    let t = TirTrace::new(&sir, &calling_trace()).unwrap();
    let ops: Vec<String> = t.ops.iter().map(|op| format!("{:?}", op)).collect();
    let expected = vec![
        TirOp::Statement(Statement::Store(val(2, USIZE), through(1, 0))),
        TirOp::Statement(Statement::Call(
            CallOperand::Fn("twice".to_string()),
            vec![val(2, USIZE)],
            Some(val(3, USIZE)),
        )),
        TirOp::Statement(Statement::StorageDead(Local(2))),
        TirOp::Statement(Statement::Store(through(1, 0), val(3, USIZE))),
        TirOp::Statement(Statement::StorageDead(Local(3))),
    ];
    let expected: Vec<String> = expected.iter().map(|op| format!("{:?}", op)).collect();
    assert_eq!(ops, expected);
    assert!(t.op(1).may_have_side_effects());
    assert!(!t.op(0).may_have_side_effects());
}

#[test]
fn a_trace_through_an_unknown_function_is_refused() {
    let sir = calling(twice(0));
    let mut trace = calling_trace();
    trace[3] = loc("thrice", 1);
    assert!(matches!(
        TirTrace::new(&sir, &trace),
        Err(InvalidTraceError::NoSir(s)) if s == "thrice"
    ));
    // A block that there is not.
    let mut trace = calling_trace();
    trace[3] = loc("twice", 2);
    assert!(matches!(
        TirTrace::new(&sir, &trace),
        Err(InvalidTraceError::Malformed)
    ));
    // A function whose address is not known.
    let mut trace = calling_trace();
    trace[2].addr = None;
    assert!(matches!(
        TirTrace::new(&sir, &trace),
        Err(InvalidTraceError::Malformed)
    ));
    // Outside the step function nothing is traced.
    let t = TirTrace::new(&sir, &vec![loc("driver", 1), loc("twice", 0)]).unwrap();
    assert_eq!(t.len(), 0);
    assert!(t.local_decls.is_empty());
    // The functions that the trace enters are noted with their addresses.
    assert_eq!(t.addr_map, vec![("twice".to_string(), 0x1000)]);
    assert_eq!(TirTrace::new(&sir, &vec![]).unwrap().len(), 0);
}

#[test]
fn a_variable_that_is_read_must_have_been_written() {
    let mut sir = calling(twice(0));
    sir.bodies[1].blocks[0].stmts[0] = Statement::Store(val(2, USIZE), val(3, USIZE));
    assert!(matches!(
        TirTrace::new(&sir, &calling_trace()),
        Err(InvalidTraceError::UndefinedLocal(3))
    ));
}

#[test]
fn a_trace_must_follow_the_blocks() {
    let sir = Sir {
        bodies: vec![driver("work"), work_body()],
        types: types(),
    };
    // From the head of the loop the program cannot go to the step.
    let trace = vec![loc("driver", 0), loc("work", 0), loc("work", 1), loc("work", 3)];
    assert!(matches!(
        TirTrace::new(&sir, &trace),
        Err(InvalidTraceError::Disconnected)
    ));
    // Nor can the trace end there.
    let trace = vec![loc("driver", 0), loc("work", 0), loc("work", 1)];
    assert!(matches!(
        TirTrace::new(&sir, &trace),
        Err(InvalidTraceError::Disconnected)
    ));
}

#[test]
fn guards_say_which_way_the_trace_went() {
    let switch = Terminator::SwitchInt {
        discr: val(1, USIZE),
        values: vec![7, 9],
        target_bbs: vec![2, 3],
        otherwise_bb: 4,
    };
    let g = guard_for(&switch, Some(3)).unwrap().unwrap();
    assert_eq!(g.val, val(1, USIZE));
    assert!(matches!(g.kind, GuardKind::Integer(9)));
    let g = guard_for(&switch, Some(4)).unwrap().unwrap();
    assert!(matches!(g.kind, GuardKind::OtherInteger(vs) if vs == vec![7, 9]));
    assert!(matches!(
        guard_for(&switch, Some(5)),
        Err(InvalidTraceError::Disconnected)
    ));
    assert!(matches!(
        guard_for(&switch, None),
        Err(InvalidTraceError::Disconnected)
    ));
    let short = Terminator::SwitchInt {
        discr: val(1, USIZE),
        values: vec![7],
        target_bbs: vec![2, 3],
        otherwise_bb: 4,
    };
    assert!(matches!(
        guard_for(&short, Some(3)),
        Err(InvalidTraceError::Malformed)
    ));
    let assert = Terminator::Assert {
        cond: val(2, BOOL),
        expected: true,
        target_bb: 1,
    };
    let g = guard_for(&assert, None).unwrap().unwrap();
    assert_eq!(g.val, val(2, BOOL));
    assert!(matches!(g.kind, GuardKind::Boolean(true)));
    assert!(matches!(guard_for(&Terminator::Goto(1), Some(1)), Ok(None)));
    assert!(matches!(guard_for(&Terminator::Return, None), Ok(None)));
    assert!(matches!(
        guard_for(&Terminator::Unreachable, None),
        Err(InvalidTraceError::Malformed)
    ));
}

#[test]
fn variables_are_renamed_by_the_offset_of_their_function() {
    let mut rnm = VarRenamer::new();
    let outer = decls(&[UNIT, IO_REF, USIZE]);
    let inner = decls(&[USIZE, BOOL]);
    rnm.init_acc(outer.len());
    rnm.init_acc(17);
    assert_eq!(rnm.acc, Some(3));
    assert_eq!(rnm.offset(), 0);
    assert_eq!(rnm.rename_local(&Local(2), &outer), Local(2));
    rnm.enter(inner.len(), val(2, USIZE));
    assert_eq!(rnm.offset(), 3);
    assert_eq!(rnm.acc, Some(5));
    assert_eq!(rnm.returns, vec![Local(3)]);
    assert_eq!(rnm.rename_local(&Local(1), &inner), Local(4));
    assert_eq!(rnm.rename_iplace(&val(0, USIZE), &inner), val(3, USIZE));
    assert_eq!(rnm.rename_iplace(&through(1, 8), &inner), through(4, 8));
    assert_eq!(rnm.rename_iplace(&word(5), &inner), word(5));
    rnm.enter(inner.len(), val(1, USIZE));
    assert_eq!(rnm.offset(), 5);
    assert_eq!(rnm.stack, vec![0, 3, 5]);
    assert_eq!(
        rnm.rename_args(&vec![val(1, BOOL), word(1)], &inner),
        vec![val(6, BOOL), word(1)]
    );
    rnm.leave();
    assert_eq!(rnm.offset(), 3);
    rnm.leave();
    assert_eq!(rnm.offset(), 0);
    assert!(rnm.returns.is_empty());
    // The next call gets fresh variables.
    rnm.enter(1, val(2, USIZE));
    assert_eq!(rnm.offset(), 7);
    let known = rnm.done();
    assert_eq!(known.len(), 4);
    assert_eq!(known[&2].ty, USIZE);
    assert_eq!(known[&3].ty, USIZE);
    assert_eq!(known[&4].ty, BOOL);
    assert_eq!(known[&6].ty, BOOL);
}

#[test]
fn the_last_use_of_a_variable_is_noted() {
    let mut live = Liveness::new();
    assert!(live.is_defined(1));
    assert!(!live.is_defined(2));
    assert!(!live.use_at(2, 0));
    live.define(2);
    live.define(2);
    assert_eq!(live.defined, vec![1, 2]);
    assert!(live.use_at(2, 3));
    assert!(live.use_at(2, 5));
    assert!(live.use_at(1, 6));
    assert_eq!(live.last_use, vec![(2, 5)]);
    assert_eq!(
        live.note(&Statement::Store(val(3, USIZE), val(2, USIZE)), 7),
        None
    );
    assert!(live.is_defined(3));
    assert_eq!(live.last_use, vec![(2, 7)]);
    assert_eq!(
        live.note(&Statement::Store(through(4, 0), val(3, USIZE)), 8),
        Some(4)
    );
    assert_eq!(
        live.note(
            &Statement::Call(CallOperand::Unknown, vec![val(3, USIZE), val(9, USIZE)], None),
            9
        ),
        Some(9)
    );
    assert_eq!(live.note(&Statement::Nop, 10), None);
    assert_eq!(place_local(&through(4, 0)), Some(4));
    assert_eq!(place_local(&val(3, USIZE)), Some(3));
    assert_eq!(place_local(&word(3)), None);
}
