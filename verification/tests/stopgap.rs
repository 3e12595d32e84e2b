use yk::memory::Memory;
use yk::sir::{
    BasicBlock, BinOp, Body, CallOperand, Constant, ConstantInt, Fields, IRPlace, Local,
    LocalDecl, Ptr, Sir, Statement, Terminator, Ty, TyKind, TypeId, UnsignedInt, UnsignedIntTy,
    BODY_INTERP_STEP,
};
use yk::ykbh::SIRInterpreter;
use yk::yksg::{
    find_switch_target, offset_ptr, FrameInfo, InterpError, StopgapInterpreter,
};

const U8: TypeId = TypeId { cgu: 0, idx: 0 };
const BOOL: TypeId = TypeId { cgu: 0, idx: 1 };
const UNIT: TypeId = TypeId { cgu: 0, idx: 2 };
const CTX: TypeId = TypeId { cgu: 0, idx: 3 };
const CTX_REF: TypeId = TypeId { cgu: 0, idx: 4 };
const CHECKED: TypeId = TypeId { cgu: 0, idx: 5 };

fn types() -> Vec<(TypeId, Ty)> {
    vec![
        (
            U8,
            Ty {
                size: 1,
                align: 1,
                kind: TyKind::UnsignedInt(UnsignedIntTy::U8),
            },
        ),
        (
            BOOL,
            Ty {
                size: 1,
                align: 1,
                kind: TyKind::Bool,
            },
        ),
        (
            UNIT,
            Ty {
                size: 0,
                align: 1,
                kind: TyKind::Tuple(Fields {
                    offsets: vec![],
                    tys: vec![],
                }),
            },
        ),
        (
            CTX,
            Ty {
                size: 2,
                align: 1,
                kind: TyKind::Struct(Fields {
                    offsets: vec![0, 1],
                    tys: vec![U8, U8],
                }),
            },
        ),
        (
            CTX_REF,
            Ty {
                size: 8,
                align: 8,
                kind: TyKind::Ref(CTX),
            },
        ),
        (
            CHECKED,
            Ty {
                size: 2,
                align: 1,
                kind: TyKind::Tuple(Fields {
                    offsets: vec![0, 1],
                    tys: vec![U8, BOOL],
                }),
            },
        ),
    ]
}

fn val(local: u32, ty: TypeId) -> IRPlace {
    IRPlace::Val {
        local: Local(local),
        off: 0,
        ty,
    }
}

fn field(local: u32, off: u32, ty: TypeId) -> IRPlace {
    IRPlace::Val {
        local: Local(local),
        off,
        ty,
    }
}

fn byte(v: u8) -> IRPlace {
    IRPlace::Const {
        val: Constant::Int(ConstantInt::UnsignedInt(UnsignedInt::U8(v))),
        ty: U8,
    }
}

/// The field at `off` of the context that the first argument points to.
fn ctx_field(off: i32) -> IRPlace {
    IRPlace::Indirect {
        ptr: Ptr {
            local: Local(1),
            off: 0,
        },
        off,
        ty: U8,
    }
}

fn decls(tys: &[TypeId]) -> Vec<LocalDecl> {
    tys.iter()
        .map(|ty| LocalDecl {
            ty: *ty,
            referenced: false,
        })
        .collect()
}

fn call(sym: &str, args: Vec<IRPlace>, dest: IRPlace, next: u32) -> Terminator {
    Terminator::Call {
        operand: CallOperand::Fn(sym.to_string()),
        args,
        destination: Some((dest, next)),
    }
}

/// `fn interp_step(io: &mut InterpCtx) { let x = callee(args); io.1 = x; }`
/// with `$2` for `x`, and `$3` and `$4` for the arguments.
fn interp_step(callee: &str, nargs: usize) -> Body {
    let mut stmts = vec![Statement::Store(val(3, U8), ctx_field(0))];
    let mut args = vec![val(3, U8)];
    if nargs == 2 {
        stmts.push(Statement::Store(val(4, U8), ctx_field(1)));
        args.push(val(4, U8));
    }
    Body {
        symbol_name: "interp_step".to_string(),
        blocks: vec![
            BasicBlock {
                stmts,
                term: call(callee, args, val(2, U8), 1),
            },
            BasicBlock {
                stmts: vec![Statement::Store(ctx_field(1), val(2, U8))],
                term: Terminator::Return,
            },
        ],
        flags: BODY_INTERP_STEP,
        local_decls: decls(&[UNIT, CTX_REF, U8, U8, U8]),
        layout: (16, 8),
        offsets: vec![0, 0, 8, 9, 10],
    }
}

/// `fn guard(i: u8) -> u8 { if i != 3 { 9 } else { 10 } }`
fn guard() -> Body {
    Body {
        symbol_name: "guard".to_string(),
        blocks: vec![
            BasicBlock {
                stmts: vec![],
                term: Terminator::SwitchInt {
                    discr: val(1, U8),
                    values: vec![3],
                    target_bbs: vec![2],
                    otherwise_bb: 1,
                },
            },
            BasicBlock {
                stmts: vec![Statement::Store(val(0, U8), byte(9))],
                term: Terminator::Goto(3),
            },
            BasicBlock {
                stmts: vec![Statement::Store(val(0, U8), byte(10))],
                term: Terminator::Goto(3),
            },
            BasicBlock {
                stmts: vec![],
                term: Terminator::Return,
            },
        ],
        flags: 0,
        local_decls: decls(&[U8, U8]),
        layout: (2, 1),
        offsets: vec![0, 1],
    }
}

/// ```text
/// fn rec(i: u8, j: u8) -> u8 {
///     let mut k = i;
///     if i < 1 {
///         k = rec(i + 1, j);
///         if j == 1 {
///             k = 99;
///         }
///     }
///     return k;
/// }
/// ```
/// with `$3` for `k`.
fn rec_two() -> Body {
    Body {
        symbol_name: "rec".to_string(),
        blocks: vec![
            BasicBlock {
                stmts: vec![
                    Statement::StorageLive(Local(3)),
                    Statement::Store(val(3, U8), val(1, U8)),
                    Statement::BinaryOp {
                        dest: val(4, BOOL),
                        op: BinOp::Lt,
                        opnd1: val(1, U8),
                        opnd2: byte(1),
                        checked: false,
                    },
                ],
                term: Terminator::SwitchInt {
                    discr: val(4, BOOL),
                    values: vec![0],
                    target_bbs: vec![5],
                    otherwise_bb: 1,
                },
            },
            BasicBlock {
                stmts: vec![Statement::BinaryOp {
                    dest: val(6, CHECKED),
                    op: BinOp::Add,
                    opnd1: val(1, U8),
                    opnd2: byte(1),
                    checked: true,
                }],
                term: Terminator::Assert {
                    cond: field(6, 1, BOOL),
                    expected: false,
                    target_bb: 2,
                },
            },
            BasicBlock {
                stmts: vec![Statement::Store(val(5, U8), field(6, 0, U8))],
                term: call("rec", vec![val(5, U8), val(2, U8)], val(3, U8), 3),
            },
            BasicBlock {
                stmts: vec![],
                term: Terminator::SwitchInt {
                    discr: val(2, U8),
                    values: vec![1],
                    target_bbs: vec![4],
                    otherwise_bb: 5,
                },
            },
            BasicBlock {
                stmts: vec![Statement::Store(val(3, U8), byte(99))],
                term: Terminator::Goto(5),
            },
            BasicBlock {
                stmts: vec![
                    Statement::Store(val(0, U8), val(3, U8)),
                    Statement::StorageDead(Local(3)),
                ],
                term: Terminator::Return,
            },
        ],
        flags: 0,
        local_decls: decls(&[U8, U8, U8, U8, BOOL, U8, CHECKED]),
        layout: (8, 1),
        offsets: vec![0, 1, 2, 3, 4, 5, 6],
    }
}

/// `fn rec(i: u8) -> u8 { if i < 5 { return rec(i + 1); } else { return i; } }`
fn rec_one() -> Body {
    Body {
        symbol_name: "rec".to_string(),
        blocks: vec![
            BasicBlock {
                stmts: vec![Statement::BinaryOp {
                    dest: val(2, BOOL),
                    op: BinOp::Lt,
                    opnd1: val(1, U8),
                    opnd2: byte(5),
                    checked: false,
                }],
                term: Terminator::SwitchInt {
                    discr: val(2, BOOL),
                    values: vec![0],
                    target_bbs: vec![3],
                    otherwise_bb: 1,
                },
            },
            BasicBlock {
                stmts: vec![Statement::BinaryOp {
                    dest: val(4, CHECKED),
                    op: BinOp::Add,
                    opnd1: val(1, U8),
                    opnd2: byte(1),
                    checked: true,
                }],
                term: Terminator::Assert {
                    cond: field(4, 1, BOOL),
                    expected: false,
                    target_bb: 2,
                },
            },
            BasicBlock {
                stmts: vec![Statement::Store(val(3, U8), field(4, 0, U8))],
                term: call("rec", vec![val(3, U8)], val(0, U8), 4),
            },
            BasicBlock {
                stmts: vec![Statement::Store(val(0, U8), val(1, U8))],
                term: Terminator::Goto(4),
            },
            BasicBlock {
                stmts: vec![],
                term: Terminator::Return,
            },
        ],
        flags: 0,
        local_decls: decls(&[U8, U8, BOOL, U8, CHECKED]),
        layout: (6, 1),
        offsets: vec![0, 1, 2, 3, 4],
    }
}

fn program(callee: Body, nargs: usize) -> Sir {
    let name = callee.symbol_name.clone();
    Sir {
        bodies: vec![interp_step(&name, nargs), callee],
        types: types(),
    }
}

/// Memory with the context `(a, b)` in it, and where it is.
fn with_ctx(a: u8, b: u8) -> (Memory, usize) {
    let mut mem = Memory::new();
    let ctx = mem.place(&vec![a, b], 1).unwrap();
    (mem, ctx)
}

/// The frame of `interp_step` as it is while the function that it calls
/// runs: with the pointer to the context in `$1`.
fn step_frame(mem: &mut Memory, ctx: usize) -> FrameInfo {
    let locals = mem.allocate(16, 8).unwrap();
    assert!(mem.write_ptr(locals, ctx));
    FrameInfo {
        body: 0,
        bbidx: 0,
        mem: locals,
    }
}

/// A frame of the function that `interp_step` calls, in the block `bbidx`,
/// with the bytes `locals` for its local variables.
fn callee_frame(mem: &mut Memory, bbidx: usize, locals: Vec<u8>) -> FrameInfo {
    FrameInfo {
        body: 1,
        bbidx,
        mem: mem.place(&locals, 1).unwrap(),
    }
}

/// Run `interp_step` from its start on the context `(a, b)`.
fn run(sir: &Sir, a: u8, b: u8) -> Result<Vec<u8>, InterpError> {
    let (mem, ctx) = with_ctx(a, b);
    let mut si = StopgapInterpreter::from_symbol(sir, mem, "interp_step".to_string())?;
    si.set_interp_ctx(ctx)?;
    assert_eq!(si.interpret(10_000)?, true);
    assert!(si.frames.is_empty());
    Ok(si.mem.read(ctx, 2).unwrap())
}

#[test]
fn simple() {
    let sir = program(guard(), 1);
    // What the trace computes for a context that keeps to it.
    assert_eq!(run(&sir, 0, 0), Ok(vec![0, 9]));
    // With the context `(3, 0)` the guard in `guard` fails: the interpreter
    // takes over from there.
    let (mut mem, ctx) = with_ctx(3, 0);
    let frames = vec![
        step_frame(&mut mem, ctx),
        callee_frame(&mut mem, 0, vec![0, 3]),
    ];
    let mut si = StopgapInterpreter::from_frames(&sir, mem, frames).unwrap();
    assert_eq!(si.frames.len(), 2);
    assert_eq!(si.frames[1].bbidx, 2);
    assert_eq!(si.interpret(1000), Ok(true));
    assert_eq!(si.mem.read(ctx, 2), Some(vec![3, 10]));
}

#[test]
fn recursion() {
    let sir = program(rec_two(), 2);
    assert_eq!(run(&sir, 0, 0), Ok(vec![0, 1]));
    // The guard fails in the outer activation of `rec`, after the inner one
    // has returned 1.
    let (mut mem, ctx) = with_ctx(0, 1);
    let frames = vec![
        step_frame(&mut mem, ctx),
        callee_frame(&mut mem, 3, vec![0, 0, 1, 1, 1, 1, 1, 0]),
    ];
    let mut si = StopgapInterpreter::from_frames(&sir, mem, frames).unwrap();
    assert_eq!(si.frames[1].bbidx, 4);
    assert_eq!(si.interpret(1000), Ok(true));
    assert_eq!(si.mem.read(ctx, 2), Some(vec![0, 99]));
    // The same from the start.
    assert_eq!(run(&sir, 0, 1), Ok(vec![0, 99]));
    assert_eq!(run(&sir, 1, 1), Ok(vec![1, 1]));
}

#[test]
fn recursion2() {
    let sir = program(rec_one(), 1);
    assert_eq!(run(&sir, 7, 0), Ok(vec![7, 7]));
    // The guard fails in the first activation of `rec`, which then calls
    // itself anew.
    let (mut mem, ctx) = with_ctx(1, 0);
    let frames = vec![
        step_frame(&mut mem, ctx),
        callee_frame(&mut mem, 0, vec![0, 1, 1, 0, 0, 0]),
    ];
    let mut si = StopgapInterpreter::from_frames(&sir, mem, frames).unwrap();
    assert_eq!(si.frames[1].bbidx, 1);
    assert_eq!(si.interpret(1000), Ok(true));
    assert_eq!(si.mem.read(ctx, 2), Some(vec![1, 5]));
    assert_eq!(run(&sir, 1, 0), Ok(vec![1, 5]));
    assert_eq!(run(&sir, 5, 0), Ok(vec![5, 5]));
}

#[test]
fn interpretation_stops_when_the_blocks_run_out() {
    let sir = program(rec_one(), 1);
    let (mem, ctx) = with_ctx(0, 0);
    let mut si = StopgapInterpreter::from_symbol(&sir, mem, "interp_step".to_string()).unwrap();
    si.set_interp_ctx(ctx).unwrap();
    assert_eq!(si.interpret(3), Ok(false));
    assert!(!si.frames.is_empty());
    assert_eq!(si.interpret(0), Ok(false));
    assert_eq!(si.interpret(1000), Ok(true));
    assert_eq!(si.mem.read(ctx, 2), Some(vec![0, 5]));
    // With nothing left to interpret the control point is reached at once.
    assert_eq!(si.interpret(0), Ok(true));
}

#[test]
fn a_frame_is_released_when_it_returns() {
    let sir = program(guard(), 1);
    let (mem, ctx) = with_ctx(1, 0);
    let mut si = StopgapInterpreter::from_symbol(&sir, mem, "interp_step".to_string()).unwrap();
    si.set_interp_ctx(ctx).unwrap();
    let step = si.frames[0].mem.locals;
    assert_eq!(si.interpret(1), Ok(false));
    assert_eq!(si.frames.len(), 2);
    let callee = si.frames[1].mem.locals;
    // The argument has been copied over.
    assert_eq!(si.mem.read_u8(callee + 1), Some(1));
    assert_eq!(si.interpret(1000), Ok(true));
    assert_eq!(si.mem.read(callee, 2), None);
    assert_eq!(si.mem.read(step, 16), None);
    assert_eq!(si.mem.read(ctx, 2), Some(vec![1, 9]));
}

#[test]
fn an_overflow_fails_the_assertion() {
    let sir = program(rec_two(), 2);
    // `rec` is entered in the block that adds one, with 255 for `i`.
    let (mut mem, ctx) = with_ctx(255, 0);
    let frames = vec![
        step_frame(&mut mem, ctx),
        callee_frame(&mut mem, 0, vec![0, 255, 0, 0, 0, 0, 0, 0]),
    ];
    let mut si = StopgapInterpreter::from_frames(&sir, mem, frames).unwrap();
    // 255 is not less than 1: the call is skipped.
    assert_eq!(si.frames[1].bbidx, 5);
    si.frames[1].bbidx = 1;
    assert_eq!(si.interpret(1000), Err(InterpError::AssertFailed));
    let locals = si.frames[1].mem.locals;
    assert_eq!(si.mem.read(locals + 6, 2), Some(vec![0, 1]));
}

#[test]
fn what_the_interpreter_does_not_know_is_refused() {
    let mut sir = program(guard(), 1);
    sir.bodies[1].blocks[1].stmts.push(Statement::Cast);
    assert_eq!(run(&sir, 0, 0), Err(InterpError::Unsupported));
    // The other branch is as it was.
    assert_eq!(run(&sir, 3, 0), Ok(vec![3, 10]));
    let mut sir = program(guard(), 1);
    sir.bodies[1].blocks[3].term = Terminator::Unreachable;
    assert_eq!(run(&sir, 0, 0), Err(InterpError::Unsupported));
    let mut sir = program(guard(), 1);
    sir.bodies[0].blocks[0].term = call("nowhere", vec![], val(2, U8), 1);
    assert_eq!(run(&sir, 0, 0), Err(InterpError::Malformed));
    let mut sir = program(guard(), 1);
    sir.bodies[1].blocks[1].term = Terminator::Goto(17);
    assert_eq!(run(&sir, 0, 0), Err(InterpError::Malformed));
    // A context that is not there.
    let sir = program(guard(), 1);
    let mut si =
        StopgapInterpreter::from_symbol(&sir, Memory::new(), "interp_step".to_string()).unwrap();
    si.set_interp_ctx(0x1000).unwrap();
    assert_eq!(si.interpret(1000), Err(InterpError::BadAccess));
    assert!(StopgapInterpreter::from_symbol(&sir, Memory::new(), "main".to_string()).is_err());
    assert!(StopgapInterpreter::from_frames(&sir, Memory::new(), vec![]).is_err());
}

#[test]
fn bytes_are_added_and_compared() {
    assert_eq!(
        StopgapInterpreter::binop_u8(&BinOp::Add, 1, 2),
        Some((3, false))
    );
    assert_eq!(
        StopgapInterpreter::binop_u8(&BinOp::Add, 255, 2),
        Some((1, true))
    );
    assert_eq!(
        StopgapInterpreter::binop_u8(&BinOp::Lt, 1, 2),
        Some((1, false))
    );
    assert_eq!(
        StopgapInterpreter::binop_u8(&BinOp::Lt, 2, 2),
        Some((0, false))
    );
    assert_eq!(StopgapInterpreter::binop_u8(&BinOp::Mul, 2, 2), None);
}

#[test]
fn a_switch_takes_the_first_value_that_fits() {
    assert_eq!(find_switch_target(&vec![1, 2, 1], &vec![10, 20, 30], 0, 1), 10);
    assert_eq!(find_switch_target(&vec![1, 2, 1], &vec![10, 20, 30], 0, 2), 20);
    assert_eq!(find_switch_target(&vec![1, 2, 1], &vec![10, 20, 30], 0, 3), 0);
    assert_eq!(find_switch_target(&vec![1, 2], &vec![10], 7, 2), 7);
    assert_eq!(find_switch_target(&vec![], &vec![], 7, 2), 7);
}

#[test]
fn addresses_wrap_around() {
    assert_eq!(offset_ptr(100, 8), 108);
    assert_eq!(offset_ptr(100, -8), 92);
    assert_eq!(offset_ptr(0, -1), usize::MAX);
    assert_eq!(offset_ptr(usize::MAX, 1), 0);
    assert_eq!(offset_ptr(5, i32::MIN), 5usize.wrapping_sub(1 << 31));
}

#[test]
fn the_blackholing_interpreter_starts_at_the_guard() {
    let sir = program(guard(), 1);
    let (mut mem, ctx) = with_ctx(3, 0);
    // The frame of `interp_step` does not know the context yet.
    let step = mem.allocate(16, 8).unwrap();
    let callee = mem.place(&vec![0, 3], 1).unwrap();
    let frames = vec![
        yk::ykbh::FrameInfo {
            sym: "interp_step".to_string(),
            bbidx: 0,
            mem: step,
        },
        yk::ykbh::FrameInfo {
            sym: "guard".to_string(),
            bbidx: 0,
            mem: callee,
        },
    ];
    let mut si = SIRInterpreter::init_frames(&sir, mem, frames).unwrap();
    assert_eq!(si.sg.frames.len(), 2);
    assert_eq!(si.locals().locals, callee);
    assert_eq!(si.interpret(ctx, 1000), Ok(true));
    assert_eq!(si.sg.mem.read(ctx, 2), Some(vec![3, 10]));
}

#[test]
fn the_blackholing_interpreter_knows_no_arithmetic() {
    let sir = program(rec_one(), 1);
    let (mem, ctx) = with_ctx(1, 0);
    let mut si = SIRInterpreter::new(&sir, mem, "interp_step".to_string()).unwrap();
    si.set_trace_inputs(ctx).unwrap();
    assert_eq!(si.run(1000), Err(InterpError::Unsupported));
    let sir = program(guard(), 1);
    let (mem, ctx) = with_ctx(1, 0);
    let mut si = SIRInterpreter::new(&sir, mem, "interp_step".to_string()).unwrap();
    si.set_trace_inputs(ctx).unwrap();
    assert_eq!(si.run(1000), Ok(true));
    assert_eq!(si.sg.mem.read(ctx, 2), Some(vec![1, 9]));
    assert_eq!(
        si.terminator(&Terminator::Assert {
            cond: byte(1),
            expected: true,
            target_bb: 0
        }),
        Err(InterpError::Unsupported)
    );
    assert!(SIRInterpreter::init_frames(
        &sir,
        Memory::new(),
        vec![yk::ykbh::FrameInfo {
            sym: "gone".to_string(),
            bbidx: 0,
            mem: 0
        }]
    )
    .is_err());
}
