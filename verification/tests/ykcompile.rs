use std::collections::HashMap;
use yk::sir::{
    BinOp, Constant, ConstantInt, Fields, IRPlace, Local, LocalDecl, Ptr, SignedIntTy, Sir, Statement,
    Ty, TyKind, TypeId, UnsignedInt, UnsignedIntTy,
};
use yk::tir::{Guard, GuardKind, TirOp, TirTrace};
use yk::ykcompile::{
    crash_dump_code, local_to_reg_name, CompileError, Location, RegAlloc, RegAndOffset,
    StackBuilder, TraceCompiler, TraceInst, RBP, RDI, TEMP_REG,
};

const U8: TypeId = TypeId { cgu: 0, idx: 0 };
const U64: TypeId = TypeId { cgu: 0, idx: 1 };
const PAIR: TypeId = TypeId { cgu: 0, idx: 2 };
const REF: TypeId = TypeId { cgu: 0, idx: 3 };
const U128: TypeId = TypeId { cgu: 0, idx: 4 };
const ARRAY: TypeId = TypeId { cgu: 0, idx: 5 };
const ARRAYS: TypeId = TypeId { cgu: 0, idx: 6 };
const I128: TypeId = TypeId { cgu: 0, idx: 7 };
const BOOL: TypeId = TypeId { cgu: 0, idx: 8 };
const NOWHERE: TypeId = TypeId { cgu: 9, idx: 9 };

fn sir() -> Sir {
    let ty = |size, align, kind| Ty { size, align, kind };
    Sir {
        bodies: vec![],
        types: vec![
            (U8, ty(1, 1, TyKind::UnsignedInt(UnsignedIntTy::U8))),
            (U64, ty(8, 8, TyKind::UnsignedInt(UnsignedIntTy::U64))),
            (
                PAIR,
                ty(
                    16,
                    8,
                    TyKind::Struct(Fields {
                        offsets: vec![0, 8],
                        tys: vec![U64, U64],
                    }),
                ),
            ),
            (REF, ty(8, 8, TyKind::Ref(PAIR))),
            (U128, ty(16, 16, TyKind::UnsignedInt(UnsignedIntTy::U128))),
            (ARRAY, ty(32, 8, TyKind::Array(U64))),
            (ARRAYS, ty(64, 8, TyKind::Slice(ARRAY))),
            (I128, ty(16, 16, TyKind::SignedInt(SignedIntTy::I128))),
            (BOOL, ty(1, 1, TyKind::Bool)),
        ],
    }
}

fn decls(tys: &[(u32, TypeId, bool)]) -> HashMap<u32, LocalDecl> {
    tys.iter()
        .map(|(l, ty, referenced)| {
            (
                *l,
                LocalDecl {
                    ty: *ty,
                    referenced: *referenced,
                },
            )
        })
        .collect()
}

fn val(local: u32, off: u32, ty: TypeId) -> IRPlace {
    IRPlace::Val {
        local: Local(local),
        off,
        ty,
    }
}

#[test]
fn code_is_dumped_in_hexadecimal() {
    assert_eq!(crash_dump_code(&vec![1, 2, 3, 15, 16]), "0102030f10");
    assert_eq!(crash_dump_code(&vec![0xde, 0xad, 0xbe, 0xef]), "deadbeef");
    assert_eq!(crash_dump_code(&vec![0]), "00");
    assert_eq!(crash_dump_code(&vec![]), "<empty buffer>");
}

#[test]
fn registers_have_names() {
    let names = [
        "rax", "rcx", "rdx", "rbx", "rsp", "rbp", "rsi", "rdi", "r8", "r9", "r10", "r11", "r12",
        "r13", "r14", "r15",
    ];
    for (r, name) in names.iter().enumerate() {
        assert_eq!(local_to_reg_name(&Location::Register(r as u8)), *name);
    }
    assert_eq!(local_to_reg_name(&Location::Register(16)), "");
    assert_eq!(local_to_reg_name(&Location::new_mem(RBP, -8)), "");
    assert_eq!(local_to_reg_name(&Location::NotLive), "");
    assert_eq!(RDI, 7);
    assert_eq!(RBP, 5);
    assert_eq!(TEMP_REG, 11);
    let mut l = Location::new_mem(RDI, 4);
    assert_eq!(*l.unwrap_mem(), RegAndOffset { reg: RDI, offs: 4 });
    l.unwrap_mem_mut().offs = 12;
    assert_eq!(l, Location::Mem(RegAndOffset { reg: RDI, offs: 12 }));
    assert_eq!(Location::Register(3).unwrap_reg(), 3);
}

#[test]
fn the_stack_is_built_downwards_from_the_base_pointer() {
    let mut sb = StackBuilder { stack_top: 0 };
    assert_eq!(sb.allocate(1, 1), Some(Location::new_mem(RBP, -1)));
    assert_eq!(sb.allocate(8, 8), Some(Location::new_mem(RBP, -16)));
    assert_eq!(sb.allocate(2, 4), Some(Location::new_mem(RBP, -18)));
    assert_eq!(sb.allocate(0, 16), Some(Location::new_mem(RBP, -32)));
    assert_eq!(sb.size(), 32);
    assert_eq!(sb.allocate(i32::MAX as u64, 1), None);
    assert_eq!(sb.size(), 32);
    assert_eq!(
        sb.allocate(i32::MAX as u64 - 32, 1),
        Some(Location::new_mem(RBP, -i32::MAX))
    );
    assert_eq!(sb.allocate(1, 1), None);
    assert_eq!(sb.allocate(0, 2), None);
}

#[test]
fn local_variables_live_in_registers_while_there_are_any() {
    let sir = sir();
    let mut tc = TraceCompiler::new(
        &sir,
        decls(&[
            (2, U64, false),
            (3, U8, false),
            (4, U64, false),
            (5, PAIR, false),
            (6, U64, true),
            (7, U128, false),
            (8, NOWHERE, false),
        ]),
        &vec![12, 13],
    );
    assert_eq!(tc.get_free_register(), Some(0));
    assert_eq!(tc.local_to_location(Local(1)), Ok(Location::new_mem(RDI, 0)));
    assert_eq!(tc.local_to_location(Local(2)), Ok(Location::Register(12)));
    assert_eq!(tc.local_to_location(Local(3)), Ok(Location::Register(13)));
    assert_eq!(tc.get_free_register(), None);
    // No register is left.
    assert_eq!(tc.local_to_location(Local(4)), Ok(Location::new_mem(RBP, -8)));
    // A structure does not fit; a variable that is referenced must be in
    // memory; an integer of 128 bits does not fit.
    assert_eq!(tc.local_to_location(Local(5)), Ok(Location::new_mem(RBP, -24)));
    assert_eq!(tc.free_register(&Local(2)), Ok(()));
    assert_eq!(tc.get_free_register(), Some(0));
    assert_eq!(tc.local_to_location(Local(6)), Ok(Location::new_mem(RBP, -32)));
    assert_eq!(tc.local_to_location(Local(7)), Ok(Location::new_mem(RBP, -48)));
    // A variable stays where it is.
    assert_eq!(tc.local_to_location(Local(3)), Ok(Location::Register(13)));
    assert_eq!(tc.local_to_location(Local(4)), Ok(Location::new_mem(RBP, -8)));
    assert_eq!(tc.local_to_location(Local(2)), Ok(Location::NotLive));
    // Unknown variables, unknown types.
    assert_eq!(tc.local_to_location(Local(9)), Err(CompileError::Malformed));
    assert_eq!(tc.local_to_location(Local(8)), Err(CompileError::Malformed));
    assert_eq!(tc.free_register(&Local(9)), Err(CompileError::Malformed));
    assert_eq!(
        tc.register_content_map,
        vec![(12, RegAlloc::Free), (13, RegAlloc::Local(3))]
    );
    assert_eq!(tc.stack_builder.size(), 48);
    assert_eq!(
        tc.iplace_to_location(&val(5, 8, U64)),
        Ok(Location::new_mem(RBP, -16))
    );
    assert_eq!(
        tc.iplace_to_location(&val(1, 16, U64)),
        Ok(Location::new_mem(RDI, 16))
    );
    assert_eq!(
        tc.iplace_to_location(&val(3, 1, U8)),
        Err(CompileError::Unsupported)
    );
    let seven = Constant::Int(ConstantInt::UnsignedInt(UnsignedInt::U64(7)));
    assert_eq!(
        tc.iplace_to_location(&IRPlace::Const {
            val: seven,
            ty: U64
        }),
        Ok(Location::Const(seven, U64))
    );
    assert_eq!(
        tc.iplace_to_location(&IRPlace::Indirect {
            ptr: Ptr {
                local: Local(1),
                off: 0
            },
            off: 0,
            ty: U64
        }),
        Err(CompileError::Unsupported)
    );
}

#[test]
fn what_can_live_in_a_register_can_be_copied() {
    let sir = sir();
    let decl = |ty, referenced| LocalDecl { ty, referenced };
    for (ty, fits) in [
        (U8, true),
        (U64, true),
        (REF, true),
        (BOOL, true),
        (PAIR, false),
        (U128, false),
        (I128, false),
        (ARRAY, false),
        (NOWHERE, false),
    ] {
        assert_eq!(TraceCompiler::can_live_in_register(&sir, &decl(ty, false)), fits);
        assert!(!TraceCompiler::can_live_in_register(&sir, &decl(ty, true)));
    }
    for (ty, copied) in [
        (U8, true),
        (REF, true),
        (BOOL, true),
        (ARRAY, true),
        (ARRAYS, true),
        (PAIR, false),
        (U128, false),
        (I128, false),
        (NOWHERE, false),
    ] {
        assert_eq!(TraceCompiler::is_copyable(&sir, &ty, 8), copied);
    }
    assert!(!TraceCompiler::is_copyable(&sir, &ARRAYS, 1));
    assert!(TraceCompiler::is_copyable(&sir, &ARRAYS, 2));
    assert!(!TraceCompiler::is_copyable(&sir, &ARRAY, 0));
}

#[test]
fn a_trace_is_compiled_statement_by_statement() {
    let sir = sir();
    let seven = Constant::Int(ConstantInt::UnsignedInt(UnsignedInt::U64(7)));
    let tt = TirTrace {
        ops: vec![
            TirOp::Statement(Statement::Store(
                val(2, 0, U64),
                IRPlace::Const {
                    val: seven,
                    ty: U64,
                },
            )),
            TirOp::Statement(Statement::Nop),
            TirOp::Statement(Statement::Store(val(5, 8, U64), val(2, 0, U64))),
            TirOp::Guard(Guard {
                val: val(2, 0, U64),
                kind: GuardKind::Integer(7),
            }),
            TirOp::Statement(Statement::StorageDead(Local(2))),
            TirOp::Statement(Statement::MkRef(val(3, 0, REF), val(5, 0, PAIR))),
            TirOp::Statement(Statement::Store(val(1, 8, U64), val(3, 0, REF))),
            TirOp::Statement(Statement::Leave),
            TirOp::Statement(Statement::Debug("done".to_string())),
        ],
        local_decls: decls(&[(2, U64, false), (3, REF, false), (5, PAIR, true)]),
        addr_map: vec![],
    };
    let ct = TraceCompiler::compile(&sir, tt, &vec![12]).unwrap();
    let pair = RegAndOffset {
        reg: RBP,
        offs: -16,
    };
    assert_eq!(
        ct.insts,
        vec![
            TraceInst::Store {
                dest: Location::Register(12),
                src: Location::Const(seven, U64),
                size: 8
            },
            TraceInst::Store {
                dest: Location::new_mem(RBP, -8),
                src: Location::Register(12),
                size: 8
            },
            TraceInst::Nop,
            TraceInst::Lea {
                dest: TEMP_REG,
                src: pair
            },
            // The register of the dead variable is used again.
            TraceInst::Store {
                dest: Location::Register(12),
                src: Location::Register(TEMP_REG),
                size: 8
            },
            TraceInst::Store {
                dest: Location::new_mem(RDI, 8),
                src: Location::Register(12),
                size: 8
            },
            TraceInst::Ret,
        ]
    );
    assert_eq!(ct.stack_size, 16);
    // An empty trace returns at once.
    let empty = TirTrace {
        ops: vec![],
        local_decls: HashMap::new(),
        addr_map: vec![],
    };
    let ct = TraceCompiler::compile(&sir, empty, &vec![]).unwrap();
    assert_eq!(ct.insts, vec![TraceInst::Ret]);
    assert_eq!(ct.stack_size, 0);
}

#[test]
fn what_the_compiler_does_not_know_is_refused() {
    let sir = sir();
    let mut tc = TraceCompiler::new(&sir, decls(&[(2, U64, false), (3, NOWHERE, false)]), &vec![12]);
    for stmt in [
        Statement::Cast,
        Statement::DynOffs,
        Statement::Unimplemented,
        Statement::StorageLive(Local(2)),
    ] {
        assert_eq!(tc.c_statement(&stmt), Err(CompileError::Unsupported));
    }
    assert!(tc.insts.is_empty());
    // A reference to what is in a register cannot be made.
    assert_eq!(
        tc.c_statement(&Statement::MkRef(val(2, 0, U64), val(2, 0, U64))),
        Err(CompileError::Unsupported)
    );
    assert_eq!(
        tc.c_statement(&Statement::Store(val(2, 0, NOWHERE), val(2, 0, U64))),
        Err(CompileError::Malformed)
    );
    assert_eq!(
        tc.c_statement(&Statement::Store(val(4, 0, U64), val(2, 0, U64))),
        Err(CompileError::Malformed)
    );
    assert_eq!(
        tc.c_statement(&Statement::StorageDead(Local(7))),
        Err(CompileError::Malformed)
    );
    assert!(tc.insts.is_empty());
}

#[test]
fn a_sum_goes_through_the_temporary_register() {
    let sir = sir();
    let add = |checked| Statement::BinaryOp {
        dest: val(5, 0, PAIR),
        op: BinOp::Add,
        opnd1: val(2, 0, U64),
        opnd2: val(3, 0, U64),
        checked,
    };
    let trace = |st: Statement| TirTrace {
        ops: vec![TirOp::Statement(st)],
        local_decls: decls(&[(2, U64, false), (3, U64, false), (5, PAIR, true)]),
        addr_map: vec![],
    };
    let ct = TraceCompiler::compile(&sir, trace(add(false)), &vec![12, 13]).unwrap();
    assert_eq!(
        ct.insts,
        vec![
            TraceInst::MovReg {
                dest: TEMP_REG,
                src: 12
            },
            TraceInst::Add {
                dest: TEMP_REG,
                src: 13
            },
            TraceInst::Store {
                dest: Location::new_mem(RBP, -16),
                src: Location::Register(TEMP_REG),
                size: 8
            },
            TraceInst::Ret,
        ]
    );
    // A checked sum has its flag behind it, which says that all is well.
    let ct = TraceCompiler::compile(&sir, trace(add(true)), &vec![12, 13]).unwrap();
    assert_eq!(
        ct.insts,
        vec![
            TraceInst::MovReg {
                dest: TEMP_REG,
                src: 12
            },
            TraceInst::Add {
                dest: TEMP_REG,
                src: 13
            },
            TraceInst::Store {
                dest: Location::new_mem(RBP, -16),
                src: Location::Register(TEMP_REG),
                size: 8
            },
            TraceInst::Zero { dest: TEMP_REG },
            TraceInst::Store {
                dest: Location::new_mem(RBP, -8),
                src: Location::Register(TEMP_REG),
                size: 1
            },
            TraceInst::Ret,
        ]
    );
    // Nothing but sums is compiled, and the second operand comes from a
    // register.
    let sub = Statement::BinaryOp {
        dest: val(5, 0, PAIR),
        op: BinOp::Sub,
        opnd1: val(2, 0, U64),
        opnd2: val(3, 0, U64),
        checked: false,
    };
    assert_eq!(
        TraceCompiler::compile(&sir, trace(sub), &vec![12, 13]).unwrap_err(),
        CompileError::Unsupported
    );
    assert_eq!(
        TraceCompiler::compile(&sir, trace(add(false)), &vec![12]).unwrap_err(),
        CompileError::Unsupported
    );
}
