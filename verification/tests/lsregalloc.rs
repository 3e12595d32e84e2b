use yk::jit_ir::{
    AbstractStack, AsmInst, CompilationError, Const, Inst, InstKind, Module, Operand, PtrAddInst,
    RevAnalyse, Ty, VarLocation,
};
use yk::lsregalloc::fp::RegConstraint;
use yk::lsregalloc::{GPConstraint, LSRegAlloc, RegExtension, RegState, SpillState};
use yk::regs::{AnyRegister, Register, Rq, Rx};

fn value(ty: Ty) -> Inst {
    Inst {
        kind: InstKind::Other,
        ty,
    }
}

/// An analysis of a trace of `n` instructions in which `uses[i]` are the
/// instructions that use the value of instruction `i`, in order.
fn analysis(uses: Vec<Vec<usize>>) -> RevAnalyse {
    let n = uses.len();
    RevAnalyse {
        alive_until: uses
            .iter()
            .enumerate()
            .map(|(i, u)| u.last().copied().unwrap_or(i))
            .collect(),
        def_use: uses,
        reg_hints: vec![None; n],
        ptradds: vec![None; n],
    }
}

fn input(op: Operand) -> GPConstraint {
    GPConstraint::Input {
        op,
        in_ext: RegExtension::Undefined,
        force_reg: None,
        clobber_reg: false,
    }
}

const FILLERS: usize = 11;
const A: usize = FILLERS;
const B: usize = FILLERS + 1;
const X: usize = FILLERS + 2;
const USE_A: usize = FILLERS + 3;
const USE_X: usize = FILLERS + 4;

/// `x = add(a, b); use(a); use(x)` after eleven values that live to the end
/// of the trace.
fn add_trace() -> (Module, RevAnalyse) {
    let m = Module::new(vec![value(Ty::Int(64)); USE_X + 1], vec![]);
    let mut uses = vec![vec![USE_X]; FILLERS];
    uses.push(vec![X, USE_A]);
    uses.push(vec![X]);
    uses.push(vec![USE_X]);
    uses.push(vec![]);
    uses.push(vec![]);
    (m, analysis(uses))
}

#[test]
fn a_clobbered_input_is_spilled_and_reloaded() {
    let (m, rev_an) = add_trace();
    let mut ra = LSRegAlloc::new(&m, rev_an, 0);
    let mut out = Vec::new();
    // `a` and `b` are in registers, and so is everything else: one register
    // is left.
    ra.force_assign_inst_gp_reg(&mut out, A, Rq::RAX).unwrap();
    ra.force_assign_inst_gp_reg(&mut out, B, Rq::RCX).unwrap();
    let fillers = [
        Rq::RDX,
        Rq::RBX,
        Rq::RSI,
        Rq::RDI,
        Rq::R8,
        Rq::R9,
        Rq::R10,
        Rq::R11,
        Rq::R12,
        Rq::R13,
        Rq::R14,
    ];
    for (i, reg) in fillers.iter().enumerate() {
        ra.force_assign_inst_gp_reg(&mut out, i, *reg).unwrap();
    }
    assert!(out.is_empty());
    assert_eq!(ra.gp_regset.find_empty(), Some(Rq::R15));

    let regs = ra
        .assign_gp_regs(
            &mut out,
            X,
            vec![
                GPConstraint::InputOutput {
                    op: Operand::Var(A),
                    in_ext: RegExtension::Undefined,
                    out_ext: RegExtension::ZeroExtended,
                    force_reg: None,
                },
                input(Operand::Var(B)),
            ],
        )
        .unwrap();
    // Both operands stay where they are; `a`, which is used again, is saved
    // first.
    assert_eq!(regs, vec![Rq::RAX, Rq::RCX]);
    assert_eq!(
        out,
        vec![AsmInst::Store {
            off: 8,
            reg: Rq::RAX,
            bytes: 8
        }]
    );
    assert_eq!(
        ra.gp_state(Rq::RAX),
        RegState::FromInst(X, RegExtension::ZeroExtended)
    );
    assert_eq!(ra.spills[A], SpillState::Stack(8));
    assert_eq!(
        ra.var_location(A),
        VarLocation::Stack {
            frame_off: 8,
            size: 8
        }
    );
    assert_eq!(ra.var_location(X), VarLocation::Register(AnyRegister::GP(Rq::RAX)));
    assert_eq!(ra.stack_size(), 8);
    assert_eq!(ra.find_op_in_gp_reg(&Operand::Var(A)), None);
    for (i, reg) in fillers.iter().enumerate() {
        assert_eq!(ra.find_op_in_gp_reg(&Operand::Var(i)), Some(*reg));
    }

    // `a` is loaded again for its next use, and not into the register of `x`.
    let regs = ra
        .assign_gp_regs(&mut out, USE_A, vec![input(Operand::Var(A))])
        .unwrap();
    assert_eq!(regs.len(), 1);
    assert!(regs[0] == Rq::R15 || regs[0] == Rq::RCX);
    assert_eq!(out.len(), 2);
    assert_eq!(
        out[1],
        AsmInst::LoadZx {
            reg: regs[0],
            off: 8,
            bytes: 8
        }
    );
    assert!(ra.is_input_in_gp_reg(&Operand::Var(A), regs[0]));
    assert_eq!(
        ra.gp_state(Rq::RAX),
        RegState::FromInst(X, RegExtension::ZeroExtended)
    );

    // `x` is where the addition left it.
    let regs = ra
        .assign_gp_regs(&mut out, USE_X, vec![input(Operand::Var(X))])
        .unwrap();
    assert_eq!(regs, vec![Rq::RAX]);
    assert_eq!(out.len(), 2);
    for (i, reg) in fillers.iter().enumerate() {
        assert_eq!(ra.find_op_in_gp_reg(&Operand::Var(i)), Some(*reg));
    }
}

#[test]
fn with_no_register_left_one_is_freed() {
    let (m, rev_an) = add_trace();
    let mut ra = LSRegAlloc::new(&m, rev_an, 0);
    let mut out = Vec::new();
    let all = [
        Rq::RAX,
        Rq::RCX,
        Rq::RDX,
        Rq::RBX,
        Rq::RSI,
        Rq::RDI,
        Rq::R8,
        Rq::R9,
        Rq::R10,
        Rq::R11,
        Rq::R12,
        Rq::R13,
        Rq::R14,
        Rq::R15,
    ];
    ra.force_assign_inst_gp_reg(&mut out, A, all[0]).unwrap();
    ra.force_assign_inst_gp_reg(&mut out, B, all[1]).unwrap();
    for i in 0..FILLERS {
        ra.force_assign_inst_gp_reg(&mut out, i, all[i + 2]).unwrap();
    }
    // The last register holds a value that is spilled already.
    ra.force_assign_inst_gp_reg(&mut out, USE_A, Rq::R15).unwrap();
    ra.rev_an.alive_until[USE_A] = USE_X;
    ra.spill_gp_if_not_already(&mut out, 0, Rq::R15).unwrap();
    assert_eq!(ra.spills[USE_A], SpillState::Stack(8));
    assert_eq!(ra.gp_regset.find_empty(), None);
    let before = out.len();
    let regs = ra
        .assign_gp_regs(
            &mut out,
            X,
            vec![
                input(Operand::Var(A)),
                input(Operand::Var(B)),
                GPConstraint::Output {
                    out_ext: RegExtension::Undefined,
                    force_reg: None,
                    can_be_same_as_input: false,
                },
            ],
        )
        .unwrap();
    assert_eq!(regs[0], Rq::RAX);
    assert_eq!(regs[1], Rq::RCX);
    assert!(regs[2] != Rq::RAX && regs[2] != Rq::RCX);
    assert_eq!(
        ra.gp_state(regs[2]),
        RegState::FromInst(X, RegExtension::Undefined)
    );
    // Whatever was in the register of the result can still be found.
    for i in 0..FILLERS {
        assert!(
            ra.find_op_in_gp_reg(&Operand::Var(i)).is_some()
                || ra.spills[i] != SpillState::Empty
        );
    }
    assert!(ra.find_op_in_gp_reg(&Operand::Var(A)).is_some());
    // The register whose value was spilled already was the one to go: it
    // costs nothing.
    assert_eq!(regs[2], Rq::R15);
    assert_eq!(out.len(), before);
}

#[test]
fn registers_that_are_insisted_on_are_given() {
    let m = Module::new(
        vec![
            value(Ty::Int(32)),
            value(Ty::Int(64)),
            Inst {
                kind: InstKind::Const(0),
                ty: Ty::Int(32),
            },
            value(Ty::Int(64)),
        ],
        vec![Const::Int { bitw: 32, v: 7 }],
    );
    let rev_an = analysis(vec![vec![3], vec![3], vec![3], vec![]]);
    let mut ra = LSRegAlloc::new(&m, rev_an, 0);
    let mut out = Vec::new();
    ra.force_assign_inst_gp_reg(&mut out, 0, Rq::RAX).unwrap();
    ra.force_assign_inst_gp_reg(&mut out, 1, Rq::RCX).unwrap();
    let regs = ra
        .assign_gp_regs(
            &mut out,
            3,
            vec![
                GPConstraint::Input {
                    op: Operand::Var(0),
                    in_ext: RegExtension::ZeroExtended,
                    force_reg: Some(Rq::RCX),
                    clobber_reg: false,
                },
                GPConstraint::Input {
                    op: Operand::Var(1),
                    in_ext: RegExtension::Undefined,
                    force_reg: Some(Rq::RAX),
                    clobber_reg: true,
                },
                GPConstraint::Input {
                    op: Operand::Const(0),
                    in_ext: RegExtension::Undefined,
                    force_reg: Some(Rq::RDX),
                    clobber_reg: false,
                },
                GPConstraint::Clobber { force_reg: Rq::R8 },
                GPConstraint::Temporary,
                GPConstraint::Ignore,
            ],
        )
        .unwrap();
    assert_eq!(&regs[..4], &[Rq::RCX, Rq::RAX, Rq::RDX, Rq::R8]);
    assert_eq!(regs[5], Rq::RAX);
    assert!(![Rq::RCX, Rq::RAX, Rq::RDX, Rq::R8, Rq::RSP, Rq::RBP].contains(&regs[4]));
    // The two values change places, the narrow one is zero extended, and the
    // constant is loaded.
    assert_eq!(
        out,
        vec![
            AsmInst::Xchg {
                a: Rq::RAX,
                b: Rq::RCX
            },
            AsmInst::MovZx32 { reg: Rq::RCX },
            AsmInst::MovImm32 { reg: Rq::RDX, v: 7 },
        ]
    );
    assert_eq!(
        ra.gp_state(Rq::RCX),
        RegState::FromInst(0, RegExtension::ZeroExtended)
    );
    assert_eq!(ra.gp_state(Rq::RAX), RegState::Empty);
    assert!(ra.is_input_in_gp_reg(&Operand::Const(0), Rq::RDX));
    assert_eq!(ra.gp_state(Rq::R8), RegState::Empty);
    assert_eq!(ra.gp_state(regs[4]), RegState::Empty);
}

#[test]
fn registers_expire_with_their_values() {
    let m = Module::new(vec![value(Ty::Int(64)); 4], vec![]);
    let rev_an = analysis(vec![vec![1], vec![3], vec![], vec![]]);
    let mut ra = LSRegAlloc::new(&m, rev_an, 0);
    let mut out = Vec::new();
    ra.force_assign_inst_gp_reg(&mut out, 0, Rq::RAX).unwrap();
    ra.force_assign_inst_gp_reg(&mut out, 1, Rq::RCX).unwrap();
    ra.force_assign_inst_fp_reg(2, Rx::XMM3);
    ra.expire_regs(1);
    assert_eq!(
        ra.gp_state(Rq::RAX),
        RegState::FromInst(0, RegExtension::Undefined)
    );
    ra.expire_regs(2);
    assert_eq!(ra.gp_state(Rq::RAX), RegState::Empty);
    assert!(!ra.gp_regset.is_set(Rq::RAX));
    assert_eq!(
        ra.gp_state(Rq::RCX),
        RegState::FromInst(1, RegExtension::Undefined)
    );
    assert_eq!(
        ra.fp_state(Rx::XMM3),
        RegState::FromInst(2, RegExtension::Undefined)
    );
    ra.expire_regs(3);
    assert_eq!(ra.fp_state(Rx::XMM3), RegState::Empty);
    assert!(ra.gp_regset.is_set(Rq::RCX));
    // The reserved registers stay reserved.
    assert_eq!(ra.gp_state(Rq::RSP), RegState::Reserved);
    assert_eq!(ra.gp_state(Rq::RBP), RegState::Reserved);
}

#[test]
fn spill_slots_are_aligned_to_their_width() {
    let m = Module::new(
        vec![
            value(Ty::Int(8)),
            value(Ty::Int(64)),
            value(Ty::Int(16)),
            value(Ty::Int(32)),
            value(Ty::Int(1)),
            value(Ty::Int(24)),
        ],
        vec![],
    );
    let rev_an = analysis(vec![vec![5]; 6]);
    let mut ra = LSRegAlloc::new(&m, rev_an, 3);
    assert_eq!(ra.stack_size(), 3);
    let mut out = Vec::new();
    let regs = [Rq::RAX, Rq::RCX, Rq::RDX, Rq::RBX, Rq::RSI, Rq::RDI];
    for (i, reg) in regs.iter().enumerate() {
        ra.force_assign_inst_gp_reg(&mut out, i, *reg).unwrap();
    }
    for (i, (off, bytes)) in [(4, 1), (16, 8), (18, 2), (24, 4)].iter().enumerate() {
        ra.spill_gp_if_not_already(&mut out, 0, regs[i]).unwrap();
        assert_eq!(ra.spills[i], SpillState::Stack(*off));
        assert_eq!(
            out.last(),
            Some(&AsmInst::Store {
                off: *off,
                reg: regs[i],
                bytes: *bytes
            })
        );
        assert_eq!(ra.stack_size(), *off as usize);
    }
    // A second time nothing is stored.
    let n = out.len();
    ra.spill_gp_if_not_already(&mut out, 0, Rq::RCX).unwrap();
    assert_eq!(out.len(), n);
    // Nor is a value stored that is not used again.
    let mut dead = LSRegAlloc::new(&m, analysis(vec![vec![5]; 6]), 0);
    dead.force_assign_inst_gp_reg(&mut out, 0, Rq::RAX).unwrap();
    dead.spill_gp_if_not_already(&mut out, 5, Rq::RAX).unwrap();
    assert_eq!(dead.spills[0], SpillState::Empty);
    assert_eq!(out.len(), n);
    // A single bit is stored as a byte that is 0 or 1.
    ra.spill_gp_if_not_already(&mut out, 0, Rq::RSI).unwrap();
    assert_eq!(ra.spills[4], SpillState::Stack(25));
    assert_eq!(
        &out[n..],
        &[
            AsmInst::AndImm32 {
                reg: Rq::RSI,
                mask: 1
            },
            AsmInst::Store {
                off: 25,
                reg: Rq::RSI,
                bytes: 1
            }
        ]
    );
    // A value of a width that no store has cannot be spilled.
    assert_eq!(
        ra.spill_gp_if_not_already(&mut out, 0, Rq::RDI),
        Err(CompilationError::General)
    );
    assert_eq!(ra.align_stack(16), 32);
    assert_eq!(ra.stack_size(), 32);
}

#[test]
fn the_stack_grows_in_aligned_steps() {
    let mut s = AbstractStack::new();
    assert_eq!(s.size(), 0);
    s.align(8);
    assert_eq!(s.size(), 0);
    assert_eq!(s.grow(3), 3);
    s.align(8);
    assert_eq!(s.size(), 8);
    s.align(8);
    assert_eq!(s.size(), 8);
    assert_eq!(s.grow(1), 9);
    s.align(1);
    assert_eq!(s.size(), 9);
    s.align(16);
    assert_eq!(s.size(), 16);
}

#[test]
fn values_are_extended_to_the_width_of_the_register() {
    let m = Module::new(vec![value(Ty::Int(8)), value(Ty::Int(1))], vec![]);
    let ra = LSRegAlloc::new(&m, analysis(vec![vec![], vec![]]), 0);
    let mut out = Vec::new();
    for (bits, inst) in [
        (
            1,
            Some(AsmInst::AndImm32 {
                reg: Rq::RAX,
                mask: 1,
            }),
        ),
        (
            24,
            Some(AsmInst::AndImm32 {
                reg: Rq::RAX,
                mask: 0xff_ffff,
            }),
        ),
        (
            8,
            Some(AsmInst::AndImm32 {
                reg: Rq::RAX,
                mask: 0xff,
            }),
        ),
        (
            16,
            Some(AsmInst::AndImm32 {
                reg: Rq::RAX,
                mask: 0xffff,
            }),
        ),
        (32, Some(AsmInst::MovZx32 { reg: Rq::RAX })),
        (64, None),
    ] {
        out.clear();
        ra.force_zero_extend_to_reg64(&mut out, Rq::RAX, bits).unwrap();
        assert_eq!(out, inst.into_iter().collect::<Vec<_>>(), "{} bits", bits);
    }
    out.clear();
    ra.force_sign_extend_to_reg64(&mut out, Rq::RCX, 1).unwrap();
    assert_eq!(
        out,
        vec![AsmInst::AndOne { reg: Rq::RCX }, AsmInst::Neg { reg: Rq::RCX }]
    );
    for bits in [8u8, 16, 32] {
        out.clear();
        ra.force_sign_extend_to_reg64(&mut out, Rq::RCX, bits as u32)
            .unwrap();
        assert_eq!(
            out,
            vec![AsmInst::MovSx {
                reg: Rq::RCX,
                from_bits: bits
            }]
        );
    }
    out.clear();
    ra.force_sign_extend_to_reg64(&mut out, Rq::RCX, 64).unwrap();
    assert!(out.is_empty());
    assert!(ra.force_zero_extend_to_reg64(&mut out, Rq::RAX, 33).is_err());
    assert!(ra.force_zero_extend_to_reg64(&mut out, Rq::RAX, 0).is_err());
    assert!(ra.force_sign_extend_to_reg64(&mut out, Rq::RAX, 24).is_err());
    assert!(ra.force_sign_extend_to_reg64(&mut out, Rq::RAX, 0).is_err());
}

#[test]
fn a_guard_notes_the_registers_that_must_be_extended() {
    let m = Module::new(
        vec![
            value(Ty::Int(8)),
            value(Ty::Int(32)),
            value(Ty::Int(64)),
            Inst {
                kind: InstKind::Const(0),
                ty: Ty::Int(8),
            },
        ],
        vec![Const::Int { bitw: 8, v: 1 }],
    );
    let mut ra = LSRegAlloc::new(&m, analysis(vec![vec![3]; 4]), 0);
    let mut out = Vec::new();
    ra.force_assign_inst_gp_reg(&mut out, 0, Rq::RAX).unwrap();
    ra.force_assign_inst_gp_reg(&mut out, 1, Rq::RCX).unwrap();
    ra.set_gp(Rq::RCX, RegState::FromInst(1, RegExtension::ZeroExtended));
    ra.set_gp(Rq::RDX, RegState::FromInst(0, RegExtension::SignExtended));
    ra.force_assign_inst_direct(2, -16);
    let g = ra.guard_snapshot(&vec![
        Operand::Var(1),
        Operand::Var(0),
        Operand::Const(0),
        Operand::Var(2),
        Operand::Var(0),
    ]);
    assert_eq!(g.regs_to_zero_ext, vec![(Rq::RAX, 8), (Rq::RAX, 8)]);
    ra.get_ready_for_deopt(&mut out, &g).unwrap();
    assert_eq!(
        out,
        vec![
            AsmInst::AndImm32 {
                reg: Rq::RAX,
                mask: 0xff
            };
            2
        ]
    );
    // The allocator itself is as it was.
    assert_eq!(
        ra.gp_state(Rq::RAX),
        RegState::FromInst(0, RegExtension::Undefined)
    );
}

#[test]
fn values_are_found_where_they_were_put() {
    let m = Module::new(
        vec![
            value(Ty::Int(64)),
            value(Ty::Ptr),
            value(Ty::Int(32)),
            value(Ty::Double),
            Inst {
                kind: InstKind::Const(0),
                ty: Ty::Int(32),
            },
            value(Ty::Int(8)),
        ],
        vec![Const::Int { bitw: 32, v: 9 }],
    );
    let mut rev_an = analysis(vec![vec![5]; 6]);
    rev_an.ptradds[1] = Some(PtrAddInst {
        ptr: Operand::Var(0),
        off: 8,
    });
    rev_an.reg_hints[2] = Some(AnyRegister::GP(Rq::R9));
    let mut ra = LSRegAlloc::new(&m, rev_an, 0);
    assert_eq!(
        ra.ptradd(1),
        Some(PtrAddInst {
            ptr: Operand::Var(0),
            off: 8
        })
    );
    assert_eq!(ra.ptradd(0), None);
    assert_eq!(ra.rev_an.reg_hint(2), Some(AnyRegister::GP(Rq::R9)));
    assert_eq!(ra.rev_an.next_use(0, 0), Some(5));
    assert_eq!(ra.rev_an.next_use(5, 0), None);
    assert!(ra.rev_an.is_inst_var_still_used_at(5, 0));
    assert!(!ra.rev_an.is_inst_var_still_used_after(5, 0));
    ra.force_assign_inst_direct(0, -24);
    ra.force_assign_inst_indirect(1, 16);
    ra.assign_const(2, 32, 77);
    ra.force_assign_inst_fp_reg(3, Rx::XMM1);
    assert_eq!(
        ra.var_location(0),
        VarLocation::Direct {
            frame_off: -24,
            size: 8
        }
    );
    assert_eq!(
        ra.var_location(1),
        VarLocation::Stack {
            frame_off: 16,
            size: 8
        }
    );
    assert_eq!(ra.var_location(2), VarLocation::ConstInt { bits: 32, v: 77 });
    assert_eq!(
        ra.var_location(3),
        VarLocation::Register(AnyRegister::FP(Rx::XMM1))
    );
    assert_eq!(ra.var_location(4), VarLocation::ConstInt { bits: 32, v: 9 });
    assert_eq!(ra.find_op_in_fp_reg(&Operand::Var(3)), Some(Rx::XMM1));
    assert!(ra.is_input_in_fp_reg(&Operand::Var(3), Rx::XMM1));
    assert!(ra.in_fp_reg(3));
    assert!(!ra.in_fp_reg(0));
    // Each comes back into a register in its own way.
    let mut out = Vec::new();
    ra.force_gp_unspill(&mut out, 0, Rq::RAX).unwrap();
    ra.force_gp_unspill(&mut out, 1, Rq::RCX).unwrap();
    ra.force_gp_unspill(&mut out, 2, Rq::RDX).unwrap();
    ra.force_gp_unspill(&mut out, 4, Rq::RBX).unwrap();
    assert_eq!(
        out,
        vec![
            AsmInst::Lea {
                reg: Rq::RAX,
                off: -24
            },
            AsmInst::LoadZx {
                reg: Rq::RCX,
                off: 16,
                bytes: 8
            },
            AsmInst::MovImm32 { reg: Rq::RDX, v: 77 },
            AsmInst::MovImm32 { reg: Rq::RBX, v: 9 },
        ]
    );
    assert_eq!(
        ra.gp_state(Rq::RBX),
        RegState::FromConst(0, RegExtension::ZeroExtended)
    );
    // A value that is nowhere cannot be brought back.
    assert_eq!(
        ra.force_gp_unspill(&mut out, 5, Rq::RSI),
        Err(CompilationError::InternalError)
    );
    // After the header of the trace the registers are free again; the spill
    // slots stay.
    ra.reset(analysis(vec![vec![5]; 6]));
    assert_eq!(ra.gp_state(Rq::RAX), RegState::Empty);
    assert_eq!(ra.fp_state(Rx::XMM1), RegState::Empty);
    assert_eq!(ra.gp_state(Rq::RSP), RegState::Reserved);
    assert_eq!(ra.spills[1], SpillState::Stack(16));
    assert_eq!(ra.rev_an.ptradds[1], None);
}

#[test]
fn floating_point_registers_are_assigned_too() {
    let m = Module::new(
        vec![
            value(Ty::Double),
            value(Ty::Float),
            Inst {
                kind: InstKind::Const(0),
                ty: Ty::Double,
            },
            value(Ty::Double),
            value(Ty::Double),
        ],
        vec![Const::Float {
            double: true,
            bits: 0x3ff0_0000_0000_0000,
        }],
    );
    let rev_an = analysis(vec![vec![3, 4], vec![3], vec![3], vec![4], vec![]]);
    let mut ra = LSRegAlloc::new(&m, rev_an, 0);
    let mut out = Vec::new();
    ra.force_assign_inst_fp_reg(0, Rx::XMM0);
    ra.force_assign_inst_fp_reg(1, Rx::XMM1);
    let (gp, fp) = ra
        .assign_regs(
            &mut out,
            3,
            vec![],
            vec![
                RegConstraint::InputOutput(Operand::Var(0)),
                RegConstraint::InputIntoReg(Operand::Var(1), Rx::XMM7),
                RegConstraint::Input(Operand::Const(0)),
                RegConstraint::Clobber(Rx::XMM9),
            ],
        )
        .unwrap();
    assert!(gp.is_empty());
    assert_eq!(fp[0], Rx::XMM0);
    assert_eq!(fp[1], Rx::XMM7);
    assert_eq!(fp[3], Rx::XMM9);
    assert!(![Rx::XMM0, Rx::XMM7, Rx::XMM9].contains(&fp[2]));
    // The value that the result overwrites is used again: it moves to a
    // register that is free.
    let saved = ra.find_op_in_fp_reg(&Operand::Var(0)).unwrap();
    assert!(![Rx::XMM0, Rx::XMM7, Rx::XMM9, fp[2]].contains(&saved));
    assert_eq!(
        out,
        vec![
            AsmInst::MovFpRR {
                dst: Rx::XMM7,
                src: Rx::XMM1
            },
            AsmInst::MovFpRR {
                dst: saved,
                src: Rx::XMM0
            },
            AsmInst::LoadFpImm {
                reg: fp[2],
                double: true,
                bits: 0x3ff0_0000_0000_0000
            },
        ]
    );
    assert_eq!(
        ra.fp_state(Rx::XMM0),
        RegState::FromInst(3, RegExtension::Undefined)
    );
    assert_eq!(ra.spills[0], SpillState::Empty);
    assert_eq!(ra.fp_state(Rx::XMM9), RegState::Empty);
    assert_eq!(ra.fp_state(Rx::XMM1), RegState::Empty);
    // It is found there for its next use.
    let (_, fp) = ra
        .assign_regs(
            &mut out,
            4,
            vec![],
            vec![
                RegConstraint::Input(Operand::Var(0)),
                RegConstraint::Input(Operand::Var(3)),
                RegConstraint::Output,
            ],
        )
        .unwrap();
    assert_eq!(fp[0], saved);
    assert_eq!(fp[1], Rx::XMM0);
    assert_eq!(
        ra.fp_state(fp[2]),
        RegState::FromInst(4, RegExtension::Undefined)
    );
    assert_eq!(out.len(), 3);
    // With no register to be had nothing is assigned: floating point
    // registers are not freed.
    for c in 0..16 {
        let reg = Rx::from_code(c);
        if ra.fp_state(reg) == RegState::Empty {
            ra.set_fp(reg, RegState::FromInst(1, RegExtension::Undefined));
        }
    }
    assert_eq!(
        ra.assign_regs(&mut out, 4, vec![], vec![RegConstraint::Temporary]),
        Err(CompilationError::General)
    );
    assert_eq!(
        ra.assign_regs(
            &mut out,
            4,
            vec![],
            vec![RegConstraint::OutputCanBeSameAsInput(Operand::Var(0))]
        ),
        Err(CompilationError::General)
    );
    // A value can be stored and loaded by hand.
    let mut out = Vec::new();
    ra.spill_fp_if_not_already(&mut out, saved).unwrap();
    assert_eq!(
        out,
        vec![AsmInst::StoreFp {
            off: 8,
            reg: saved,
            bytes: 8
        }]
    );
    assert_eq!(ra.spills[0], SpillState::Stack(8));
    ra.force_fp_unspill(&mut out, 0, Rx::XMM2).unwrap();
    assert_eq!(
        out.last(),
        Some(&AsmInst::LoadFp {
            reg: Rx::XMM2,
            off: 8,
            bytes: 8
        })
    );
}

#[test]
fn registers_are_numbered_as_the_processor_numbers_them() {
    assert_eq!(Rq::RAX.code(), 0);
    assert_eq!(Rq::RSP.code(), 4);
    assert_eq!(Rq::RBP.code(), 5);
    assert_eq!(Rq::R15.code(), 15);
    assert_eq!(Rx::XMM0.code(), 0);
    assert_eq!(Rx::XMM15.code(), 15);
    for c in 0..16 {
        assert_eq!(Rq::from_code(c).code(), c);
        assert_eq!(Rx::from_code(c).code(), c);
    }
    assert_eq!(Ty::Int(1).bitw(), 1);
    assert_eq!(Ty::Int(1).byte_size(), 1);
    assert_eq!(Ty::Int(9).byte_size(), 2);
    assert_eq!(Ty::Int(64).byte_size(), 8);
    assert_eq!(Ty::Ptr.bitw(), 64);
    assert_eq!(Ty::Float.bitw(), 32);
    assert_eq!(Ty::Double.byte_size(), 8);
    assert_eq!(Ty::Void.byte_size(), 0);
    assert!(Ty::Float.is_float());
    assert!(Ty::Double.is_float());
    assert!(!Ty::Ptr.is_float());
    assert_eq!(Const::Int { bitw: 7, v: 1 }.ty(), Ty::Int(7));
    assert_eq!(Const::Ptr(1).ty(), Ty::Ptr);
    assert_eq!(
        Const::Float {
            double: false,
            bits: 0
        }
        .ty(),
        Ty::Float
    );
}
