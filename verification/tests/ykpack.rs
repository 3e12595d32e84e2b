use yk::ykpack::{
    BasicBlock, Constant, DefId, Mir, Operand, Pack, Place, Rvalue, Statement, Terminator, TyKind,
    TyS,
};

#[test]
fn assign_uses_vars_mut() {
    let mut s = Statement::Assign(Place::Local(42), Rvalue::Place(Place::Local(43)));
    assert_eq!(s.uses_vars_mut(), vec![&mut 43]);
}

#[test]
fn assign_defs_vars_mut() {
    let mut s = Statement::Assign(Place::Local(42), Rvalue::Place(Place::Local(43)));
    assert_eq!(s.defs_vars_mut(), vec![&mut 42]);
}

#[test]
fn phi_uses_vars_mut() {
    let mut s = Statement::Assign(
        Place::Local(44),
        Rvalue::Phi(vec![Place::Local(100), Place::Local(200)]),
    );
    assert_eq!(s.uses_vars_mut(), vec![&mut 100, &mut 200]);
}

#[test]
fn phi_defs_vars_mut() {
    let mut s = Statement::Assign(
        Place::Local(44),
        Rvalue::Phi(vec![Place::Local(100), Place::Local(200)]),
    );
    assert_eq!(s.defs_vars_mut(), vec![&mut 44]);
}

#[test]
fn renaming_through_the_references_changes_the_statement() {
    let mut s = Statement::Assign(
        Place::Local(1),
        Rvalue::Phi(vec![Place::Local(2), Place::Unimplemented, Place::Local(3)]),
    );
    for v in s.uses_vars_mut() {
        *v += 10;
    }
    for v in s.defs_vars_mut() {
        *v += 100;
    }
    assert_eq!(
        s,
        Statement::Assign(
            Place::Local(101),
            Rvalue::Phi(vec![Place::Local(12), Place::Unimplemented, Place::Local(13)]),
        )
    );
}

#[test]
fn entry_defs_are_defined_and_not_used() {
    let mut s = Statement::SsaEntryDefs(vec![7, 8, 9]);
    assert!(s.uses_vars_mut().is_empty());
    assert_eq!(s.defs_vars_mut(), vec![&mut 7, &mut 8, &mut 9]);
    for v in s.defs_vars_mut() {
        *v *= 2;
    }
    assert_eq!(s, Statement::SsaEntryDefs(vec![14, 16, 18]));
    assert!(Statement::Nop.defs_vars_mut().is_empty());
    assert!(Statement::Unimplemented.uses_vars_mut().is_empty());
}

#[test]
fn phi_statements_are_recognised() {
    let phi = Statement::Assign(Place::Local(1), Rvalue::Phi(vec![Place::Local(2)]));
    let plain = Statement::Assign(Place::Local(1), Rvalue::Place(Place::Local(2)));
    assert!(phi.is_phi());
    assert!(!plain.is_phi());
    assert!(!Statement::Nop.is_phi());
}

#[test]
fn phi_arguments_can_be_renamed() {
    let mut s = Statement::Assign(
        Place::Local(1),
        Rvalue::Phi(vec![Place::Local(2), Place::Unimplemented]),
    );
    *s.phi_arg_mut(0).unwrap() = 20;
    assert!(s.phi_arg_mut(1).is_none());
    assert_eq!(
        s,
        Statement::Assign(
            Place::Local(1),
            Rvalue::Phi(vec![Place::Local(20), Place::Unimplemented]),
        )
    );
    let mut plain = Statement::Assign(Place::Local(1), Rvalue::Place(Place::Local(2)));
    assert!(plain.phi_arg_mut(0).is_none());
}

#[test]
fn terminators_use_their_operands() {
    let mut ret = Terminator::Return { local: 5 };
    assert_eq!(ret.uses_vars_mut(), vec![&mut 5]);
    for v in ret.uses_vars_mut() {
        *v = 6;
    }
    assert_eq!(ret, Terminator::Return { local: 6 });
    let mut sw = Terminator::SwitchInt {
        discr: Operand::Copy(Place::Local(3)),
        target_bbs: vec![1, 2],
    };
    assert_eq!(sw.uses_vars_mut(), vec![&mut 3]);
    let mut goto = Terminator::Goto { target_bb: 1 };
    assert!(goto.uses_vars_mut().is_empty());
    let mut call = Terminator::Call {
        func: Operand::Constant(Constant {
            ty: TyS { sty: TyKind::Unimplemented },
        }),
        cleanup_bb: None,
        ret_bb: Some(1),
    };
    assert!(call.uses_vars_mut().is_empty());
}

#[test]
fn call_operands_name_their_callee() {
    let d = DefId::new(11, 22);
    let f = Operand::Constant(Constant {
        ty: TyS { sty: TyKind::FnDef(d) },
    });
    assert_eq!(f.call_operand_defid(), Some(&d));
    assert_eq!(Operand::Copy(Place::Local(1)).call_operand_defid(), None);
    let other = Operand::Constant(Constant {
        ty: TyS { sty: TyKind::Unimplemented },
    });
    assert_eq!(other.call_operand_defid(), None);
}

#[test]
fn graphs_are_built_from_their_parts() {
    let d = DefId::new(1, 2);
    assert_eq!(d.crate_hash, 1);
    assert_eq!(d.def_idx, 2);
    let b = BasicBlock::new(vec![Statement::Nop], Terminator::Abort);
    assert_eq!(b.stmts, vec![Statement::Nop]);
    assert_eq!(b.term, Terminator::Abort);
    let m = Mir::new(d, "a::b".to_string(), vec![b.clone()]);
    assert_eq!(m.def_id, d);
    assert_eq!(m.item_path_str, "a::b");
    assert_eq!(m.blocks, vec![b]);
    let p = Pack::Mir(m.clone());
    assert_eq!(p, Pack::Mir(m));
}
