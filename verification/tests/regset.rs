use yk::regs::{AnyRegister, RegSet, Register, Rq, Rx};

#[test]
fn regset() {
    let mut x = RegSet::blank();
    assert!(!x.is_set(Rq::R15));
    assert_eq!(x.find_empty(), Some(Rq::R15));
    x.set(Rq::R15);
    assert!(x.is_set(Rq::R15));
    assert_eq!(x.find_empty(), Some(Rq::R14));
    x.set(Rq::R14);
    assert_eq!(x.find_empty(), Some(Rq::R13));
    x.unset(Rq::R14);
    assert_eq!(x.find_empty(), Some(Rq::R14));
    for code in 0..16u8 {
        let reg = Rq::from_code(code);
        x.set(reg);
        assert!(x.is_set(reg));
    }
    assert_eq!(x.find_empty(), None);
    x.unset(Rq::RAX);
    assert!(!x.is_set(Rq::RAX));
    assert_eq!(x.find_empty(), Some(Rq::RAX));

    let mut x = RegSet::blank();
    x.set(Rq::R15);
    let mut y = RegSet::blank();
    y.set(Rq::R14);
    x.union(y);
    assert_eq!(x.iter_set_bits(), vec![Rq::R14, Rq::R15]);

    let x = RegSet::<Rq>::blank();
    assert_eq!(x.find_empty_avoiding(RegSet::from_reg(Rq::R15)), Some(Rq::R14));
}

#[test]
fn registers_are_numbered_in_order() {
    let gp = [
        Rq::RAX, Rq::RCX, Rq::RDX, Rq::RBX, Rq::RSP, Rq::RBP, Rq::RSI, Rq::RDI, Rq::R8, Rq::R9,
        Rq::R10, Rq::R11, Rq::R12, Rq::R13, Rq::R14, Rq::R15,
    ];
    for (i, reg) in gp.iter().enumerate() {
        assert_eq!(reg.code(), i as u8);
        assert_eq!(Rq::from_code(i as u8), *reg);
    }
    for i in 0..16u8 {
        assert_eq!(Rx::from_code(i).code(), i);
    }
    assert_eq!(Rx::XMM0.code(), 0);
    assert_eq!(Rx::XMM15.code(), 15);
    assert_ne!(AnyRegister::GP(Rq::RAX), AnyRegister::FP(Rx::XMM0));
}

#[test]
fn reserved_registers_are_never_free() {
    let gp = RegSet::with_gp_reserved();
    assert!(gp.is_set(Rq::RSP));
    assert!(gp.is_set(Rq::RBP));
    assert_eq!(gp.iter_set_bits(), vec![Rq::RSP, Rq::RBP]);
    assert_eq!(gp.bits(), 0b11_0000);
    let fp = RegSet::with_fp_reserved();
    assert!(fp.iter_set_bits().is_empty());
    assert_eq!(fp.find_empty(), Some(Rx::XMM15));
}

#[test]
fn sets_are_built_from_lists() {
    let s = RegSet::from_vec(&vec![Rq::RCX, Rq::R8, Rq::RCX]);
    assert_eq!(s.iter_set_bits(), vec![Rq::RCX, Rq::R8]);
    let mut full = RegSet::<Rx>::blank();
    for i in 0..16u8 {
        full.set(Rx::from_code(i));
    }
    assert_eq!(full.find_empty(), None);
    assert_eq!(RegSet::<Rx>::blank().find_empty_avoiding(full), None);
    let copy = s;
    assert_eq!(copy.bits(), s.bits());
}
