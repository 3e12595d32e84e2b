//! The x64 register files and sets of registers.

use core::marker::PhantomData;
use vstd::prelude::*;
use vstd::std_specs::bits::*;

verus! {

/// A register of one of the two x64 register files. Each file has sixteen
/// registers, numbered 0 to 15 in the order of their machine encoding.
pub trait Register: Sized + Copy {
    /// The register's machine encoding.
    spec fn spec_code(&self) -> u8;

    /// Every encoding is below sixteen, and the encoding identifies the register.
    proof fn lemma_code(a: Self, b: Self)
        ensures
            a.spec_code() < 16,
            a.spec_code() == b.spec_code() ==> a == b,
    ;

    /// The register's machine encoding.
    fn code(&self) -> (c: u8)
        ensures
            c == self.spec_code(),
            c < 16,
    ;

    /// The register with encoding `c`.
    fn from_code(c: u8) -> (r: Self)
        requires
            c < 16,
        ensures
            r.spec_code() == c,
    ;
}

/// The general purpose registers.
#[derive(Debug, Clone, Copy, PartialEq, Eq, Structural)]
pub enum Rq {
    RAX,
    RCX,
    RDX,
    RBX,
    RSP,
    RBP,
    RSI,
    RDI,
    R8,
    R9,
    R10,
    R11,
    R12,
    R13,
    R14,
    R15,
}

/// The floating point registers.
#[derive(Debug, Clone, Copy, PartialEq, Eq, Structural)]
pub enum Rx {
    XMM0,
    XMM1,
    XMM2,
    XMM3,
    XMM4,
    XMM5,
    XMM6,
    XMM7,
    XMM8,
    XMM9,
    XMM10,
    XMM11,
    XMM12,
    XMM13,
    XMM14,
    XMM15,
}

impl Register for Rq {
    open spec fn spec_code(&self) -> u8 {
        match *self {
            Rq::RAX => 0,
            Rq::RCX => 1,
            Rq::RDX => 2,
            Rq::RBX => 3,
            Rq::RSP => 4,
            Rq::RBP => 5,
            Rq::RSI => 6,
            Rq::RDI => 7,
            Rq::R8 => 8,
            Rq::R9 => 9,
            Rq::R10 => 10,
            Rq::R11 => 11,
            Rq::R12 => 12,
            Rq::R13 => 13,
            Rq::R14 => 14,
            Rq::R15 => 15,
        }
    }

    proof fn lemma_code(a: Self, b: Self) {
    }

    fn code(&self) -> (c: u8) {
        match *self {
            Rq::RAX => 0,
            Rq::RCX => 1,
            Rq::RDX => 2,
            Rq::RBX => 3,
            Rq::RSP => 4,
            Rq::RBP => 5,
            Rq::RSI => 6,
            Rq::RDI => 7,
            Rq::R8 => 8,
            Rq::R9 => 9,
            Rq::R10 => 10,
            Rq::R11 => 11,
            Rq::R12 => 12,
            Rq::R13 => 13,
            Rq::R14 => 14,
            Rq::R15 => 15,
        }
    }

    fn from_code(c: u8) -> (r: Self) {
        match c {
            0 => Rq::RAX,
            1 => Rq::RCX,
            2 => Rq::RDX,
            3 => Rq::RBX,
            4 => Rq::RSP,
            5 => Rq::RBP,
            6 => Rq::RSI,
            7 => Rq::RDI,
            8 => Rq::R8,
            9 => Rq::R9,
            10 => Rq::R10,
            11 => Rq::R11,
            12 => Rq::R12,
            13 => Rq::R13,
            14 => Rq::R14,
            _ => Rq::R15,
        }
    }
}

impl Register for Rx {
    open spec fn spec_code(&self) -> u8 {
        match *self {
            Rx::XMM0 => 0,
            Rx::XMM1 => 1,
            Rx::XMM2 => 2,
            Rx::XMM3 => 3,
            Rx::XMM4 => 4,
            Rx::XMM5 => 5,
            Rx::XMM6 => 6,
            Rx::XMM7 => 7,
            Rx::XMM8 => 8,
            Rx::XMM9 => 9,
            Rx::XMM10 => 10,
            Rx::XMM11 => 11,
            Rx::XMM12 => 12,
            Rx::XMM13 => 13,
            Rx::XMM14 => 14,
            Rx::XMM15 => 15,
        }
    }

    proof fn lemma_code(a: Self, b: Self) {
    }

    fn code(&self) -> (c: u8) {
        match *self {
            Rx::XMM0 => 0,
            Rx::XMM1 => 1,
            Rx::XMM2 => 2,
            Rx::XMM3 => 3,
            Rx::XMM4 => 4,
            Rx::XMM5 => 5,
            Rx::XMM6 => 6,
            Rx::XMM7 => 7,
            Rx::XMM8 => 8,
            Rx::XMM9 => 9,
            Rx::XMM10 => 10,
            Rx::XMM11 => 11,
            Rx::XMM12 => 12,
            Rx::XMM13 => 13,
            Rx::XMM14 => 14,
            Rx::XMM15 => 15,
        }
    }

    fn from_code(c: u8) -> (r: Self) {
        match c {
            0 => Rx::XMM0,
            1 => Rx::XMM1,
            2 => Rx::XMM2,
            3 => Rx::XMM3,
            4 => Rx::XMM4,
            5 => Rx::XMM5,
            6 => Rx::XMM6,
            7 => Rx::XMM7,
            8 => Rx::XMM8,
            9 => Rx::XMM9,
            10 => Rx::XMM10,
            11 => Rx::XMM11,
            12 => Rx::XMM12,
            13 => Rx::XMM13,
            14 => Rx::XMM14,
            _ => Rx::XMM15,
        }
    }
}

/// The general purpose register with encoding `c`.
pub open spec fn gp_reg(c: int) -> Rq {
    if c == 0 {
        Rq::RAX
    } else if c == 1 {
        Rq::RCX
    } else if c == 2 {
        Rq::RDX
    } else if c == 3 {
        Rq::RBX
    } else if c == 4 {
        Rq::RSP
    } else if c == 5 {
        Rq::RBP
    } else if c == 6 {
        Rq::RSI
    } else if c == 7 {
        Rq::RDI
    } else if c == 8 {
        Rq::R8
    } else if c == 9 {
        Rq::R9
    } else if c == 10 {
        Rq::R10
    } else if c == 11 {
        Rq::R11
    } else if c == 12 {
        Rq::R12
    } else if c == 13 {
        Rq::R13
    } else if c == 14 {
        Rq::R14
    } else {
        Rq::R15
    }
}

/// The floating point register with encoding `c`.
pub open spec fn fp_reg(c: int) -> Rx {
    if c == 0 {
        Rx::XMM0
    } else if c == 1 {
        Rx::XMM1
    } else if c == 2 {
        Rx::XMM2
    } else if c == 3 {
        Rx::XMM3
    } else if c == 4 {
        Rx::XMM4
    } else if c == 5 {
        Rx::XMM5
    } else if c == 6 {
        Rx::XMM6
    } else if c == 7 {
        Rx::XMM7
    } else if c == 8 {
        Rx::XMM8
    } else if c == 9 {
        Rx::XMM9
    } else if c == 10 {
        Rx::XMM10
    } else if c == 11 {
        Rx::XMM11
    } else if c == 12 {
        Rx::XMM12
    } else if c == 13 {
        Rx::XMM13
    } else if c == 14 {
        Rx::XMM14
    } else {
        Rx::XMM15
    }
}

/// A register of either file.
#[derive(Debug, Clone, Copy, PartialEq, Eq, Structural)]
pub enum AnyRegister {
    GP(Rq),
    FP(Rx),
}

/// Is bit `c` of `bits` set?
pub open spec fn bit_set(bits: u16, c: u16) -> bool {
    (bits >> c) & 1u16 != 0u16
}

/// The register encodings whose bit is set in `bits`.
pub open spec fn codes_of(bits: u16) -> Set<int> {
    Set::new(|c: int| 0 <= c < 16 && bit_set(bits, c as u16))
}

proof fn lemma_bit_or(bits: u16, c: u16, k: u16)
    requires
        c < 16,
        k < 16,
    ensures
        bit_set(bits | (1u16 << c), k) == (bit_set(bits, k) || k == c),
{
    assert(c < 16 && k < 16 ==> ((((bits | (1u16 << c)) >> k) & 1u16 != 0u16) == (((bits >> k) & 1u16
        != 0u16) || k == c))) by (bit_vector);
}

proof fn lemma_bit_clear(bits: u16, c: u16, k: u16)
    requires
        c < 16,
        k < 16,
    ensures
        bit_set(bits & !(1u16 << c), k) == (bit_set(bits, k) && k != c),
{
    assert(c < 16 && k < 16 ==> ((((bits & !(1u16 << c)) >> k) & 1u16 != 0u16) == (((bits >> k)
        & 1u16 != 0u16) && k != c))) by (bit_vector);
}

proof fn lemma_bit_union(a: u16, b: u16, k: u16)
    requires
        k < 16,
    ensures
        bit_set(a | b, k) == (bit_set(a, k) || bit_set(b, k)),
{
    assert(k < 16 ==> ((((a | b) >> k) & 1u16 != 0u16) == (((a >> k) & 1u16 != 0u16) || ((b >> k)
        & 1u16 != 0u16)))) by (bit_vector);
}

proof fn lemma_bit_test(bits: u16, c: u16)
    requires
        c < 16,
    ensures
        (bits & (1u16 << c) != 0u16) == bit_set(bits, c),
{
    assert(c < 16 ==> ((bits & (1u16 << c) != 0u16) == ((bits >> c) & 1u16 != 0u16)))
        by (bit_vector);
}

proof fn lemma_bit_zero(k: u16)
    requires
        k < 16,
    ensures
        !bit_set(0u16, k),
{
    assert((0u16 >> k) & 1u16 == 0u16) by (bit_vector);
}

proof fn lemma_bit_not(bits: u16, k: u16)
    requires
        k < 16,
    ensures
        bit_set(!bits, k) == !bit_set(bits, k),
{
    assert(k < 16 ==> ((((!bits) >> k) & 1u16 != 0u16) == !((bits >> k) & 1u16 != 0u16)))
        by (bit_vector);
}

proof fn lemma_bits_full(bits: u16)
    ensures
        (bits == 0xffffu16) == (!bits == 0u16),
{
    assert((bits == 0xffffu16) == (!bits == 0u16)) by (bit_vector);
}

/// Which registers of a file of sixteen are in use? One bit per register.
#[derive(Debug)]
pub struct RegSet<R> {
    bits: u16,
    _pd: PhantomData<R>,
}

impl<R> Clone for RegSet<R> {
    fn clone(&self) -> (s: Self)
        ensures
            s == *self,
    {
        RegSet { bits: self.bits, _pd: PhantomData }
    }
}

impl<R> Copy for RegSet<R> {

}

impl<R: Register> View for RegSet<R> {
    type V = Set<int>;

    /// The encodings of the registers in the set.
    closed spec fn view(&self) -> Set<int> {
        codes_of(self.bits)
    }
}

impl<R: Register> RegSet<R> {
    /// Is `reg` in the set?
    pub open spec fn has(&self, reg: R) -> bool {
        self@.contains(reg.spec_code() as int)
    }

    /// The set holds encodings below sixteen only, so it is finite.
    pub proof fn lemma_bounded(&self)
        ensures
            self@.finite(),
            self@.len() <= 16,
            forall|c: int| self@.contains(c) ==> 0 <= c < 16,
    {
        let full = Set::new(|c: int| 0 <= c < 16);
        vstd::set_lib::lemma_int_range(0, 16);
        assert(full =~= vstd::set_lib::set_int_range(0, 16));
        assert(self@.subset_of(full));
        vstd::set_lib::lemma_len_subset(self@, full);
    }

    /// The set as its sixteen bits, lowest encoding at bit 0.
    pub fn bits(&self) -> (b: u16)
        ensures
            codes_of(b) == self@,
    {
        self.bits
    }

    /// Create a set with no register in it.
    pub fn blank() -> (s: Self)
        ensures
            s@ == Set::<int>::empty(),
    {
        let s = RegSet { bits: 0, _pd: PhantomData };
        proof {
            assert forall|c: int| !codes_of(0u16).contains(c) by {
                if 0 <= c < 16 {
                    lemma_bit_zero(c as u16);
                }
            }
            assert(s@ =~= Set::<int>::empty());
        }
        s
    }

    /// The set that holds `reg` alone.
    pub fn from_reg(reg: R) -> (s: Self)
        ensures
            s@ == Set::<int>::empty().insert(reg.spec_code() as int),
    {
        let mut s = Self::blank();
        s.set(reg);
        s
    }

    /// Add every register of `other` to the set.
    pub fn union(&mut self, other: Self)
        ensures
            final(self)@ == old(self)@.union(other@),
    {
        let ghost pre = self.bits;
        self.bits = self.bits | other.bits;
        proof {
            assert forall|c: int|
                codes_of(pre | other.bits).contains(c) == (codes_of(pre).contains(c) || codes_of(
                    other.bits,
                ).contains(c)) by {
                if 0 <= c < 16 {
                    lemma_bit_union(pre, other.bits, c as u16);
                }
            }
            assert(self@ =~= codes_of(pre).union(other@));
        }
    }

    /// Is `reg` in the set?
    pub fn is_set(&self, reg: R) -> (b: bool)
        ensures
            b == self.has(reg),
    {
        let c: u16 = reg.code() as u16;
        proof {
            lemma_bit_test(self.bits, c);
        }
        self.bits & (1u16 << c) != 0
    }

    /// Add `reg` to the set.
    pub fn set(&mut self, reg: R)
        ensures
            final(self)@ == old(self)@.insert(reg.spec_code() as int),
    {
        let c: u16 = reg.code() as u16;
        let ghost pre = self.bits;
        self.bits = self.bits | (1u16 << c);
        proof {
            assert forall|k: int|
                codes_of(pre | (1u16 << c)).contains(k) == codes_of(pre).insert(c as int).contains(
                    k,
                ) by {
                if 0 <= k < 16 {
                    lemma_bit_or(pre, c, k as u16);
                }
            }
            assert(self@ =~= codes_of(pre).insert(c as int));
        }
    }

    /// Remove `reg` from the set.
    pub fn unset(&mut self, reg: R)
        ensures
            final(self)@ == old(self)@.remove(reg.spec_code() as int),
    {
        let c: u16 = reg.code() as u16;
        let ghost pre = self.bits;
        self.bits = self.bits & !(1u16 << c);
        proof {
            assert forall|k: int|
                codes_of(pre & !(1u16 << c)).contains(k) == codes_of(pre).remove(c as int).contains(
                    k,
                ) by {
                if 0 <= k < 16 {
                    lemma_bit_clear(pre, c, k as u16);
                }
            }
            assert(self@ =~= codes_of(pre).remove(c as int));
        }
    }

    /// The highest-numbered register that is not in the set, if there is one.
    /// The low registers are the ones x64 instructions are most likely to
    /// name, so the high ones are handed out first.
    pub fn find_empty(&self) -> (r: Option<R>)
        ensures
            is_highest_free(self@, Set::<int>::empty(), r),
    {
        let r = highest_clear_bit(self.bits);
        match r {
            Some(c) => Some(R::from_code(c)),
            None => None,
        }
    }

    /// The highest-numbered register that is neither in the set nor in `avoid`,
    /// if there is one.
    pub fn find_empty_avoiding(&self, avoid: RegSet<R>) -> (r: Option<R>)
        ensures
            is_highest_free(self@, avoid@, r),
    {
        let x: u16 = self.bits | avoid.bits;
        proof {
            assert forall|c: int|
                codes_of(x).contains(c) == (self@.contains(c) || avoid@.contains(c)) by {
                if 0 <= c < 16 {
                    lemma_bit_union(self.bits, avoid.bits, c as u16);
                }
            }
        }
        let r = highest_clear_bit(x);
        proof {
            assert forall|k: int| 0 <= k < 16 && bit_set(x, k as u16) implies self@.contains(k)
                || avoid@.contains(k) by {
                assert(codes_of(x).contains(k));
            }
            if let Some(c) = r {
                assert(!codes_of(x).contains(c as int));
            }
        }
        match r {
            Some(c) => Some(R::from_code(c)),
            None => None,
        }
    }

    /// The registers of the set, lowest encoding first.
    pub fn iter_set_bits(&self) -> (v: Vec<R>)
        ensures
            v@.len() == self@.len(),
            forall|i: int, j: int|
                0 <= i < j < v@.len() ==> #[trigger] v@[i].spec_code() < #[trigger] v@[j].spec_code(),
            forall|i: int| 0 <= i < v@.len() ==> self.has(#[trigger] v@[i]),
            forall|c: int| self@.contains(c) ==> exists|i: int|
                0 <= i < v@.len() && #[trigger] v@[i].spec_code() == c,
    {
        let mut v: Vec<R> = Vec::new();
        let mut c: u8 = 0;
        let ghost mut seen: Set<int> = Set::empty();
        while c < 16
            invariant
                c <= 16,
                seen == self@.filter(|k: int| k < c),
                seen.finite(),
                v@.len() == seen.len(),
                forall|i: int| 0 <= i < v@.len() ==> (#[trigger] v@[i]).spec_code() < c,
                forall|i: int, j: int|
                    0 <= i < j < v@.len() ==> #[trigger] v@[i].spec_code() < #[trigger] v@[j].spec_code(),
                forall|i: int| 0 <= i < v@.len() ==> self.has(#[trigger] v@[i]),
                forall|k: int|
                    seen.contains(k) ==> exists|i: int|
                        0 <= i < v@.len() && #[trigger] v@[i].spec_code() == k,
            decreases 16 - c,
        {
            let reg = R::from_code(c);
            let ghost prev = seen;
            let ghost pv = v@;
            if self.is_set(reg) {
                v.push(reg);
                proof {
                    seen = prev.insert(c as int);
                    assert(seen =~= self@.filter(|k: int| k < c + 1));
                    assert forall|k: int| seen.contains(k) implies exists|i: int|
                        0 <= i < v@.len() && #[trigger] v@[i].spec_code() == k by {
                        if k == c {
                            assert(v@[pv.len() as int].spec_code() == k);
                        } else {
                            let i = choose|i: int|
                                0 <= i < pv.len() && #[trigger] pv[i].spec_code() == k;
                            assert(v@[i].spec_code() == k);
                        }
                    }
                }
            } else {
                proof {
                    assert(seen =~= self@.filter(|k: int| k < c + 1));
                }
            }
            c = c + 1;
        }
        proof {
            self.lemma_bounded();
            assert(seen =~= self@);
        }
        v
    }
}

/// `r` is the highest encoding below sixteen in neither `used` nor `avoid`;
/// there is none exactly when the two cover the file.
pub open spec fn is_highest_free<R: Register>(used: Set<int>, avoid: Set<int>, r: Option<R>) -> bool {
    match r {
        Some(reg) => {
            &&& !used.contains(reg.spec_code() as int)
            &&& !avoid.contains(reg.spec_code() as int)
            &&& forall|c: int|
                reg.spec_code() < c < 16 ==> used.contains(c) || avoid.contains(c)
        },
        None => forall|c: int| 0 <= c < 16 ==> used.contains(c) || avoid.contains(c),
    }
}

/// The position of the highest clear bit of `x`, if it has one.
fn highest_clear_bit(x: u16) -> (r: Option<u8>)
    ensures
        match r {
            Some(c) => c < 16 && !bit_set(x, c as u16) && forall|k: u16|
                c < k < 16 ==> #[trigger] bit_set(x, k),
            None => forall|k: u16| k < 16 ==> #[trigger] bit_set(x, k),
        },
{
    let nx: u16 = !x;
    proof {
        lemma_bits_full(x);
        axiom_u16_leading_zeros(nx);
    }
    if x == u16::MAX {
        proof {
            assert forall|k: u16| k < 16 implies #[trigger] bit_set(x, k) by {
                assert(k < 16 ==> (0xffffu16 >> k) & 1u16 != 0u16) by (bit_vector);
            }
        }
        None
    } else {
        let lz: u32 = nx.leading_zeros();
        let c: u8 = (15 - lz) as u8;
        proof {
            let cc = c as u16;
            assert(cc == (15u16 - lz as u16) as u16);
            assert(bit_set(nx, cc));
            lemma_bit_not(x, cc);
            assert forall|k: u16| c < k < 16 implies #[trigger] bit_set(x, k) by {
                assert((nx >> k) & 1u16 == 0u16);
                lemma_bit_not(x, k);
            }
        }
        Some(c)
    }
}

impl RegSet<Rq> {
    /// The set of the general purpose registers that are never handed out:
    /// the stack pointer and the base pointer.
    pub fn with_gp_reserved() -> (s: Self)
        ensures
            s@ == gp_reserved(),
    {
        let mut s = Self::blank();
        s.set(Rq::RSP);
        s.set(Rq::RBP);
        proof {
            assert(s@ =~= gp_reserved());
        }
        s
    }

    /// The set of the registers in `regs`.
    pub fn from_vec(regs: &Vec<Rq>) -> (s: Self)
        ensures
            forall|c: int|
                s@.contains(c) <==> exists|i: int|
                    0 <= i < regs@.len() && #[trigger] regs@[i].spec_code() == c,
    {
        let mut s = Self::blank();
        let mut i: usize = 0;
        while i < regs.len()
            invariant
                i <= regs@.len(),
                forall|c: int|
                    s@.contains(c) <==> exists|j: int|
                        0 <= j < i && #[trigger] regs@[j].spec_code() == c,
            decreases regs@.len() - i,
        {
            let ghost pre = s@;
            s.set(regs[i]);
            proof {
                assert forall|c: int| s@.contains(c) <==> exists|j: int|
                    0 <= j < i + 1 && #[trigger] regs@[j].spec_code() == c by {
                    if s@.contains(c) {
                        if c == regs@[i as int].spec_code() {
                            assert(regs@[i as int].spec_code() == c);
                        } else {
                            assert(pre.contains(c));
                            let j = choose|j: int|
                                0 <= j < i && #[trigger] regs@[j].spec_code() == c;
                            assert(regs@[j].spec_code() == c);
                        }
                    }
                    if exists|j: int| 0 <= j < i + 1 && #[trigger] regs@[j].spec_code() == c {
                        let j = choose|j: int|
                            0 <= j < i + 1 && #[trigger] regs@[j].spec_code() == c;
                        if j < i {
                            assert(pre.contains(c));
                        }
                    }
                }
            }
            i = i + 1;
        }
        s
    }
}

impl RegSet<Rx> {
    /// The set of the floating point registers that are never handed out:
    /// there are none.
    pub fn with_fp_reserved() -> (s: Self)
        ensures
            s@ == Set::<int>::empty(),
    {
        Self::blank()
    }
}

/// The encodings of the reserved general purpose registers.
pub open spec fn gp_reserved() -> Set<int> {
    Set::<int>::empty().insert(4).insert(5)
}

} // verus!
