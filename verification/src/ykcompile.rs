//! The trace compiler's bookkeeping: where each local variable of a trace
//! lives while the trace executes, in a register or on the stack, and the
//! moves between those places that the statements of the trace come to.
//! Turning the moves into machine code is left to the assembler.

use crate::sir::{
    BinOp, Constant, IRPlace, Local, LocalDecl, SignedIntTy, Sir, Statement, TyKind, TypeId,
    UnsignedIntTy, INTERP_STEP_ARG,
};
use crate::tir::{TirOp, TirTrace};
use std::collections::HashMap;
use vstd::prelude::*;

verus! {

broadcast use vstd::std_specs::hash::group_hash_axioms;

/// The encoding of the register in which the argument of the interpreter's
/// step function arrives.
pub const RDI: u8 = 7;

/// The encoding of the base pointer.
pub const RBP: u8 = 5;

/// The encoding of the register that holds values in passing.
pub const TEMP_REG: u8 = 11;

/// Why a trace could not be compiled.
#[derive(Debug, PartialEq, Eq)]
pub enum CompileError {
    /// The symbol could not be found.
    UnknownSymbol(String),
    /// The trace uses something that the compiler does not handle.
    Unsupported,
    /// The trace names a local variable or a type of which nothing is
    /// known.
    Malformed,
}

/// A memory location: `offs` bytes from where the register `reg` points.
#[derive(Debug, Clone, Copy, PartialEq, Eq, Structural)]
pub struct RegAndOffset {
    pub reg: u8,
    pub offs: i32,
}

/// Where a value is.
#[derive(Debug, Clone, Copy, PartialEq, Eq, Structural)]
pub enum Location {
    /// In a register.
    Register(u8),
    /// In memory, at an offset from a register that is known when the
    /// trace is compiled.
    Mem(RegAndOffset),
    /// Nowhere: the value is a constant.
    Const(Constant, TypeId),
    /// Nowhere: the value is not live.
    NotLive,
}

impl Location {
    /// The memory location `offs` bytes from where the register `reg`
    /// points.
    pub fn new_mem(reg: u8, offs: i32) -> (l: Self)
        ensures
            l == Location::Mem(RegAndOffset { reg, offs }),
    {
        Location::Mem(RegAndOffset { reg, offs })
    }

    /// The memory location that this is.
    pub fn unwrap_mem(&self) -> (r: &RegAndOffset)
        requires
            *self is Mem,
        ensures
            *self == Location::Mem(*r),
    {
        match self {
            Location::Mem(ro) => ro,
            _ => unreached(),
        }
    }

    /// The memory location that this is, to be changed.
    pub fn unwrap_mem_mut(&mut self) -> (r: &mut RegAndOffset)
        requires
            *old(self) is Mem,
        ensures
            *old(self) == Location::Mem(*r),
            *final(self) == Location::Mem(*final(r)),
    {
        match self {
            Location::Mem(ro) => ro,
            _ => unreached(),
        }
    }

    /// The register that this is.
    pub fn unwrap_reg(&self) -> (r: u8)
        requires
            *self is Register,
        ensures
            *self == Location::Register(r),
    {
        match self {
            Location::Register(reg) => *reg,
            _ => unreached(),
        }
    }
}

/// The location `off` bytes on from the location `loc`. A location that is
/// not in memory has no such location, but for itself; nor has one whose
/// offset could not be encoded.
pub open spec fn place_at(loc: Location, off: u32) -> Option<Location> {
    if off == 0 {
        Some(loc)
    } else {
        match loc {
            Location::Mem(ro) => if off <= i32::MAX && ro.offs + off <= i32::MAX {
                Some(Location::Mem(RegAndOffset { reg: ro.reg, offs: (ro.offs + off) as i32 }))
            } else {
                None
            },
            _ => None,
        }
    }
}

/// The number of bytes that a value of the type of the place `ip` takes.
pub open spec fn type_size(ip: IRPlace, sir: &Sir) -> Option<u64> {
    match ip.spec_ty() {
        Some(t) => match sir.spec_ty(t, 0) {
            Some(i) => Some(sir.types@[i as int].1.size),
            None => None,
        },
        None => None,
    }
}

/// The instructions for the sum of the values at `a` and `b`, each `size`
/// bytes wide, to be put at `d`, with the flag that says whether the sum has
/// overflowed behind it if the addition is checked. The first operand is
/// brought into the temporary register from a register or from memory, the
/// second is added to it from a register, and the sum is stored. Only
/// values eight bytes wide are added. The flag is stored as a zero: that
/// the sum has overflowed is not found out. A flag goes to memory only.
/// `None` where this is not to be had.
pub open spec fn binop_insts(a: Location, b: Location, d: Location, size: Option<u64>, checked: bool) -> Option<
    Seq<TraceInst>,
> {
    let first = match a {
        Location::Register(r) => Some(TraceInst::MovReg { dest: TEMP_REG, src: r }),
        Location::Mem(ro) => Some(TraceInst::LoadByte { dest: TEMP_REG, src: ro }),
        _ => None,
    };
    if first is None || size != Some(8u64) || !(b is Register) {
        None
    } else {
        let sum = seq![
            first.unwrap(),
            TraceInst::Add { dest: TEMP_REG, src: b->Register_0 },
            TraceInst::Store { dest: d, src: Location::Register(TEMP_REG), size: 8 },
        ];
        if !checked {
            Some(sum)
        } else {
            match d {
                Location::Mem(ro) => if ro.offs <= i32::MAX - 8 {
                    Some(
                        sum.push(TraceInst::Zero { dest: TEMP_REG }).push(
                            TraceInst::Store {
                                dest: Location::Mem(RegAndOffset { reg: ro.reg, offs: (ro.offs + 8) as i32 }),
                                src: Location::Register(TEMP_REG),
                                size: 1,
                            },
                        ),
                    )
                } else {
                    None
                },
                _ => None,
            }
        }
    }
}

/// Why the sum of the values at `a` and `b`, each `size` bytes wide, is
/// not to be had: nothing is known of the size of operands that are where
/// operands can be; or it is not supported.
pub open spec fn binop_err(a: Location, b: Location, size: Option<u64>) -> CompileError {
    if (a is Register || a is Mem) && b is Register && size is None {
        CompileError::Malformed
    } else {
        CompileError::Unsupported
    }
}

/// The name of the register with the number `r`; the empty name for a
/// register that there is not.
pub open spec fn reg_name(r: u8) -> Seq<char> {
    if r == 0 {
        "rax"@
    } else if r == 1 {
        "rcx"@
    } else if r == 2 {
        "rdx"@
    } else if r == 3 {
        "rbx"@
    } else if r == 4 {
        "rsp"@
    } else if r == 5 {
        "rbp"@
    } else if r == 6 {
        "rsi"@
    } else if r == 7 {
        "rdi"@
    } else if r == 8 {
        "r8"@
    } else if r == 9 {
        "r9"@
    } else if r == 10 {
        "r10"@
    } else if r == 11 {
        "r11"@
    } else if r == 12 {
        "r12"@
    } else if r == 13 {
        "r13"@
    } else if r == 14 {
        "r14"@
    } else if r == 15 {
        "r15"@
    } else {
        ""@
    }
}

/// The name of the register that `loc` is; the empty name for a location
/// that is no register, or a register that there is not.
pub fn local_to_reg_name(loc: &Location) -> (r: &'static str)
    ensures
        r@ == match *loc {
            Location::Register(c) => reg_name(c),
            _ => ""@,
        },
        !(*loc is Register) ==> r@.len() == 0,
{
    proof {
        reveal_strlit("");
    }
    match loc {
        Location::Register(r) => match r {
            0 => "rax",
            1 => "rcx",
            2 => "rdx",
            3 => "rbx",
            4 => "rsp",
            5 => "rbp",
            6 => "rsi",
            7 => "rdi",
            8 => "r8",
            9 => "r9",
            10 => "r10",
            11 => "r11",
            12 => "r12",
            13 => "r13",
            14 => "r14",
            15 => "r15",
            _ => "",
        },
        _ => "",
    }
}

/// The hexadecimal digit for `n`, which is below sixteen.
pub open spec fn hex_digit(n: int) -> char {
    if n == 0 {
        '0'
    } else if n == 1 {
        '1'
    } else if n == 2 {
        '2'
    } else if n == 3 {
        '3'
    } else if n == 4 {
        '4'
    } else if n == 5 {
        '5'
    } else if n == 6 {
        '6'
    } else if n == 7 {
        '7'
    } else if n == 8 {
        '8'
    } else if n == 9 {
        '9'
    } else if n == 10 {
        'a'
    } else if n == 11 {
        'b'
    } else if n == 12 {
        'c'
    } else if n == 13 {
        'd'
    } else if n == 14 {
        'e'
    } else {
        'f'
    }
}

/// The bytes `data` in hexadecimal: two digits for each byte, the more
/// significant first.
pub open spec fn hex_string(data: Seq<u8>) -> Seq<char>
    decreases data.len(),
{
    if data.len() == 0 {
        Seq::empty()
    } else {
        hex_string(data.drop_last()) + seq![
            hex_digit(data.last() as int / 16),
            hex_digit(data.last() as int % 16),
        ]
    }
}

/// `hex::encode`: the bytes as a string of lowercase hexadecimal digits, two
/// for each byte.
#[verifier::external_body]
fn hex_encode(data: &Vec<u8>) -> (s: String)
    ensures
        s@ == hex_string(data@),
{
    hex::encode(data)
}

/// The machine code `code` as it is handed to a disassembler when the
/// compiler has crashed: in hexadecimal, or a note that there is none.
pub fn crash_dump_code(code: &Vec<u8>) -> (s: String)
    ensures
        s@ == if code@.len() == 0 {
            "<empty buffer>"@
        } else {
            hex_string(code@)
        },
{
    if code.len() == 0 {
        "<empty buffer>".to_string()
    } else {
        hex_encode(code)
    }
}

/// What a register that is handed out to local variables holds.
#[derive(Debug, Clone, Copy, PartialEq, Eq, Structural)]
pub enum RegAlloc {
    /// The local variable of this number.
    Local(u32),
    Free,
}

/// Allocates memory on the stack of the trace.
#[derive(Debug, Clone, Copy, PartialEq, Eq, Structural)]
pub struct StackBuilder {
    /// How many bytes of the stack are taken.
    pub stack_top: u64,
}

impl StackBuilder {
    /// How many bytes of the stack are taken once `size` more bytes have
    /// been allocated at a multiple of `align`.
    pub open spec fn next_top(&self, size: u64, align: u64) -> int
        recommends
            align > 0,
    {
        if self.stack_top % align == 0 {
            self.stack_top + size
        } else {
            self.stack_top + (align - self.stack_top % align) + size
        }
    }

    /// Allocate `size` bytes at a multiple of `align`, which must not be
    /// zero, below the base pointer. `None`, and no change, if the offset
    /// cannot be encoded.
    pub fn allocate(&mut self, size: u64, align: u64) -> (r: Option<Location>)
        requires
            align > 0,
        ensures
            ({
                let top = old(self).next_top(size, align);
                match r {
                    Some(l) => top <= i32::MAX && final(self).stack_top == top && l
                        == Location::Mem(RegAndOffset { reg: RBP, offs: (-top) as i32 }),
                    None => top > i32::MAX && final(self).stack_top == old(self).stack_top,
                }
            }),
    {
        let rem = self.stack_top % align;
        let pad = if rem == 0 {
            0
        } else {
            align - rem
        };
        if pad > i32::MAX as u64 || self.stack_top > i32::MAX as u64 - pad {
            return None;
        }
        let base = self.stack_top + pad;
        if size > i32::MAX as u64 - base {
            return None;
        }
        let top = base + size;
        self.stack_top = top;
        Some(Location::new_mem(RBP, -(top as i32)))
    }

    /// The size of the stack.
    pub fn size(&self) -> (r: u64)
        ensures
            r == self.stack_top,
    {
        self.stack_top
    }
}

/// What the trace compiler tells the assembler to do.
#[allow(inconsistent_fields)]
#[derive(Debug, Clone, Copy, PartialEq, Eq, Structural)]
pub enum TraceInst {
    /// Do nothing.
    Nop,
    /// Copy `size` bytes from `src` to `dest`.
    Store { dest: Location, src: Location, size: u64 },
    /// Put the address of the memory location `src` into the register
    /// `dest`.
    Lea { dest: u8, src: RegAndOffset },
    /// Copy the register `src` into the register `dest`.
    MovReg { dest: u8, src: u8 },
    /// Load the byte at `src` into the low byte of the register `dest`.
    LoadByte { dest: u8, src: RegAndOffset },
    /// Add the register `src` to the register `dest`.
    Add { dest: u8, src: u8 },
    /// Put zero into the register `dest`.
    Zero { dest: u8 },
    /// Return from the trace.
    Ret,
}

/// The result of compiling a trace: what the assembler is to assemble, and
/// how much of the stack the trace takes.
#[derive(Debug)]
pub struct CompiledTrace {
    pub insts: Vec<TraceInst>,
    pub stack_size: u64,
}

/// Compiles a trace.
pub struct TraceCompiler<'a> {
    /// What each register that is handed out to local variables holds.
    pub register_content_map: Vec<(u8, RegAlloc)>,
    /// Where each local variable of the trace is.
    pub variable_location_map: HashMap<u32, Location>,
    /// What is known of each local variable of the trace.
    pub local_decls: HashMap<u32, LocalDecl>,
    /// Allocates the stack of the trace.
    pub stack_builder: StackBuilder,
    /// What has been compiled so far.
    pub insts: Vec<TraceInst>,
    /// The program.
    pub sir: &'a Sir,
}

impl<'a> TraceCompiler<'a> {
    /// Can a value of the type with the identifier `ty`, of which no
    /// reference is taken, live in a register: is it an integer of up to 64
    /// bits, a reference, or a Boolean?
    pub open spec fn fits_register(sir: &Sir, ty: TypeId) -> bool {
        match sir.spec_ty(ty, 0) {
            Some(i) => match sir.types@[i as int].1.kind {
                TyKind::UnsignedInt(u) => !(u is U128),
                TyKind::SignedInt(s) => !(s is I128),
                TyKind::Ref(_) => true,
                TyKind::Bool => true,
                _ => false,
            },
            None => false,
        }
    }

    /// Can the local variable with the declaration `decl` live in a
    /// register? A variable that is referenced has to be in memory.
    pub fn can_live_in_register(sir: &Sir, decl: &LocalDecl) -> (r: bool)
        ensures
            r == (!decl.referenced && Self::fits_register(sir, decl.ty)),
    {
        if decl.referenced {
            return false;
        }
        match sir.ty(&decl.ty) {
            Some(i) => match &sir.types[i].1.kind {
                TyKind::UnsignedInt(u) => !matches!(u, UnsignedIntTy::U128),
                TyKind::SignedInt(s) => !matches!(s, SignedIntTy::I128),
                TyKind::Ref(_) | TyKind::Bool => true,
                _ => false,
            },
            None => false,
        }
    }

    /// Is a value of the type with the identifier `ty` copied when it is
    /// dereferenced: does it fit a register, or is it an array or a slice,
    /// nested no deeper than `depth`, of values that are?
    pub open spec fn spec_copyable(sir: &Sir, ty: TypeId, depth: nat) -> bool
        decreases depth,
    {
        match sir.spec_ty(ty, 0) {
            Some(i) => match sir.types@[i as int].1.kind {
                TyKind::Array(e) => depth > 0 && Self::spec_copyable(sir, e, (depth - 1) as nat),
                TyKind::Slice(e) => depth > 0 && Self::spec_copyable(sir, e, (depth - 1) as nat),
                _ => Self::fits_register(sir, ty),
            },
            None => false,
        }
    }

    /// Is a value of the type with the identifier `ty` copied when it is
    /// dereferenced: is it an integer of up to 64 bits, a reference or a
    /// Boolean, or an array or a slice of such values? `depth` bounds how
    /// deeply arrays are looked into.
    pub fn is_copyable(sir: &Sir, ty: &TypeId, depth: usize) -> (r: bool)
        ensures
            r == Self::spec_copyable(sir, *ty, depth as nat),
        decreases depth,
    {
        match sir.ty(ty) {
            Some(i) => match &sir.types[i].1.kind {
                TyKind::UnsignedInt(u) => !matches!(u, UnsignedIntTy::U128),
                TyKind::SignedInt(s) => !matches!(s, SignedIntTy::I128),
                TyKind::Array(ety) | TyKind::Slice(ety) => {
                    if depth == 0 {
                        false
                    } else {
                        Self::is_copyable(sir, ety, depth - 1)
                    }
                },
                TyKind::Ref(_) | TyKind::Bool => true,
                _ => false,
            },
            None => false,
        }
    }

    /// The first register, from position `from` on, that is free.
    pub open spec fn spec_free_register(map: Seq<(u8, RegAlloc)>, from: int) -> Option<int>
        decreases map.len() - from,
    {
        if from < 0 || from >= map.len() {
            None
        } else if map[from].1 is Free {
            Some(from)
        } else {
            Self::spec_free_register(map, from + 1)
        }
    }

    /// Create a compiler for a trace with the local variables
    /// `local_decls`, which hands out the registers `regs`.
    pub fn new(sir: &'a Sir, local_decls: HashMap<u32, LocalDecl>, regs: &Vec<u8>) -> (tc: Self)
        ensures
            tc.sir == sir,
            tc.local_decls == local_decls,
            tc.variable_location_map@ == Map::<u32, Location>::empty(),
            tc.stack_builder.stack_top == 0,
            tc.insts@.len() == 0,
            tc.register_content_map@.len() == regs@.len(),
            forall|i: int|
                0 <= i < regs@.len() ==> #[trigger] tc.register_content_map@[i] == (
                    regs@[i],
                    RegAlloc::Free,
                ),
    {
        let mut map: Vec<(u8, RegAlloc)> = Vec::new();
        let mut i: usize = 0;
        while i < regs.len()
            invariant
                i <= regs@.len(),
                map@.len() == i,
                forall|k: int| 0 <= k < i ==> #[trigger] map@[k] == (regs@[k], RegAlloc::Free),
            decreases regs@.len() - i,
        {
            map.push((regs[i], RegAlloc::Free));
            i = i + 1;
        }
        TraceCompiler {
            register_content_map: map,
            variable_location_map: HashMap::new(),
            local_decls,
            stack_builder: StackBuilder { stack_top: 0 },
            insts: Vec::new(),
            sir,
        }
    }

    /// Returns the position of a free register, or `None` if all registers
    /// are taken.
    pub fn get_free_register(&self) -> (r: Option<usize>)
        ensures
            match r {
                Some(i) => Self::spec_free_register(self.register_content_map@, 0) == Some(
                    i as int,
                ) && i < self.register_content_map@.len() && self.register_content_map@[i as int].1
                    is Free,
                None => Self::spec_free_register(self.register_content_map@, 0) is None,
            },
    {
        let mut i: usize = 0;
        while i < self.register_content_map.len()
            invariant
                i <= self.register_content_map@.len(),
                Self::spec_free_register(self.register_content_map@, 0) == Self::spec_free_register(
                    self.register_content_map@,
                    i as int,
                ),
            decreases self.register_content_map@.len() - i,
        {
            if let RegAlloc::Free = self.register_content_map[i].1 {
                return Some(i);
            }
            i = i + 1;
        }
        None
    }

    /// Is it known how the local variable `l` is laid out: is the variable
    /// declared, with a type that is known and has an alignment?
    pub open spec fn lays_out(&self, l: u32) -> bool {
        &&& self.local_decls@.contains_key(l)
        &&& self.sir.spec_ty(self.local_decls@[l].ty, 0) matches Some(i)
        &&& self.sir.types@[i as int].1.align > 0
    }

    /// Where on the stack the local variable `l` goes if memory is
    /// allocated for it now, and how many bytes of the stack are taken
    /// afterwards. `None` if it is not known how the variable is laid out,
    /// or if its offset cannot be encoded.
    pub open spec fn spec_spill(&self, l: u32) -> Option<(Location, u64)> {
        if self.lays_out(l) {
            let ty = self.sir.types@[self.sir.spec_ty(self.local_decls@[l].ty, 0).unwrap() as int].1;
            let top = self.stack_builder.next_top(ty.size, ty.align);
            if top <= i32::MAX {
                Some((Location::Mem(RegAndOffset { reg: RBP, offs: (-top) as i32 }), top as u64))
            } else {
                None
            }
        } else {
            None
        }
    }

    /// Where the local variable `l` lives, or is put when it is met for the
    /// first time: in the first free register, if it can live in one and
    /// there is one, and in memory on the stack otherwise. The argument of
    /// the interpreter's step function is where its register points.
    pub open spec fn spec_local_loc(&self, l: u32) -> Option<Location> {
        if l == INTERP_STEP_ARG {
            Some(Location::Mem(RegAndOffset { reg: RDI, offs: 0 }))
        } else if self.variable_location_map@.contains_key(l) {
            Some(self.variable_location_map@[l])
        } else if !self.local_decls@.contains_key(l) {
            None
        } else if Self::can_place_in_register(self, l) && Self::spec_free_register(
            self.register_content_map@,
            0,
        ) is Some {
            Some(
                Location::Register(
                    self.register_content_map@[Self::spec_free_register(
                        self.register_content_map@,
                        0,
                    ).unwrap()].0,
                ),
            )
        } else {
            match self.spec_spill(l) {
                Some((loc, _)) => Some(loc),
                None => None,
            }
        }
    }

    /// Is the local variable `l` given a place when it is asked for: is it
    /// met for the first time, and can it be put somewhere?
    pub open spec fn places(&self, l: u32) -> bool {
        l != INTERP_STEP_ARG && !self.variable_location_map@.contains_key(l) && self.spec_local_loc(
            l,
        ) is Some
    }

    /// `n` is the compiler after the local variable `l` has been asked
    /// for: if it was given a place then, that is noted, the register is
    /// taken or the stack has grown; otherwise nothing has changed. The
    /// instructions are not looked at.
    pub open spec fn located(&self, n: &Self, l: u32) -> bool {
        &&& n.local_decls == self.local_decls
        &&& n.sir == self.sir
        &&& if self.places(l) {
            let loc = self.spec_local_loc(l).unwrap();
            &&& n.variable_location_map@ == self.variable_location_map@.insert(l, loc)
            &&& if loc is Register {
                let i = Self::spec_free_register(self.register_content_map@, 0).unwrap();
                &&& n.register_content_map@ == self.register_content_map@.update(
                    i,
                    (self.register_content_map@[i].0, RegAlloc::Local(l)),
                )
                &&& n.stack_builder == self.stack_builder
            } else {
                &&& n.register_content_map@ == self.register_content_map@
                &&& n.stack_builder.stack_top == self.spec_spill(l).unwrap().1
            }
        } else {
            &&& n.variable_location_map@ == self.variable_location_map@
            &&& n.register_content_map@ == self.register_content_map@
            &&& n.stack_builder == self.stack_builder
        }
    }

    /// Allocate memory on the stack for the local variable `local`, and
    /// return where it is.
    pub fn spill_local_to_stack(&mut self, local: &Local) -> (r: Result<Location, CompileError>)
        ensures
            final(self).register_content_map == old(self).register_content_map,
            final(self).variable_location_map == old(self).variable_location_map,
            final(self).local_decls == old(self).local_decls,
            final(self).insts == old(self).insts,
            final(self).sir == old(self).sir,
            match r {
                Ok(l) => {
                    &&& l is Mem
                    &&& l->Mem_0.reg == RBP
                    &&& old(self).spec_spill(local.0) matches Some((loc, top))
                    &&& l == loc
                    &&& final(self).stack_builder.stack_top == top
                },
                Err(e) => {
                    &&& final(self).stack_builder == old(self).stack_builder
                    &&& old(self).spec_spill(local.0) is None
                    &&& e == if old(self).lays_out(local.0) {
                        CompileError::Unsupported
                    } else {
                        CompileError::Malformed
                    }
                },
            },
    {
        let ty = match self.local_decls.get(&local.0) {
            Some(d) => d.ty,
            None => {
                return Err(CompileError::Malformed);
            },
        };
        let (size, align) = match self.sir.ty(&ty) {
            Some(i) => (self.sir.types[i].1.size, self.sir.types[i].1.align),
            None => {
                return Err(CompileError::Malformed);
            },
        };
        if align == 0 {
            return Err(CompileError::Malformed);
        }
        match self.stack_builder.allocate(size, align) {
            Some(l) => Ok(l),
            None => Err(CompileError::Unsupported),
        }
    }

    /// Given a local variable, returns where it lives; a variable that is
    /// met for the first time is given a place: a free register if it can
    /// live in one and there is one, and memory on the stack otherwise. The
    /// argument of the interpreter's step function is where its register
    /// points.
    pub fn local_to_location(&mut self, l: Local) -> (r: Result<Location, CompileError>)
        ensures
            final(self).local_decls == old(self).local_decls,
            final(self).insts == old(self).insts,
            final(self).sir == old(self).sir,
            l.0 == INTERP_STEP_ARG ==> {
                &&& r == Ok::<Location, CompileError>(
                    Location::Mem(RegAndOffset { reg: RDI, offs: 0 }),
                )
                &&& final(self).variable_location_map == old(self).variable_location_map
                &&& final(self).register_content_map == old(self).register_content_map
            },
            l.0 != INTERP_STEP_ARG && old(self).variable_location_map@.contains_key(l.0) ==> {
                &&& r == Ok::<Location, CompileError>(old(self).variable_location_map@[l.0])
                &&& final(self).variable_location_map == old(self).variable_location_map
            },
            l.0 != INTERP_STEP_ARG && !old(self).variable_location_map@.contains_key(l.0)
                ==> match r {
                Ok(loc) => {
                    &&& old(self).local_decls@.contains_key(l.0)
                    &&& final(self).variable_location_map@ == old(
                        self,
                    ).variable_location_map@.insert(l.0, loc)
                    &&& match loc {
                        Location::Register(reg) => {
                            &&& Self::can_place_in_register(old(self), l.0)
                            &&& Self::spec_free_register(old(self).register_content_map@, 0) matches Some(
                                i,
                            )
                            &&& reg == old(self).register_content_map@[i].0
                        },
                        Location::Mem(ro) => ro.reg == RBP && !(Self::can_place_in_register(
                            old(self),
                            l.0,
                        ) && Self::spec_free_register(old(self).register_content_map@, 0) is Some),
                        _ => false,
                    }
                },
                Err(_) => final(self).variable_location_map == old(self).variable_location_map,
            },
            match r {
                Ok(loc) => old(self).spec_local_loc(l.0) == Some(loc),
                Err(e) => old(self).spec_local_loc(l.0) is None && e == if old(self).lays_out(l.0) {
                    CompileError::Unsupported
                } else {
                    CompileError::Malformed
                },
            },
            old(self).located(final(self), l.0),
    {
        if l.0 == INTERP_STEP_ARG {
            return Ok(Location::new_mem(RDI, 0));
        }
        if let Some(location) = self.variable_location_map.get(&l.0) {
            return Ok(*location);
        }
        let decl = match self.local_decls.get(&l.0) {
            Some(d) => *d,
            None => {
                return Err(CompileError::Malformed);
            },
        };
        let loc = if Self::can_live_in_register(self.sir, &decl) {
            match self.get_free_register() {
                Some(i) => {
                    let reg = self.register_content_map[i].0;
                    self.register_content_map.set(i, (reg, RegAlloc::Local(l.0)));
                    Location::Register(reg)
                },
                None => match self.spill_local_to_stack(&l) {
                    Ok(loc) => loc,
                    Err(e) => {
                        return Err(e);
                    },
                },
            }
        } else {
            match self.spill_local_to_stack(&l) {
                Ok(loc) => loc,
                Err(e) => {
                    return Err(e);
                },
            }
        };
        self.variable_location_map.insert(l.0, loc);
        Ok(loc)
    }

    /// Can the local variable `l` of the compiler `tc` live in a register?
    pub open spec fn can_place_in_register(tc: &Self, l: u32) -> bool {
        !tc.local_decls@[l].referenced && Self::fits_register(tc.sir, tc.local_decls@[l].ty)
    }

    /// The local variable `local` is dead: its register, if it has one, can
    /// be used again.
    pub fn free_register(&mut self, local: &Local) -> (r: Result<(), CompileError>)
        ensures
            final(self).local_decls == old(self).local_decls,
            final(self).insts == old(self).insts,
            final(self).sir == old(self).sir,
            final(self).stack_builder == old(self).stack_builder,
            match r {
                Ok(()) => {
                    &&& old(self).variable_location_map@.contains_key(local.0)
                    &&& final(self).variable_location_map@ == old(
                        self,
                    ).variable_location_map@.insert(local.0, Location::NotLive)
                    &&& final(self).register_content_map@.len() == old(
                        self,
                    ).register_content_map@.len()
                    &&& forall|i: int|
                        0 <= i < old(self).register_content_map@.len()
                            ==> #[trigger] final(self).register_content_map@[i] == if old(
                            self,
                        ).variable_location_map@[local.0] == Location::Register(
                            old(self).register_content_map@[i].0,
                        ) {
                            (old(self).register_content_map@[i].0, RegAlloc::Free)
                        } else {
                            old(self).register_content_map@[i]
                        }
                },
                Err(e) => e is Malformed && !old(self).variable_location_map@.contains_key(local.0)
                    && final(self).variable_location_map == old(self).variable_location_map
                    && final(self).register_content_map == old(self).register_content_map,
            },
    {
        let loc = match self.variable_location_map.get(&local.0) {
            Some(l) => *l,
            None => {
                return Err(CompileError::Malformed);
            },
        };
        if let Location::Register(reg) = loc {
            let ghost pre = self.register_content_map@;
            let mut i: usize = 0;
            while i < self.register_content_map.len()
                invariant
                    i <= self.register_content_map@.len(),
                    self.register_content_map@.len() == pre.len(),
                    pre == old(self).register_content_map@,
                    loc == Location::Register(reg),
                    old(self).variable_location_map@.contains_key(local.0),
                    loc == old(self).variable_location_map@[local.0],
                    self.local_decls == old(self).local_decls,
                    self.insts == old(self).insts,
                    self.sir == old(self).sir,
                    self.stack_builder == old(self).stack_builder,
                    self.variable_location_map == old(self).variable_location_map,
                    forall|k: int|
                        0 <= k < pre.len() ==> #[trigger] self.register_content_map@[k] == if k < i
                            && pre[k].0 == reg {
                            (pre[k].0, RegAlloc::Free)
                        } else {
                            pre[k]
                        },
                decreases self.register_content_map@.len() - i,
            {
                if self.register_content_map[i].0 == reg {
                    self.register_content_map.set(i, (reg, RegAlloc::Free));
                }
                i = i + 1;
            }
        }
        self.variable_location_map.insert(local.0, Location::NotLive);
        Ok(())
    }

    /// `n` is the compiler with the places of the local variables, the
    /// registers and the stack as they are. The instructions are not looked
    /// at.
    pub open spec fn same_places(&self, n: &Self) -> bool {
        &&& n.local_decls == self.local_decls
        &&& n.sir == self.sir
        &&& n.variable_location_map@ == self.variable_location_map@
        &&& n.register_content_map@ == self.register_content_map@
        &&& n.stack_builder == self.stack_builder
    }

    /// Where the place `ip` is, or is put when its local variable is met
    /// for the first time: where the variable lives, moved on by the offset
    /// of the place; a constant is where it is.
    pub open spec fn spec_place_loc(&self, ip: IRPlace) -> Option<Location> {
        match ip {
            IRPlace::Val { local, off, .. } => match self.spec_local_loc(local.0) {
                Some(loc) => place_at(loc, off),
                None => None,
            },
            IRPlace::Const { val, ty } => Some(Location::Const(val, ty)),
            _ => None,
        }
    }

    /// Why the place `ip` is nowhere, if it is nowhere: nothing is known of
    /// its local variable; or the variable, or the place in it, cannot be
    /// had.
    pub open spec fn spec_place_err(&self, ip: IRPlace) -> CompileError {
        match ip {
            IRPlace::Val { local, .. } => if self.spec_local_loc(local.0) is None && !self.lays_out(
                local.0,
            ) {
                CompileError::Malformed
            } else {
                CompileError::Unsupported
            },
            _ => CompileError::Unsupported,
        }
    }

    /// `n` is the compiler after the place `ip` has been asked for: after
    /// its local variable has been, if it names one.
    pub open spec fn placed(&self, n: &Self, ip: IRPlace) -> bool {
        match ip {
            IRPlace::Val { local, .. } => self.located(n, local.0),
            _ => self.same_places(n),
        }
    }

    /// `n` is the compiler after the local variable `l`, which has a place,
    /// has died: it lives nowhere any more, and the register that it lived
    /// in, if it lived in one, is free.
    pub open spec fn freed(&self, n: &Self, l: u32) -> bool {
        &&& n.local_decls == self.local_decls
        &&& n.sir == self.sir
        &&& n.stack_builder == self.stack_builder
        &&& self.variable_location_map@.contains_key(l)
        &&& n.variable_location_map@ == self.variable_location_map@.insert(l, Location::NotLive)
        &&& n.register_content_map@.len() == self.register_content_map@.len()
        &&& forall|i: int|
            0 <= i < self.register_content_map@.len() ==> #[trigger] n.register_content_map@[i]
                == if self.variable_location_map@[l] == Location::Register(
                self.register_content_map@[i].0,
            ) {
                (self.register_content_map@[i].0, RegAlloc::Free)
            } else {
                self.register_content_map@[i]
            }
    }

    /// `n` is the compiler after the statement `stmt` has been compiled.
    /// A store asks for its destination and then for its source, and moves
    /// as many bytes as the type of the destination has. A reference asks
    /// for its source, which must be in memory, and then for its
    /// destination, and stores the address of the one in the other by way
    /// of the temporary register. The death of a local variable frees its
    /// register. Statements that say nothing to the processor leave no
    /// trace.
    pub open spec fn compiled(&self, n: &Self, stmt: Statement) -> bool {
        match stmt {
            Statement::Store(dest, src) => exists|m: Self|
                {
                    &&& #[trigger] self.placed(&m, dest)
                    &&& m.placed(n, src)
                    &&& self.spec_place_loc(dest) matches Some(d)
                    &&& m.spec_place_loc(src) matches Some(s)
                    &&& type_size(dest, self.sir) matches Some(size)
                    &&& n.insts@ == self.insts@.push(TraceInst::Store { dest: d, src: s, size })
                },
            Statement::MkRef(dest, src) => exists|m: Self|
                {
                    &&& #[trigger] self.placed(&m, src)
                    &&& m.placed(n, dest)
                    &&& self.spec_place_loc(src) matches Some(Location::Mem(s))
                    &&& m.spec_place_loc(dest) matches Some(d)
                    &&& n.insts@ == self.insts@.push(TraceInst::Lea { dest: TEMP_REG, src: s }).push(
                        TraceInst::Store { dest: d, src: Location::Register(TEMP_REG), size: 8 },
                    )
                },
            Statement::BinaryOp { dest, op, opnd1, opnd2, checked } => exists|m1: Self, m2: Self|
                {
                    &&& op is Add
                    &&& #[trigger] self.placed(&m1, opnd1)
                    &&& #[trigger] m1.placed(&m2, opnd2)
                    &&& m2.placed(n, dest)
                    &&& self.spec_place_loc(opnd1) matches Some(a)
                    &&& m1.spec_place_loc(opnd2) matches Some(b)
                    &&& m2.spec_place_loc(dest) matches Some(d)
                    &&& binop_insts(a, b, d, type_size(opnd1, self.sir), checked) matches Some(insts)
                    &&& n.insts@ == self.insts@ + insts
                },
            Statement::StorageDead(l) => self.freed(n, l.0) && n.insts@ == self.insts@,
            Statement::Leave => self.same_places(n) && n.insts@ == self.insts@,
            Statement::Nop => self.same_places(n) && n.insts@ == self.insts@,
            Statement::Debug(_) => self.same_places(n) && n.insts@ == self.insts@,
            _ => false,
        }
    }

    /// `n` is the compiler after the operation `op` of a trace has been
    /// compiled: a statement as statements are; a guard, which is not
    /// compiled yet, as an instruction that does nothing.
    pub open spec fn op_done(&self, n: &Self, op: TirOp) -> bool {
        match op {
            TirOp::Statement(st) => self.compiled(n, st),
            TirOp::Guard(_) => self.same_places(n) && n.insts@ == self.insts@.push(TraceInst::Nop),
        }
    }

    /// The compilers `cs` are the states that the compilation of the
    /// operations `ops` goes through: each is the one before it after one
    /// more operation.
    pub open spec fn ops_done(cs: Seq<Self>, ops: Seq<TirOp>) -> bool {
        &&& cs.len() == ops.len() + 1
        &&& forall|k: int| 0 <= k < ops.len() ==> (#[trigger] cs[k]).op_done(&cs[k + 1], ops[k])
    }

    /// Is this a compiler that has compiled nothing yet, for the program
    /// `sir` and a trace with the local variables `decls`, with the
    /// registers `regs` to hand out?
    pub open spec fn fresh(&self, sir: &Sir, decls: HashMap<u32, LocalDecl>, regs: Seq<u8>) -> bool {
        &&& self.sir == sir
        &&& self.local_decls == decls
        &&& self.variable_location_map@ == Map::<u32, Location>::empty()
        &&& self.stack_builder.stack_top == 0
        &&& self.insts@.len() == 0
        &&& self.register_content_map@.len() == regs.len()
        &&& forall|i: int|
            0 <= i < regs.len() ==> #[trigger] self.register_content_map@[i] == (
                regs[i],
                RegAlloc::Free,
            )
    }

    /// Where the place `ip` is: where its local variable lives, moved on by
    /// the offset of the place.
    pub fn iplace_to_location(&mut self, ip: &IRPlace) -> (r: Result<Location, CompileError>)
        ensures
            final(self).local_decls == old(self).local_decls,
            final(self).insts == old(self).insts,
            final(self).sir == old(self).sir,
            match *ip {
                IRPlace::Const { val, ty } => r == Ok::<Location, CompileError>(
                    Location::Const(val, ty),
                ),
                IRPlace::Unimplemented => r is Err,
                _ => true,
            },
            match r {
                Ok(l) => old(self).spec_place_loc(*ip) == Some(l),
                Err(e) => old(self).spec_place_loc(*ip) is None && e == old(self).spec_place_err(
                    *ip,
                ),
            },
            old(self).placed(final(self), *ip),
    {
        match ip {
            IRPlace::Val { local, off, .. } => {
                let loc = match self.local_to_location(*local) {
                    Ok(l) => l,
                    Err(e) => {
                        return Err(e);
                    },
                };
                if *off == 0 {
                    return Ok(loc);
                }
                match loc {
                    Location::Mem(ro) => {
                        if *off > i32::MAX as u32 || ro.offs > i32::MAX - *off as i32 {
                            return Err(CompileError::Unsupported);
                        }
                        Ok(Location::Mem(RegAndOffset { reg: ro.reg, offs: ro.offs + *off as i32 }))
                    },
                    _ => Err(CompileError::Unsupported),
                }
            },
            IRPlace::Const { val, ty } => Ok(Location::Const(*val, *ty)),
            _ => Err(CompileError::Unsupported),
        }
    }

    /// Compile a statement of a trace.
    pub fn c_statement(&mut self, stmt: &Statement) -> (r: Result<(), CompileError>)
        ensures
            final(self).local_decls == old(self).local_decls,
            final(self).sir == old(self).sir,
            old(self).insts@.len() <= final(self).insts@.len(),
            final(self).insts@.subrange(0, old(self).insts@.len() as int) == old(self).insts@,
            match *stmt {
                Statement::Nop => r is Ok && final(self).insts == old(self).insts,
                Statement::Leave => r is Ok && final(self).insts == old(self).insts,
                Statement::Debug(_) => r is Ok && final(self).insts == old(self).insts,
                Statement::Store(_, _) => r is Ok ==> final(self).insts@.len() == old(
                    self,
                ).insts@.len() + 1 && final(self).insts@.last() is Store,
                Statement::MkRef(_, _) => r is Ok ==> final(self).insts@.len() == old(
                    self,
                ).insts@.len() + 2,
                Statement::StorageDead(_) => final(self).insts == old(self).insts,
                Statement::BinaryOp { .. } => true,
                _ => r is Err && final(self).insts == old(self).insts,
            },
            r is Ok ==> old(self).compiled(final(self), *stmt),
            r matches Err(e) ==> old(self).fails_with(*stmt, e),
    {
        proof {
            assert(self.insts@.subrange(0, self.insts@.len() as int) =~= self.insts@);
        }
        match stmt {
            Statement::Store(dest, src) => {
                let d = match self.iplace_to_location(dest) {
                    Ok(l) => l,
                    Err(e) => {
                        return Err(e);
                    },
                };
                let ghost m = *self;
                let s = match self.iplace_to_location(src) {
                    Ok(l) => l,
                    Err(e) => {
                        proof {
                            assert(old(self).placed(&m, *dest) && m.spec_place_loc(*src) is None);
                        }
                        return Err(e);
                    },
                };
                let size = match dest.ty() {
                    Some(t) => match self.sir.ty(&t) {
                        Some(i) => self.sir.types[i].1.size,
                        None => {
                            return Err(CompileError::Malformed);
                        },
                    },
                    None => {
                        return Err(CompileError::Malformed);
                    },
                };
                let ghost pre = self.insts@;
                let ghost before = *self;
                self.insts.push(TraceInst::Store { dest: d, src: s, size });
                proof {
                    assert(self.insts@.subrange(0, pre.len() as int) =~= pre);
                    assert(old(self).placed(&m, *dest));
                    assert(m.placed(&before, *src));
                    assert(m.placed(self, *src));
                }
                Ok(())
            },
            Statement::MkRef(dest, src) => {
                let s = match self.iplace_to_location(src) {
                    Ok(Location::Mem(ro)) => ro,
                    Ok(_) => {
                        return Err(CompileError::Unsupported);
                    },
                    Err(e) => {
                        return Err(e);
                    },
                };
                let ghost m = *self;
                let d = match self.iplace_to_location(dest) {
                    Ok(l) => l,
                    Err(e) => {
                        proof {
                            assert(old(self).placed(&m, *src) && m.spec_place_loc(*dest) is None);
                        }
                        return Err(e);
                    },
                };
                let ghost pre = self.insts@;
                let ghost before = *self;
                self.insts.push(TraceInst::Lea { dest: TEMP_REG, src: s });
                self.insts.push(
                    TraceInst::Store { dest: d, src: Location::Register(TEMP_REG), size: 8 },
                );
                proof {
                    assert(self.insts@.subrange(0, pre.len() as int) =~= pre);
                    assert(old(self).placed(&m, *src));
                    assert(m.placed(&before, *dest));
                    assert(m.placed(self, *dest));
                }
                Ok(())
            },
            Statement::BinaryOp { dest, op, opnd1, opnd2, checked } => self.c_binop(
                dest,
                *op,
                opnd1,
                opnd2,
                *checked,
            ),
            Statement::Leave | Statement::Nop | Statement::Debug(_) => Ok(()),
            Statement::StorageDead(l) => self.free_register(l),
            _ => Err(CompileError::Unsupported),
        }
    }

    /// Compile a binary operation: the sum of `opnd1` and `opnd2` goes to
    /// `dest`, and with `checked` a flag that says whether it has
    /// overflowed goes behind it. No other operation is compiled yet.
    pub fn c_binop(&mut self, dest: &IRPlace, op: BinOp, opnd1: &IRPlace, opnd2: &IRPlace, checked: bool) -> (r:
        Result<(), CompileError>)
        ensures
            final(self).local_decls == old(self).local_decls,
            final(self).sir == old(self).sir,
            old(self).insts@.len() <= final(self).insts@.len(),
            final(self).insts@.subrange(0, old(self).insts@.len() as int) == old(self).insts@,
            r is Ok ==> old(self).compiled(
                final(self),
                Statement::BinaryOp { dest: *dest, op, opnd1: *opnd1, opnd2: *opnd2, checked },
            ),
            r matches Err(e) ==> old(self).fails_with(
                Statement::BinaryOp { dest: *dest, op, opnd1: *opnd1, opnd2: *opnd2, checked },
                e,
            ),
    {
        proof {
            assert(self.insts@.subrange(0, self.insts@.len() as int) =~= self.insts@);
        }
        match op {
            BinOp::Add => {},
            _ => {
                return Err(CompileError::Unsupported);
            },
        }
        let a = match self.iplace_to_location(opnd1) {
            Ok(l) => l,
            Err(e) => {
                return Err(e);
            },
        };
        let ghost m1 = *self;
        let b = match self.iplace_to_location(opnd2) {
            Ok(l) => l,
            Err(e) => {
                proof {
                    assert(old(self).placed(&m1, *opnd1) && m1.spec_place_loc(*opnd2) is None);
                }
                return Err(e);
            },
        };
        let ghost m2 = *self;
        let d = match self.iplace_to_location(dest) {
            Ok(l) => l,
            Err(e) => {
                proof {
                    assert(old(self).placed(&m1, *opnd1) && m1.placed(&m2, *opnd2));
                }
                return Err(e);
            },
        };
        let size = match opnd1.ty() {
            Some(t) => match self.sir.ty(&t) {
                Some(i) => Some(self.sir.types[i].1.size),
                None => None,
            },
            None => None,
        };
        proof {
            assert(old(self).placed(&m1, *opnd1) && m1.placed(&m2, *opnd2));
            assert(size == type_size(*opnd1, old(self).sir));
        }
        let first = match a {
            Location::Register(r) => TraceInst::MovReg { dest: TEMP_REG, src: r },
            Location::Mem(ro) => TraceInst::LoadByte { dest: TEMP_REG, src: ro },
            _ => {
                return Err(CompileError::Unsupported);
            },
        };
        let src = match b {
            Location::Register(r) => r,
            _ => {
                return Err(CompileError::Unsupported);
            },
        };
        match size {
            Some(8) => {},
            Some(_) => {
                return Err(CompileError::Unsupported);
            },
            None => {
                return Err(CompileError::Malformed);
            },
        }
        let flag = if checked {
            match d {
                Location::Mem(ro) => {
                    if ro.offs > i32::MAX - 8 {
                        return Err(CompileError::Unsupported);
                    }
                    Some(Location::Mem(RegAndOffset { reg: ro.reg, offs: ro.offs + 8 }))
                },
                _ => {
                    return Err(CompileError::Unsupported);
                },
            }
        } else {
            None
        };
        let ghost pre = self.insts@;
        self.insts.push(first);
        self.insts.push(TraceInst::Add { dest: TEMP_REG, src });
        self.insts.push(TraceInst::Store { dest: d, src: Location::Register(TEMP_REG), size: 8 });
        if let Some(f) = flag {
            self.insts.push(TraceInst::Zero { dest: TEMP_REG });
            self.insts.push(TraceInst::Store { dest: f, src: Location::Register(TEMP_REG), size: 1 });
        }
        proof {
            let insts = binop_insts(a, b, d, size, checked).unwrap();
            assert(self.insts@ =~= pre + insts);
            assert(self.insts@.subrange(0, pre.len() as int) =~= pre);
            assert(m2.placed(self, *dest));
        }
        Ok(())
    }

    /// Does the compilation of the statement `stmt` fail with the error
    /// `e`? The places of a statement are asked for in turn, each once the
    /// one before it has been given its place, and the first that is
    /// nowhere decides the error. After that a store fails if nothing is
    /// known of the size of what is stored, and a reference cannot be made
    /// to what is not in memory. The death of a local variable that has no
    /// place is an error. Statements that are not handled are not
    /// supported.
    pub open spec fn fails_with(&self, stmt: Statement, e: CompileError) -> bool {
        match stmt {
            Statement::Store(dest, src) => {
                ||| self.spec_place_loc(dest) is None && e == self.spec_place_err(dest)
                ||| exists|m: Self| #[trigger]
                    self.placed(&m, dest) && self.spec_place_loc(dest) is Some && if m.spec_place_loc(
                        src,
                    ) is None {
                        e == m.spec_place_err(src)
                    } else {
                        type_size(dest, self.sir) is None && e == CompileError::Malformed
                    }
            },
            Statement::MkRef(dest, src) => {
                ||| self.spec_place_loc(src) is None && e == self.spec_place_err(src)
                ||| self.spec_place_loc(src) matches Some(l) && !(l is Mem) && e
                    == CompileError::Unsupported
                ||| exists|m: Self| #[trigger]
                    self.placed(&m, src) && (self.spec_place_loc(src) matches Some(l) && l is Mem)
                        && m.spec_place_loc(dest) is None && e == m.spec_place_err(dest)
            },
            Statement::BinaryOp { dest, op, opnd1, opnd2, checked } => {
                ||| !(op is Add) && e == CompileError::Unsupported
                ||| op is Add && self.spec_place_loc(opnd1) is None && e == self.spec_place_err(opnd1)
                ||| exists|m1: Self| #[trigger]
                    self.placed(&m1, opnd1) && op is Add && self.spec_place_loc(opnd1) is Some
                        && m1.spec_place_loc(opnd2) is None && e == m1.spec_place_err(opnd2)
                ||| exists|m1: Self, m2: Self|
                    {
                        &&& op is Add
                        &&& #[trigger] self.placed(&m1, opnd1)
                        &&& #[trigger] m1.placed(&m2, opnd2)
                        &&& self.spec_place_loc(opnd1) matches Some(a)
                        &&& m1.spec_place_loc(opnd2) matches Some(b)
                        &&& match m2.spec_place_loc(dest) {
                            Some(d) => binop_insts(
                                a,
                                b,
                                d,
                                type_size(opnd1, self.sir),
                                checked,
                            ) is None && e == binop_err(a, b, type_size(opnd1, self.sir)),
                            None => e == m2.spec_place_err(dest),
                        }
                    }
            },
            Statement::StorageDead(l) => !self.variable_location_map@.contains_key(l.0) && e
                == CompileError::Malformed,
            Statement::Leave => false,
            Statement::Nop => false,
            Statement::Debug(_) => false,
            _ => e == CompileError::Unsupported,
        }
    }

    /// The compilers `cs` are the states that the compilation of the
    /// operations `ops` goes through, from a compiler that has compiled
    /// nothing yet up to a statement whose compilation fails with the error
    /// `e`.
    pub open spec fn ops_short(
        cs: Seq<Self>,
        ops: Seq<TirOp>,
        sir: &Sir,
        decls: HashMap<u32, LocalDecl>,
        regs: Seq<u8>,
        e: CompileError,
    ) -> bool {
        &&& 1 <= cs.len() <= ops.len()
        &&& cs[0].fresh(sir, decls, regs)
        &&& forall|k: int| 0 <= k < cs.len() - 1 ==> (#[trigger] cs[k]).op_done(&cs[k + 1], ops[k])
        &&& ops[cs.len() - 1] matches TirOp::Statement(st)
        &&& cs.last().fails_with(st, e)
    }

    /// Compile the trace `tt` for the program `sir`, handing out the
    /// registers `regs` to its local variables. Guards are not compiled
    /// yet: each stands as an instruction that does nothing.
    pub fn compile(sir: &'a Sir, tt: TirTrace, regs: &Vec<u8>) -> (r: Result<
        CompiledTrace,
        CompileError,
    >)
        ensures
            match r {
                Ok(ct) => {
                    &&& ct.insts@.len() >= 1
                    &&& ct.insts@.last() is Ret
                    &&& exists|cs: Seq<Self>|
                        {
                            &&& #[trigger] Self::ops_done(cs, tt.ops@)
                            &&& cs[0].fresh(sir, tt.local_decls, regs@)
                            &&& ct.insts@ == cs.last().insts@.push(TraceInst::Ret)
                            &&& ct.stack_size == cs.last().stack_builder.stack_top
                        }
                },
                Err(e) => exists|cs: Seq<Self>|
                    Self::ops_short(cs, tt.ops@, sir, tt.local_decls, regs@, e),
            },
    {
        let mut tc = TraceCompiler::new(sir, tt.local_decls, regs);
        let ghost cs: Seq<Self> = seq![tc];
        let mut i: usize = 0;
        while i < tt.ops.len()
            invariant
                i <= tt.ops@.len(),
                cs.len() == i + 1,
                cs[0].fresh(sir, tt.local_decls, regs@),
                cs[i as int] == tc,
                forall|k: int| 0 <= k < i ==> (#[trigger] cs[k]).op_done(&cs[k + 1], tt.ops@[k]),
            decreases tt.ops@.len() - i,
        {
            let ghost pre = tc;
            match &tt.ops[i] {
                TirOp::Statement(st) => match tc.c_statement(st) {
                    Ok(()) => {},
                    Err(e) => {
                        proof {
                            assert(cs.last() == pre);
                            assert(Self::ops_short(cs, tt.ops@, sir, tt.local_decls, regs@, e));
                        }
                        return Err(e);
                    },
                },
                TirOp::Guard(_) => {
                    tc.insts.push(TraceInst::Nop);
                },
            }
            proof {
                assert(pre.op_done(&tc, tt.ops@[i as int]));
                let ghost before = cs;
                cs = cs.push(tc);
                assert forall|k: int| 0 <= k < i + 1 implies (#[trigger] cs[k]).op_done(
                    &cs[k + 1],
                    tt.ops@[k],
                ) by {
                    if k < i {
                        assert(cs[k] == before[k] && cs[k + 1] == before[k + 1]);
                    }
                }
            }
            i = i + 1;
        }
        proof {
            assert(Self::ops_done(cs, tt.ops@));
        }
        tc.insts.push(TraceInst::Ret);
        Ok(CompiledTrace { insts: tc.insts, stack_size: tc.stack_builder.size() })
    }
}

} // verus!
