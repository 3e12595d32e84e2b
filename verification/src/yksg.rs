//! The stopgap interpreter.
//!
//! When a guard fails, compiled code cannot go on. The stopgap interpreter
//! takes over: from the frames that were live at the guard it interprets
//! the program's intermediate representation, until the interpreter's step
//! function returns, and the host's interpreter can carry on at its control
//! point.

use crate::memory::{block_base, bytes_of, le_bytes, le_value, Memory, PTR_SIZE};
use crate::sir::{
    BasicBlockIndex, BinOp, CallOperand, Constant, ConstantInt, IRPlace, Local, Sir, Statement,
    Terminator, TyKind, TypeId, UnsignedInt, UnsignedIntTy, INTERP_STEP_ARG, RETURN_LOCAL,
};
use vstd::prelude::*;

verus! {

/// Why interpretation has stopped short.
#[derive(Debug, Clone, Copy, PartialEq, Eq, Structural)]
pub enum InterpError {
    /// The program uses something the interpreter does not handle.
    Unsupported,
    /// The program reads or writes memory that is not its own.
    BadAccess,
    /// The representation of the program contradicts itself.
    Malformed,
    /// An assertion of the program does not hold.
    AssertFailed,
    /// There is no memory left for a frame.
    OutOfMemory,
}

/// What is needed to set up a frame of the stopgap interpreter again.
#[derive(Debug, Clone, Copy, PartialEq, Eq, Structural)]
pub struct FrameInfo {
    /// The body of the frame, as its index in the program.
    pub body: usize,
    /// The block that the frame is in: where execution goes on when a call
    /// returns to the frame.
    pub bbidx: usize,
    /// The address of the memory that holds the live variables.
    pub mem: usize,
}

/// The memory of the local variables of a frame.
#[derive(Debug)]
pub struct LocalMem {
    /// The address of the memory.
    pub locals: usize,
    /// For each local variable, where in the memory it is.
    pub offsets: Vec<usize>,
    /// The size and the alignment of the memory.
    pub layout: (usize, usize),
}

/// The address `off` bytes from `p`. Addresses wrap around.
pub open spec fn spec_offset(p: usize, off: int) -> usize {
    ((p + off) % (usize::MAX + 1)) as usize
}

/// The address `off` bytes from `p`.
pub fn offset_ptr(p: usize, off: i32) -> (r: usize)
    ensures
        r == spec_offset(p, off as int),
{
    if off >= 0 {
        let r = p.wrapping_add(off as usize);
        proof {
            let m = usize::MAX + 1;
            if p + off >= m {
                assert((p + off) % m == p + off - m) by (nonlinear_arith)
                    requires
                        m <= p + off < 2 * m,
                        m > 0,
                ;
            } else {
                assert((p + off) % m == p + off) by (nonlinear_arith)
                    requires
                        0 <= p + off < m,
                ;
            }
        }
        r
    } else {
        let back: usize = (-(off as i64)) as usize;
        let r = p.wrapping_sub(back);
        proof {
            let m = usize::MAX + 1;
            if p - back < 0 {
                assert((p + off) % m == p + off + m) by (nonlinear_arith)
                    requires
                        -m <= p + off < 0,
                        m > 0,
                ;
            } else {
                assert((p + off) % m == p + off) by (nonlinear_arith)
                    requires
                        0 <= p + off < m,
                ;
            }
        }
        r
    }
}

/// The bytes that the constant `c` takes in memory; `None` for a constant
/// that cannot be written.
pub open spec fn const_bytes(c: Constant, sir: &Sir) -> Option<Seq<u8>> {
    match c {
        Constant::Int(ConstantInt::UnsignedInt(UnsignedInt::U8(v))) => Some(seq![v]),
        Constant::Int(ConstantInt::UnsignedInt(UnsignedInt::Usize(v))) => Some(
            le_bytes(v as nat, PTR_SIZE as nat),
        ),
        Constant::Bool(b) => Some(
            seq![if b {
                1u8
            } else {
                0u8
            }],
        ),
        Constant::Tuple(t) => match sir.spec_ty(t, 0) {
            Some(i) => if sir.types@[i as int].1.size == 0 {
                Some(Seq::<u8>::empty())
            } else {
                None
            },
            None => None,
        },
        _ => None,
    }
}

impl LocalMem {
    /// The address of the local variable `local`.
    pub open spec fn spec_local_ptr(&self, local: Local) -> Option<usize> {
        if local.0 < self.offsets@.len() && self.locals + self.offsets@[local.0 as int]
            <= usize::MAX {
            Some((self.locals + self.offsets@[local.0 as int]) as usize)
        } else {
            None
        }
    }

    /// The address of the place `place`: of a value, where in its local
    /// variable it is; of an indirection, where the pointer that the local
    /// variable holds points to, with both offsets applied.
    pub open spec fn spec_place_ptr(&self, mem: &Memory, place: IRPlace) -> Option<usize> {
        match place {
            IRPlace::Val { local, off, .. } => match self.spec_local_ptr(local) {
                Some(p) => if p + off <= usize::MAX {
                    Some((p + off) as usize)
                } else {
                    None
                },
                None => None,
            },
            IRPlace::Indirect { ptr, off, .. } => match self.spec_local_ptr(ptr.local) {
                Some(at) => if mem.valid(at, PTR_SIZE as nat) && le_value(
                    mem.spec_read(at, PTR_SIZE as nat),
                ) <= usize::MAX {
                    Some(
                        spec_offset(
                            spec_offset(
                                le_value(mem.spec_read(at, PTR_SIZE as nat)) as usize,
                                ptr.off as int,
                            ),
                            off as int,
                        ),
                    )
                } else {
                    None
                },
                None => None,
            },
            _ => None,
        }
    }

    /// Get the address of a local variable.
    pub fn local_ptr(&self, local: &Local) -> (r: Option<usize>)
        ensures
            r == self.spec_local_ptr(*local),
    {
        let i = local.0 as usize;
        if i < self.offsets.len() && self.offsets[i] <= usize::MAX - self.locals {
            Some(self.locals + self.offsets[i])
        } else {
            None
        }
    }

    /// Get the address of a place, with all offsets applied.
    pub fn iplace_to_ptr(&self, mem: &Memory, place: &IRPlace) -> (r: Option<usize>)
        requires
            mem.wf(),
        ensures
            r == self.spec_place_ptr(mem, *place),
    {
        match place {
            IRPlace::Val { local, off, .. } => match self.local_ptr(local) {
                Some(p) => {
                    if (*off as usize) <= usize::MAX - p {
                        Some(p + *off as usize)
                    } else {
                        None
                    }
                },
                None => None,
            },
            IRPlace::Indirect { ptr, off, .. } => match self.local_ptr(&ptr.local) {
                Some(at) => match mem.read_ptr(at) {
                    Some(p) => Some(offset_ptr(offset_ptr(p, ptr.off), *off)),
                    None => None,
                },
                None => None,
            },
            _ => None,
        }
    }

    /// Copy `size` bytes from the address `src` to the address `dst`.
    pub fn write_val(&self, mem: &mut Memory, dst: usize, src: usize, size: usize) -> (r: Result<
        (),
        InterpError,
    >)
        requires
            old(mem).wf(),
        ensures
            final(mem).wf(),
            final(mem).same_shape(old(mem)),
            match r {
                Ok(()) => {
                    &&& old(mem).valid(src, size as nat)
                    &&& old(mem).valid(dst, size as nat)
                    &&& final(mem).written(old(mem), dst, old(mem).spec_read(src, size as nat))
                    &&& final(mem).valid(dst, size as nat)
                    &&& final(mem).spec_read(dst, size as nat) == old(mem).spec_read(
                        src,
                        size as nat,
                    )
                },
                Err(e) => e == InterpError::BadAccess && *final(mem) == *old(mem) && !(old(
                    mem,
                ).valid(src, size as nat) && old(mem).valid(dst, size as nat)),
            },
    {
        if mem.write_val(dst, src, size) {
            Ok(())
        } else {
            Err(InterpError::BadAccess)
        }
    }

    /// Write a constant to the address `dest`.
    pub fn write_const(&self, mem: &mut Memory, dest: usize, constant: &Constant, sir: &Sir) -> (r:
        Result<(), InterpError>)
        requires
            old(mem).wf(),
        ensures
            final(mem).wf(),
            final(mem).same_shape(old(mem)),
            match r {
                Ok(()) => {
                    &&& const_bytes(*constant, sir) matches Some(b)
                    &&& old(mem).valid(dest, b.len())
                    &&& final(mem).written(old(mem), dest, b)
                    &&& final(mem).spec_read(dest, b.len()) == b
                },
                Err(e) => {
                    &&& *final(mem) == *old(mem)
                    &&& match const_bytes(*constant, sir) {
                        Some(b) => e == InterpError::BadAccess && !old(mem).valid(dest, b.len()),
                        None => e == InterpError::Unsupported,
                    }
                },
            },
    {
        let bytes: Vec<u8> = match constant {
            Constant::Int(ConstantInt::UnsignedInt(UnsignedInt::U8(v))) => {
                let mut b = Vec::new();
                b.push(*v);
                proof {
                    assert(b@ =~= seq![*v]);
                }
                b
            },
            Constant::Int(ConstantInt::UnsignedInt(UnsignedInt::Usize(v))) => bytes_of(
                *v as u64,
                PTR_SIZE,
            ),
            Constant::Bool(b) => {
                let mut v = Vec::new();
                v.push(if *b {
                    1u8
                } else {
                    0u8
                });
                proof {
                    assert(v@ =~= seq![if *b {
                        1u8
                    } else {
                        0u8
                    }]);
                }
                v
            },
            Constant::Tuple(t) => match sir.ty(t) {
                Some(i) => {
                    if sir.types[i].1.size == 0 {
                        let v: Vec<u8> = Vec::new();
                        proof {
                            assert(v@ =~= Seq::<u8>::empty());
                        }
                        v
                    } else {
                        return Err(InterpError::Unsupported);
                    }
                },
                None => {
                    return Err(InterpError::Unsupported);
                },
            },
            _ => {
                return Err(InterpError::Unsupported);
            },
        };
        if mem.write(dest, &bytes) {
            Ok(())
        } else {
            Err(InterpError::BadAccess)
        }
    }

    /// The bytes that a store of `src` writes: the constant that `src` is,
    /// or the value that it holds in the memory `m`, which is as long as its
    /// type says. `None` where there is no such constant or value.
    pub open spec fn store_bytes(&self, m: &Memory, src: IRPlace, sir: &Sir) -> Option<Seq<u8>> {
        match src {
            IRPlace::Const { val, .. } => const_bytes(val, sir),
            IRPlace::Unimplemented => None,
            _ => match (self.spec_place_ptr(m, src), store_size(src, sir)) {
                (Some(s), Some(n)) => if m.valid(s, n as nat) {
                    Some(m.spec_read(s, n as nat))
                } else {
                    None
                },
                _ => None,
            },
        }
    }

    /// Can `src` be stored to `dest` in the memory `m`: is there something
    /// to write, and can it be written where `dest` is?
    pub open spec fn can_store(&self, m: &Memory, dest: IRPlace, src: IRPlace, sir: &Sir) -> bool {
        match (self.spec_place_ptr(m, dest), self.store_bytes(m, src, sir)) {
            (Some(d), Some(b)) => m.valid(d, b.len()),
            _ => false,
        }
    }

    /// Why `src` cannot be stored to `dest` in the memory `m`, if it
    /// cannot: a place that is nowhere, or memory that is not the
    /// program's, is a bad access; a value of no known size contradicts the
    /// program; and other constants than those that are handled are not
    /// supported.
    pub open spec fn store_err(&self, m: &Memory, dest: IRPlace, src: IRPlace, sir: &Sir) -> InterpError {
        match src {
            IRPlace::Const { val, .. } => if self.spec_place_ptr(m, dest) is Some && const_bytes(
                val,
                sir,
            ) is None {
                InterpError::Unsupported
            } else {
                InterpError::BadAccess
            },
            IRPlace::Unimplemented => InterpError::Unsupported,
            _ => if self.spec_place_ptr(m, src) is Some && self.spec_place_ptr(m, dest) is Some
                && store_size(src, sir) is None {
                InterpError::Malformed
            } else {
                InterpError::BadAccess
            },
        }
    }

    /// `n` is the memory `m` after `src` has been stored to `dest`.
    pub open spec fn stored(&self, m: &Memory, n: &Memory, dest: IRPlace, src: IRPlace, sir: &Sir) -> bool {
        &&& self.can_store(m, dest, src, sir)
        &&& n.written(
            m,
            self.spec_place_ptr(m, dest).unwrap(),
            self.store_bytes(m, src, sir).unwrap(),
        )
    }

    /// Stores one place into another: the value that `src` holds, or the
    /// constant that it is, goes to `dest`.
    pub fn store(&self, mem: &mut Memory, dest: &IRPlace, src: &IRPlace, sir: &Sir) -> (r: Result<
        (),
        InterpError,
    >)
        requires
            old(mem).wf(),
        ensures
            final(mem).wf(),
            final(mem).same_shape(old(mem)),
            match r {
                Ok(()) => self.stored(old(mem), final(mem), *dest, *src, sir),
                Err(e) => *final(mem) == *old(mem) && !self.can_store(old(mem), *dest, *src, sir)
                    && e == self.store_err(old(mem), *dest, *src, sir),
            },
    {
        match src {
            IRPlace::Val { .. } | IRPlace::Indirect { .. } => {
                let src_ptr = match self.iplace_to_ptr(mem, src) {
                    Some(p) => p,
                    None => {
                        return Err(InterpError::BadAccess);
                    },
                };
                let dst_ptr = match self.iplace_to_ptr(mem, dest) {
                    Some(p) => p,
                    None => {
                        return Err(InterpError::BadAccess);
                    },
                };
                let size = match src.ty() {
                    Some(t) => match sir.size_of(&t) {
                        Some(s) => s,
                        None => {
                            return Err(InterpError::Malformed);
                        },
                    },
                    None => {
                        return Err(InterpError::Malformed);
                    },
                };
                self.write_val(mem, dst_ptr, src_ptr, size)
            },
            IRPlace::Const { val, .. } => {
                let dst_ptr = match self.iplace_to_ptr(mem, dest) {
                    Some(p) => p,
                    None => {
                        return Err(InterpError::BadAccess);
                    },
                };
                self.write_const(mem, dst_ptr, val, sir)
            },
            _ => Err(InterpError::Unsupported),
        }
    }

    /// `n` is the memory `m` after the argument `arg` of a call, the one of
    /// index `k`, has been copied from the frame `frame` of the caller into
    /// this frame: its value, or the constant that it is, has been written
    /// to the local variable `k + 1`.
    pub open spec fn arg_copied(
        &self,
        m: &Memory,
        n: &Memory,
        arg: IRPlace,
        k: int,
        frame: &LocalMem,
        sir: &Sir,
    ) -> bool {
        &&& k + 1 <= u32::MAX
        &&& match (self.spec_local_ptr(Local((k + 1) as u32)), frame.store_bytes(m, arg, sir)) {
            (Some(d), Some(b)) => m.valid(d, b.len()) && n.written(m, d, b),
            _ => false,
        }
    }

    /// The memories `ms` are those that the copying of the arguments `args`
    /// into this frame goes through, from the memory `m0` to the memory
    /// `n`: each is the one before it with one more argument copied.
    pub open spec fn copies(
        &self,
        ms: Seq<Memory>,
        m0: &Memory,
        n: &Memory,
        args: Seq<IRPlace>,
        frame: &LocalMem,
        sir: &Sir,
    ) -> bool {
        &&& ms.len() == args.len() + 1
        &&& ms[0] == *m0
        &&& ms[args.len() as int] == *n
        &&& forall|k: int|
            0 <= k < args.len() ==> self.arg_copied(
                &#[trigger] ms[k],
                &ms[k + 1],
                args[k],
                k,
                frame,
                sir,
            )
    }

    /// `n` is the memory `m0` after the arguments `args` have been copied
    /// into this frame, one after the other.
    pub open spec fn args_copied(
        &self,
        m0: &Memory,
        n: &Memory,
        args: Seq<IRPlace>,
        frame: &LocalMem,
        sir: &Sir,
    ) -> bool {
        exists|ms: Seq<Memory>| self.copies(ms, m0, n, args, frame, sir)
    }

    /// Copy over the arguments of a call from the frame of the caller:
    /// argument `i` becomes the local variable `i + 1`.
    pub fn copy_args(&self, mem: &mut Memory, args: &Vec<IRPlace>, frame: &LocalMem, sir: &Sir) -> (r:
        Result<(), InterpError>)
        requires
            old(mem).wf(),
        ensures
            final(mem).wf(),
            final(mem).same_shape(old(mem)),
            r is Ok ==> self.args_copied(old(mem), final(mem), args@, frame, sir),
            r matches Err(e) ==> self.args_fail(old(mem), final(mem), args@, frame, sir, e),
    {
        let ghost m0 = *mem;
        let ghost ms: Seq<Memory> = seq![m0];
        let mut i: usize = 0;
        while i < args.len()
            invariant
                i <= args@.len(),
                mem.wf(),
                m0 == *old(mem),
                mem.same_shape(&m0),
                ms.len() == i + 1,
                ms[0] == m0,
                ms[i as int] == *mem,
                forall|k: int|
                    0 <= k < i ==> self.arg_copied(
                        &#[trigger] ms[k],
                        &ms[k + 1],
                        args@[k],
                        k,
                        frame,
                        sir,
                    ),
            decreases args@.len() - i,
        {
            let ghost m1 = *mem;
            let done: Result<(), InterpError> = if i >= u32::MAX as usize {
                Err(InterpError::Malformed)
            } else {
                match self.local_ptr(&Local((i + 1) as u32)) {
                    None => Err(InterpError::BadAccess),
                    Some(dst) => match &args[i] {
                        IRPlace::Val { .. } | IRPlace::Indirect { .. } => {
                            match frame.iplace_to_ptr(mem, &args[i]) {
                                None => Err(InterpError::BadAccess),
                                Some(src) => match args[i].ty() {
                                    Some(t) => match sir.size_of(&t) {
                                        Some(size) => self.write_val(mem, dst, src, size),
                                        None => Err(InterpError::Malformed),
                                    },
                                    None => Err(InterpError::Malformed),
                                },
                            }
                        },
                        IRPlace::Const { val, .. } => self.write_const(mem, dst, val, sir),
                        _ => Err(InterpError::Unsupported),
                    },
                }
            };
            if let Err(e) = done {
                proof {
                    assert(*mem == m1);
                    assert(!self.arg_copyable(&m1, args@[i as int], i as int, frame, sir));
                    assert(self.copies_short(ms, old(mem), mem, args@, frame, sir, e));
                }
                return Err(e);
            }
            proof {
                assert(self.arg_copied(&m1, mem, args@[i as int], i as int, frame, sir));
                let ghost pre = ms;
                ms = ms.push(*mem);
                assert forall|k: int| 0 <= k < i + 1 implies self.arg_copied(
                    &#[trigger] ms[k],
                    &ms[k + 1],
                    args@[k],
                    k,
                    frame,
                    sir,
                ) by {
                    if k < i {
                        assert(ms[k] == pre[k] && ms[k + 1] == pre[k + 1]);
                    }
                }
            }
            i = i + 1;
        }
        proof {
            assert(self.copies(ms, old(mem), mem, args@, frame, sir));
        }
        Ok(())
    }

    /// Can the argument `arg` of a call, the one of index `k`, be copied
    /// from the frame `frame` of the caller into this frame, in the memory
    /// `m`: is there a local variable `k + 1`, is there something to copy,
    /// and can it be written to the local variable?
    pub open spec fn arg_copyable(&self, m: &Memory, arg: IRPlace, k: int, frame: &LocalMem, sir: &Sir) -> bool {
        &&& k + 1 <= u32::MAX
        &&& match (self.spec_local_ptr(Local((k + 1) as u32)), frame.store_bytes(m, arg, sir)) {
            (Some(d), Some(b)) => m.valid(d, b.len()),
            _ => false,
        }
    }

    /// Why the argument `arg` of a call, the one of index `k`, cannot be
    /// copied from the frame `frame` of the caller into this frame, in the
    /// memory `m`, if it cannot: a local variable with no number
    /// contradicts the program, as does an argument of no known size; a
    /// place that is nowhere, or memory that is not the program's, is a bad
    /// access; and other constants than those that are handled are not
    /// supported.
    pub open spec fn arg_err(&self, m: &Memory, arg: IRPlace, k: int, frame: &LocalMem, sir: &Sir) -> InterpError {
        if k + 1 > u32::MAX {
            InterpError::Malformed
        } else if self.spec_local_ptr(Local((k + 1) as u32)) is None {
            InterpError::BadAccess
        } else {
            match arg {
                IRPlace::Const { val, .. } => if const_bytes(val, sir) is None {
                    InterpError::Unsupported
                } else {
                    InterpError::BadAccess
                },
                IRPlace::Unimplemented => InterpError::Unsupported,
                _ => if frame.spec_place_ptr(m, arg) is Some && store_size(arg, sir) is None {
                    InterpError::Malformed
                } else {
                    InterpError::BadAccess
                },
            }
        }
    }

    /// The memories `ms` are those that the copying of the arguments `args`
    /// into this frame goes through, from the memory `m0` to the memory
    /// `n`, in which it stops short with the error `e`: the argument that
    /// is next cannot be copied.
    pub open spec fn copies_short(
        &self,
        ms: Seq<Memory>,
        m0: &Memory,
        n: &Memory,
        args: Seq<IRPlace>,
        frame: &LocalMem,
        sir: &Sir,
        e: InterpError,
    ) -> bool {
        &&& 1 <= ms.len() <= args.len()
        &&& ms[0] == *m0
        &&& ms.last() == *n
        &&& forall|k: int|
            0 <= k < ms.len() - 1 ==> self.arg_copied(
                &#[trigger] ms[k],
                &ms[k + 1],
                args[k],
                k,
                frame,
                sir,
            )
        &&& !self.arg_copyable(n, args[ms.len() - 1], ms.len() - 1, frame, sir)
        &&& e == self.arg_err(n, args[ms.len() - 1], ms.len() - 1, frame, sir)
    }

    /// `n` is the memory `m0` after the arguments `args` have been copied
    /// into this frame, one after the other, up to one that could not be
    /// copied, with the error `e`.
    pub open spec fn args_fail(
        &self,
        m0: &Memory,
        n: &Memory,
        args: Seq<IRPlace>,
        frame: &LocalMem,
        sir: &Sir,
        e: InterpError,
    ) -> bool {
        exists|ms: Seq<Memory>| self.copies_short(ms, m0, n, args, frame, sir, e)
    }
}

/// What a binary operation makes of the bytes `a` and `b`: their sum, cut
/// down to a byte, with whether it has overflowed; or whether `a` is less
/// than `b`, as 1 or 0. `None` for an operation that is not handled.
pub open spec fn spec_binop_u8(op: BinOp, a: u8, b: u8) -> Option<(u8, bool)> {
    match op {
        BinOp::Add => Some((((a + b) % 256) as u8, a + b > 255)),
        BinOp::Lt => Some(
            (
                if a < b {
                    1u8
                } else {
                    0u8
                },
                false,
            ),
        ),
        _ => None,
    }
}

/// Where in the result of a checked operation at `dest` the flag is that
/// says whether the operation has overflowed: the offset of the second
/// field of the tuple that the result is.
pub open spec fn flag_offset(dest: IRPlace, sir: &Sir) -> Option<i32> {
    match dest.spec_ty() {
        Some(t) => match sir.spec_ty(t, 0) {
            Some(i) => match sir.types@[i as int].1.kind {
                TyKind::Tuple(fields) => if fields.offsets@.len() >= 2 && fields.offsets@[1]
                    <= i32::MAX {
                    Some(fields.offsets@[1] as i32)
                } else {
                    None
                },
                _ => None,
            },
            None => None,
        },
        None => None,
    }
}

/// The number of bytes that are copied when the value of `src` is stored.
pub open spec fn store_size(src: IRPlace, sir: &Sir) -> Option<usize> {
    match src.spec_ty() {
        Some(t) => match sir.spec_ty(t, 0) {
            Some(i) => if sir.types@[i as int].1.size <= usize::MAX {
                Some(sir.types@[i as int].1.size as usize)
            } else {
                None
            },
            None => None,
        },
        None => None,
    }
}

/// The block that a switch over `values` goes to for the value `val`: the
/// target that belongs to the first of `values` that equals `val`, from
/// position `from` on; `otherwise` if there is none.
pub open spec fn switch_target(
    values: Seq<u128>,
    targets: Seq<BasicBlockIndex>,
    otherwise: BasicBlockIndex,
    val: u128,
    from: int,
) -> BasicBlockIndex
    decreases values.len() - from,
{
    if from < 0 || from >= values.len() || from >= targets.len() {
        otherwise
    } else if values[from] == val {
        targets[from]
    } else {
        switch_target(values, targets, otherwise, val, from + 1)
    }
}

/// Find the block that a switch goes to.
pub fn find_switch_target(values: &Vec<u128>, targets: &Vec<BasicBlockIndex>, otherwise: BasicBlockIndex, val: u128) -> (r: BasicBlockIndex)
    ensures
        r == switch_target(values@, targets@, otherwise, val, 0),
{
    let mut i: usize = 0;
    while i < values.len() && i < targets.len()
        invariant
            i <= values@.len(),
            switch_target(values@, targets@, otherwise, val, 0) == switch_target(
                values@,
                targets@,
                otherwise,
                val,
                i as int,
            ),
        decreases values@.len() - i,
    {
        if values[i] == val {
            return targets[i];
        }
        i = i + 1;
    }
    otherwise
}

/// A frame of the interpreter: the memory of its local variables, the block
/// it is in, and its body.
#[derive(Debug)]
pub struct StackFrame {
    /// The memory of the live local variables.
    pub mem: LocalMem,
    /// The block that the frame is in.
    pub bbidx: BasicBlockIndex,
    /// The body of the frame, as its index in the program.
    pub body: usize,
}

/// The stopgap interpreter: its frames, the last of which is the one that
/// executes; the memory; and the program.
pub struct StopgapInterpreter<'a> {
    /// The active frames, the most recent last.
    pub frames: Vec<StackFrame>,
    pub mem: Memory,
    pub sir: &'a Sir,
}

impl<'a> StopgapInterpreter<'a> {
    /// The memory is well formed and every frame has a body.
    pub open spec fn wf(&self) -> bool {
        &&& self.mem.wf()
        &&& forall|i: int|
            0 <= i < self.frames@.len() ==> (#[trigger] self.frames@[i]).body < self.sir.bodies@.len()
    }

    /// The value of `src` as an integer: of a constant, its value; of a
    /// place of a byte or a Boolean, the byte there.
    pub open spec fn spec_read_int(&self, src: IRPlace) -> Option<u128> {
        match src {
            IRPlace::Const { val, .. } => match val {
                Constant::Int(ConstantInt::UnsignedInt(UnsignedInt::U8(v))) => Some(v as u128),
                _ => None,
            },
            _ => {
                if self.frames@.len() == 0 {
                    None
                } else {
                    match (
                        self.frames@.last().mem.spec_place_ptr(&self.mem, src),
                        store_size(src, self.sir),
                    ) {
                        (Some(p), Some(_)) => {
                            let i = self.sir.spec_ty(src.spec_ty().unwrap(), 0).unwrap();
                            let byte_sized = match self.sir.types@[i as int].1.kind {
                                TyKind::UnsignedInt(UnsignedIntTy::U8) => true,
                                TyKind::Bool => true,
                                _ => false,
                            };
                            if byte_sized && self.mem.valid(p, 1) {
                                Some(self.mem.spec_read(p, 1)[0] as u128)
                            } else {
                                None
                            }
                        },
                        _ => None,
                    }
                }
            },
        }
    }

    /// Given the symbol name of a function, make a frame with as much
    /// memory as the local variables of the function take.
    pub fn create_frame(sir: &Sir, mem: &mut Memory, sym: &String) -> (r: Result<
        StackFrame,
        InterpError,
    >)
        requires
            old(mem).wf(),
        ensures
            final(mem).wf(),
            match r {
                Ok(f) => {
                    &&& sir.spec_body(sym@, 0) == Some(f.body)
                    &&& f.body < sir.bodies@.len()
                    &&& f.bbidx == 0
                    &&& f.mem.layout == sir.bodies@[f.body as int].layout
                    &&& f.mem.offsets@ == sir.bodies@[f.body as int].offsets@
                    &&& f.mem.layout.1 > 0
                    &&& f.mem.locals == block_base(old(mem).next, f.mem.layout.1)
                    &&& final(mem).valid(f.mem.locals, f.mem.layout.0 as nat)
                    &&& final(mem).extended(
                        old(mem),
                        Seq::new(f.mem.layout.0 as nat, |k: int| 0u8),
                        f.mem.layout.1,
                    )
                },
                Err(e) => {
                    &&& *final(mem) == *old(mem)
                    &&& e == match sir.spec_body(sym@, 0) {
                        Some(b) => if sir.bodies@[b as int].layout.1 == 0 {
                            InterpError::Malformed
                        } else {
                            InterpError::OutOfMemory
                        },
                        None => InterpError::Malformed,
                    }
                    &&& e == InterpError::OutOfMemory ==> block_base(
                        old(mem).next,
                        sir.bodies@[sir.spec_body(sym@, 0).unwrap() as int].layout.1,
                    ) + sir.bodies@[sir.spec_body(sym@, 0).unwrap() as int].layout.0 > usize::MAX
                },
            },
    {
        let body = match sir.body(sym) {
            Some(b) => b,
            None => {
                return Err(InterpError::Malformed);
            },
        };
        let (size, align) = sir.bodies[body].layout;
        if align == 0 {
            return Err(InterpError::Malformed);
        }
        let locals = match mem.allocate(size, align) {
            Some(l) => l,
            None => {
                return Err(InterpError::OutOfMemory);
            },
        };
        let offsets = copy_offsets(&sir.bodies[body].offsets);
        Ok(StackFrame { mem: LocalMem { locals, offsets, layout: (size, align) }, bbidx: 0, body })
    }

    /// Initialise the interpreter for the function with the symbol name
    /// `sym`, at the start of the function.
    pub fn from_symbol(sir: &'a Sir, mem: Memory, sym: String) -> (r: Result<Self, InterpError>)
        requires
            mem.wf(),
        ensures
            match r {
                Ok(sg) => {
                    &&& sg.wf()
                    &&& sg.sir == sir
                    &&& sg.frames@.len() == 1
                    &&& sir.spec_body(sym@, 0) == Some(sg.frames@[0].body)
                    &&& sg.frames@[0].bbidx == 0
                    &&& sg.frames@[0].mem.layout == sir.bodies@[sg.frames@[0].body as int].layout
                    &&& sg.frames@[0].mem.offsets@ == sir.bodies@[sg.frames@[0].body as int].offsets@
                    &&& sg.frames@[0].mem.layout.1 > 0
                    &&& sg.frames@[0].mem.locals == block_base(mem.next, sg.frames@[0].mem.layout.1)
                    &&& sg.mem.extended(
                        &mem,
                        Seq::new(sg.frames@[0].mem.layout.0 as nat, |k: int| 0u8),
                        sg.frames@[0].mem.layout.1,
                    )
                },
                Err(e) => match sir.spec_body(sym@, 0) {
                    Some(b) => if sir.bodies@[b as int].layout.1 == 0 {
                        e == InterpError::Malformed
                    } else {
                        e == InterpError::OutOfMemory && block_base(
                            mem.next,
                            sir.bodies@[b as int].layout.1,
                        ) + sir.bodies@[b as int].layout.0 > usize::MAX
                    },
                    None => e == InterpError::Malformed,
                },
            },
    {
        let mut mem = mem;
        let frame = match Self::create_frame(sir, &mut mem, &sym) {
            Ok(f) => f,
            Err(e) => {
                return Err(e);
            },
        };
        let mut frames = Vec::new();
        frames.push(frame);
        Ok(StopgapInterpreter { frames, mem, sir })
    }

    /// Initialise the interpreter from the frames that were live at a guard
    /// that has failed, the outermost first. Interpretation starts in the
    /// block of the guard; its terminator is interpreted at once, to find
    /// the block in which interpretation goes on.
    pub fn from_frames(sir: &'a Sir, mem: Memory, v: Vec<FrameInfo>) -> (r: Result<Self, InterpError>)
        requires
            mem.wf(),
        ensures
            match r {
                Ok(sg) => {
                    &&& sg.wf()
                    &&& sg.sir == sir
                    &&& exists|s: Self|
                        {
                            &&& #[trigger] s.set_up(sir, mem, v@)
                            &&& s.frames@.last().bbidx < sir.bodies@[s.frames@.last().body as int].blocks@.len()
                            &&& s.term_done(&sg, s.spec_block().term)
                        }
                },
                Err(e) => {
                    ||| v@.len() == 0 && e == InterpError::Malformed
                    ||| !Self::frames_ok(v@, sir) && e == InterpError::Malformed
                    ||| exists|s: Self|
                        {
                            &&& #[trigger] s.set_up(sir, mem, v@)
                            &&& if s.frames@.last().bbidx >= sir.bodies@[s.frames@.last().body as int].blocks@.len() {
                                e == InterpError::Malformed
                            } else {
                                s.term_fails(s.spec_block().term, e)
                            }
                        }
                },
            },
            v@.len() == 0 ==> r is Err,
    {
        let mut frames: Vec<StackFrame> = Vec::new();
        let mut i: usize = 0;
        while i < v.len()
            invariant
                i <= v@.len(),
                frames@.len() == i,
                forall|k: int| 0 <= k < i ==> (#[trigger] frames@[k]).body < sir.bodies@.len(),
                forall|k: int| 0 <= k < i ==> Self::frame_of(#[trigger] frames@[k], v@[k], sir),
            decreases v@.len() - i,
        {
            let fi = v[i];
            if fi.body >= sir.bodies.len() || fi.bbidx > u32::MAX as usize {
                proof {
                    assert(!(v@[i as int].body < sir.bodies@.len() && v@[i as int].bbidx
                        <= u32::MAX));
                }
                return Err(InterpError::Malformed);
            }
            let body = &sir.bodies[fi.body];
            frames.push(
                StackFrame {
                    mem: LocalMem {
                        locals: fi.mem,
                        offsets: copy_offsets(&body.offsets),
                        layout: body.layout,
                    },
                    bbidx: fi.bbidx as u32,
                    body: fi.body,
                },
            );
            i = i + 1;
        }
        let mut sg = StopgapInterpreter { frames, mem, sir };
        if sg.frames.len() == 0 {
            return Err(InterpError::Malformed);
        }
        let ghost s = sg;
        proof {
            assert(s.set_up(sir, mem, v@));
        }
        let last = sg.frames.len() - 1;
        let body = sg.frames[last].body;
        let bbidx = sg.frames[last].bbidx as usize;
        if bbidx >= sir.bodies[body].blocks.len() {
            return Err(InterpError::Malformed);
        }
        match sg.terminator(&sir.bodies[body].blocks[bbidx].term) {
            Ok(()) => Ok(sg),
            Err(e) => Err(e),
        }
    }

    /// Does each of `v` describe a frame: does it name a body of the
    /// program, and a block by a number that a frame can hold?
    pub open spec fn frames_ok(v: Seq<FrameInfo>, sir: &Sir) -> bool {
        forall|k: int|
            0 <= k < v.len() ==> (#[trigger] v[k]).body < sir.bodies@.len() && v[k].bbidx
                <= u32::MAX
    }

    /// Is `f` the frame that `fi` describes: a frame of the body that `fi`
    /// names, in the block that it names, with its local variables where it
    /// says, laid out as the body says?
    pub open spec fn frame_of(f: StackFrame, fi: FrameInfo, sir: &Sir) -> bool {
        &&& fi.body < sir.bodies@.len()
        &&& f.body == fi.body
        &&& f.bbidx == fi.bbidx
        &&& f.mem.locals == fi.mem
        &&& f.mem.offsets@ == sir.bodies@[fi.body as int].offsets@
        &&& f.mem.layout == sir.bodies@[fi.body as int].layout
    }

    /// Is this the interpreter for the program `sir` with the memory `mem`
    /// and the frames that `v` describes, of which there is one at least?
    pub open spec fn set_up(&self, sir: &Sir, mem: Memory, v: Seq<FrameInfo>) -> bool {
        &&& self.sir == sir
        &&& self.mem == mem
        &&& self.frames@.len() == v.len()
        &&& v.len() > 0
        &&& forall|k: int| 0 <= k < v.len() ==> Self::frame_of(#[trigger] self.frames@[k], v[k], sir)
    }

    /// The memory of the local variables of the frame that executes.
    pub fn locals(&self) -> (r: &LocalMem)
        requires
            self.frames@.len() > 0,
        ensures
            *r == self.frames@.last().mem,
    {
        &self.frames[self.frames.len() - 1].mem
    }

    /// Put a pointer to the interpreter's context into the frame of the
    /// interpreter's step function, the outermost frame.
    pub fn set_interp_ctx(&mut self, ctx: usize) -> (r: Result<(), InterpError>)
        requires
            old(self).wf(),
        ensures
            final(self).wf(),
            final(self).frames == old(self).frames,
            final(self).sir == old(self).sir,
            final(self).mem.same_shape(&old(self).mem),
            match r {
                Ok(()) => {
                    &&& old(self).frames@.len() > 0
                    &&& old(self).frames@[0].mem.spec_local_ptr(Local(INTERP_STEP_ARG)) matches Some(
                        p,
                    )
                    &&& final(self).mem.written(
                        &old(self).mem,
                        p,
                        le_bytes(ctx as nat, PTR_SIZE as nat),
                    )
                },
                Err(e) => e == InterpError::BadAccess && final(self).mem == old(self).mem,
            },
            r is Ok <==> old(self).ctx_settable(),
    {
        if self.frames.len() == 0 {
            return Err(InterpError::BadAccess);
        }
        let ptr = match self.frames[0].mem.local_ptr(&Local(INTERP_STEP_ARG)) {
            Some(p) => p,
            None => {
                return Err(InterpError::BadAccess);
            },
        };
        if self.mem.write_ptr(ptr, ctx) {
            Ok(())
        } else {
            Err(InterpError::BadAccess)
        }
    }

    /// Can a pointer to the interpreter's context be put into the frame
    /// of the interpreter's step function: is there a frame, has it the
    /// local variable that takes the pointer, and can a pointer be written
    /// there?
    pub open spec fn ctx_settable(&self) -> bool {
        &&& self.frames@.len() > 0
        &&& self.frames@[0].mem.spec_local_ptr(Local(INTERP_STEP_ARG)) matches Some(p)
        &&& self.mem.valid(p, PTR_SIZE as nat)
    }

    /// Why the integer at `src` cannot be read, if it cannot: only bytes
    /// are read, as constants and from memory; it contradicts the program
    /// if there is no frame, or if nothing is known of the type of the
    /// place; and a place that is nowhere, or memory that is not the
    /// program's, is a bad access.
    pub open spec fn read_err(&self, src: IRPlace) -> InterpError {
        if src is Const {
            InterpError::Unsupported
        } else if self.frames@.len() == 0 {
            InterpError::Malformed
        } else if self.frames@.last().mem.spec_place_ptr(&self.mem, src) is None {
            InterpError::BadAccess
        } else {
            match src.spec_ty() {
                Some(t) => match self.sir.spec_ty(t, 0) {
                    Some(i) => if self.sir.types@[i as int].1.size > usize::MAX {
                        InterpError::Malformed
                    } else {
                        match self.sir.types@[i as int].1.kind {
                            TyKind::UnsignedInt(UnsignedIntTy::U8) => InterpError::BadAccess,
                            TyKind::Bool => InterpError::BadAccess,
                            _ => InterpError::Unsupported,
                        }
                    },
                    None => InterpError::Malformed,
                },
                None => InterpError::Malformed,
            }
        }
    }

    /// Read the integer at `src`.
    pub fn read_int(&self, src: &IRPlace) -> (r: Result<u128, InterpError>)
        requires
            self.wf(),
        ensures
            match r {
                Ok(v) => self.spec_read_int(*src) == Some(v),
                Err(e) => self.spec_read_int(*src) is None && e == self.read_err(*src),
            },
    {
        if let IRPlace::Const { val, .. } = src {
            return match val {
                Constant::Int(ConstantInt::UnsignedInt(UnsignedInt::U8(v))) => Ok(*v as u128),
                _ => Err(InterpError::Unsupported),
            };
        }
        if self.frames.len() == 0 {
            return Err(InterpError::Malformed);
        }
        let ptr = match self.locals().iplace_to_ptr(&self.mem, src) {
            Some(p) => p,
            None => {
                return Err(InterpError::BadAccess);
            },
        };
        let t = match src.ty() {
            Some(t) => t,
            None => {
                return Err(InterpError::Malformed);
            },
        };
        let i = match self.sir.ty(&t) {
            Some(i) => i,
            None => {
                return Err(InterpError::Malformed);
            },
        };
        if self.sir.types[i].1.size > usize::MAX as u64 {
            return Err(InterpError::Malformed);
        }
        match &self.sir.types[i].1.kind {
            TyKind::UnsignedInt(UnsignedIntTy::U8) | TyKind::Bool => match self.mem.read_u8(ptr) {
                Some(b) => Ok(b as u128),
                None => Err(InterpError::BadAccess),
            },
            _ => Err(InterpError::Unsupported),
        }
    }

    /// Store the value of `src` in `dest`, in the frame that executes.
    pub fn store(&mut self, dest: &IRPlace, src: &IRPlace) -> (r: Result<(), InterpError>)
        requires
            old(self).wf(),
        ensures
            final(self).wf(),
            final(self).frames == old(self).frames,
            final(self).sir == old(self).sir,
            final(self).mem.same_shape(&old(self).mem),
            match r {
                Ok(()) => old(self).frames@.len() > 0 && old(self).frames@.last().mem.stored(
                    &old(self).mem,
                    &final(self).mem,
                    *dest,
                    *src,
                    old(self).sir,
                ),
                Err(e) => final(self).mem == old(self).mem && !(old(self).frames@.len() > 0 && old(
                    self,
                ).frames@.last().mem.can_store(&old(self).mem, *dest, *src, old(self).sir)) && e
                    == old(self).store_err(*dest, *src),
            },
    {
        if self.frames.len() == 0 {
            return Err(InterpError::Malformed);
        }
        let last = self.frames.len() - 1;
        self.frames[last].mem.store(&mut self.mem, dest, src, self.sir)
    }

    /// Why `src` cannot be stored to `dest` in the frame that executes, if
    /// it cannot: it contradicts the program if there is no frame.
    pub open spec fn store_err(&self, dest: IRPlace, src: IRPlace) -> InterpError {
        if self.frames@.len() == 0 {
            InterpError::Malformed
        } else {
            self.frames@.last().mem.store_err(&self.mem, dest, src, self.sir)
        }
    }

    /// Why a reference to `src` cannot be stored in `dest`, if it cannot:
    /// it contradicts the program if there is no frame, and is a bad access
    /// otherwise.
    pub open spec fn mkref_err(&self) -> InterpError {
        if self.frames@.len() == 0 {
            InterpError::Malformed
        } else {
            InterpError::BadAccess
        }
    }

    /// Can a reference to `src` be stored in `dest`: are both places of the
    /// frame that executes, and can a pointer be written to `dest`?
    pub open spec fn can_mkref(&self, dest: IRPlace, src: IRPlace) -> bool {
        &&& self.frames@.len() > 0
        &&& self.frames@.last().mem.spec_place_ptr(&self.mem, src) is Some
        &&& self.frames@.last().mem.spec_place_ptr(&self.mem, dest) matches Some(d)
        &&& self.mem.valid(d, PTR_SIZE as nat)
    }

    /// `n` is the memory after a reference to `src` has been stored in
    /// `dest`: the address of `src` has been written there.
    pub open spec fn ref_made(&self, n: &Memory, dest: IRPlace, src: IRPlace) -> bool {
        &&& self.can_mkref(dest, src)
        &&& n.written(
            &self.mem,
            self.frames@.last().mem.spec_place_ptr(&self.mem, dest).unwrap(),
            le_bytes(
                self.frames@.last().mem.spec_place_ptr(&self.mem, src).unwrap() as nat,
                PTR_SIZE as nat,
            ),
        )
    }

    /// Store a reference to `src` in `dest`: the address of `src`.
    pub fn mkref(&mut self, dest: &IRPlace, src: &IRPlace) -> (r: Result<(), InterpError>)
        requires
            old(self).wf(),
        ensures
            final(self).wf(),
            final(self).frames == old(self).frames,
            final(self).sir == old(self).sir,
            final(self).mem.same_shape(&old(self).mem),
            match r {
                Ok(()) => old(self).ref_made(&final(self).mem, *dest, *src),
                Err(e) => final(self).mem == old(self).mem && !old(self).can_mkref(*dest, *src) && e
                    == old(self).mkref_err(),
            },
    {
        if self.frames.len() == 0 {
            return Err(InterpError::Malformed);
        }
        let (src_ptr, dst_ptr) = {
            let locals = self.locals();
            let s = match locals.iplace_to_ptr(&self.mem, src) {
                Some(p) => p,
                None => {
                    return Err(InterpError::BadAccess);
                },
            };
            let d = match locals.iplace_to_ptr(&self.mem, dest) {
                Some(p) => p,
                None => {
                    return Err(InterpError::BadAccess);
                },
            };
            (s, d)
        };
        if self.mem.write_ptr(dst_ptr, src_ptr) {
            Ok(())
        } else {
            Err(InterpError::BadAccess)
        }
    }

    /// A binary operation on bytes: the sum of `a` and `b` with whether it
    /// has overflowed, or whether `a` is less than `b`.
    pub fn binop_u8(op: &BinOp, a: u8, b: u8) -> (r: Option<(u8, bool)>)
        ensures
            r == spec_binop_u8(*op, a, b),
    {
        match op {
            BinOp::Add => {
                let s: u16 = a as u16 + b as u16;
                Some(((s % 256) as u8, s > 255))
            },
            BinOp::Lt => Some(
                (
                    if a < b {
                        1
                    } else {
                        0
                    },
                    false,
                ),
            ),
            _ => None,
        }
    }

    /// The bytes that the operation `op` is applied to, and what it makes of
    /// them: the values of the operands, of which the first is of the type
    /// of bytes, and the result with whether it has overflowed. `None`
    /// where the operation is not handled, the operands are no bytes, or
    /// an overflow goes unchecked.
    pub open spec fn spec_binop(&self, op: BinOp, opnd1: IRPlace, opnd2: IRPlace, checked: bool) -> Option<
        (u8, bool),
    > {
        let is_byte = match opnd1.spec_ty() {
            Some(t) => match self.sir.spec_ty(t, 0) {
                Some(i) => self.sir.types@[i as int].1.kind == TyKind::UnsignedInt(
                    UnsignedIntTy::U8,
                ),
                None => false,
            },
            None => false,
        };
        match (self.spec_read_int(opnd1), self.spec_read_int(opnd2)) {
            (Some(a), Some(b)) => if is_byte && a <= 255 && b <= 255 && self.frames@.len() > 0 {
                match spec_binop_u8(op, a as u8, b as u8) {
                    Some((v, of)) => if of && !checked {
                        None
                    } else {
                        Some((v, of))
                    },
                    None => None,
                }
            } else {
                None
            },
            _ => None,
        }
    }

    /// Is the operation one that is handled, on operands that are bytes?
    pub open spec fn can_binop(&self, op: BinOp, opnd1: IRPlace, opnd2: IRPlace, checked: bool) -> bool {
        self.spec_binop(op, opnd1, opnd2, checked) is Some
    }

    /// `n` is the memory after the binary operation: the result has been
    /// written to `dest`, after, for a checked operation, whether it has
    /// overflowed has been written to the second field of the tuple there.
    pub open spec fn binop_done(
        &self,
        n: &Memory,
        dest: IRPlace,
        op: BinOp,
        opnd1: IRPlace,
        opnd2: IRPlace,
        checked: bool,
    ) -> bool {
        &&& self.frames@.len() > 0
        &&& self.spec_binop(op, opnd1, opnd2, checked) matches Some((v, of))
        &&& self.frames@.last().mem.spec_place_ptr(&self.mem, dest) matches Some(p)
        &&& if checked {
            &&& flag_offset(dest, self.sir) matches Some(off)
            &&& exists|m: Memory|
                {
                    &&& m.written(
                        &self.mem,
                        spec_offset(p, off as int),
                        seq![if of {
                            1u8
                        } else {
                            0u8
                        }],
                    )
                    &&& self.mem.valid(spec_offset(p, off as int), 1)
                    &&& m.valid(p, 1)
                    &&& #[trigger] n.written(&m, p, seq![v])
                }
        } else {
            self.mem.valid(p, 1) && n.written(&self.mem, p, seq![v])
        }
    }

    /// Interpret a binary operation: the result goes to `dest`; with
    /// `checked`, whether the operation has overflowed goes to the second
    /// field of the tuple at `dest`. Only operations on bytes are handled,
    /// and an overflow must be checked for.
    pub fn binop(&mut self, dest: &IRPlace, op: &BinOp, opnd1: &IRPlace, opnd2: &IRPlace, checked: bool) -> (r: Result<(), InterpError>)
        requires
            old(self).wf(),
        ensures
            final(self).wf(),
            final(self).frames == old(self).frames,
            final(self).sir == old(self).sir,
            final(self).mem.same_shape(&old(self).mem),
            r is Ok ==> old(self).binop_done(&final(self).mem, *dest, *op, *opnd1, *opnd2, checked),
            !old(self).can_binop(*op, *opnd1, *opnd2, checked) ==> r is Err && final(self).mem
                == old(self).mem,
            r is Ok <==> old(self).binop_ok(*dest, *op, *opnd1, *opnd2, checked),
            r matches Err(e) ==> e == old(self).binop_err(*dest, *op, *opnd1, *opnd2, checked),
    {
        let t = match opnd1.ty() {
            Some(t) => t,
            None => {
                return Err(InterpError::Malformed);
            },
        };
        let ti = match self.sir.ty(&t) {
            Some(i) => i,
            None => {
                return Err(InterpError::Malformed);
            },
        };
        match &self.sir.types[ti].1.kind {
            TyKind::UnsignedInt(UnsignedIntTy::U8) => {},
            _ => {
                return Err(InterpError::Unsupported);
            },
        }
        let a = match self.read_int(opnd1) {
            Ok(v) => v,
            Err(e) => {
                return Err(e);
            },
        };
        let b = match self.read_int(opnd2) {
            Ok(v) => v,
            Err(e) => {
                return Err(e);
            },
        };
        if a > 255 || b > 255 || self.frames.len() == 0 {
            return Err(InterpError::Malformed);
        }
        let ptr = match self.locals().iplace_to_ptr(&self.mem, dest) {
            Some(p) => p,
            None => {
                return Err(InterpError::BadAccess);
            },
        };
        let (v, of) = match Self::binop_u8(op, a as u8, b as u8) {
            Some(x) => x,
            None => {
                return Err(InterpError::Unsupported);
            },
        };
        let ghost m0 = self.mem;
        if checked {
            // The overflow flag is the second field of the result.
            let dt = match dest.ty() {
                Some(t) => t,
                None => {
                    return Err(InterpError::Malformed);
                },
            };
            let di = match self.sir.ty(&dt) {
                Some(i) => i,
                None => {
                    return Err(InterpError::Malformed);
                },
            };
            let flag_off = match &self.sir.types[di].1.kind {
                TyKind::Tuple(fields) => {
                    if fields.offsets.len() < 2 || fields.offsets[1] > i32::MAX as u64 {
                        return Err(InterpError::Malformed);
                    }
                    fields.offsets[1] as i32
                },
                _ => {
                    return Err(InterpError::Malformed);
                },
            };
            let mut flag = Vec::new();
            flag.push(if of {
                1u8
            } else {
                0u8
            });
            if !self.mem.write(offset_ptr(ptr, flag_off), &flag) {
                return Err(InterpError::BadAccess);
            }
            proof {
                self.mem.lemma_shape_valid(&m0, ptr, 1);
            }
        } else if of {
            return Err(InterpError::Unsupported);
        }
        let mut bytes = Vec::new();
        bytes.push(v);
        if self.mem.write(ptr, &bytes) {
            Ok(())
        } else {
            Err(InterpError::BadAccess)
        }
    }

    /// Why the binary operation cannot be interpreted, if it cannot. It
    /// contradicts the program if nothing is known of the type of the first
    /// operand, if an operand that should be a byte is none, if there is no
    /// frame, or if the result of a checked operation is no tuple with a
    /// field for the flag. Operands that are no bytes are not supported,
    /// nor are the operations that are not handled and an overflow that
    /// goes unchecked. An operand that cannot be read fails as the reading
    /// does. Anything else is a bad access.
    pub open spec fn binop_err(
        &self,
        dest: IRPlace,
        op: BinOp,
        opnd1: IRPlace,
        opnd2: IRPlace,
        checked: bool,
    ) -> InterpError {
        let kind = match opnd1.spec_ty() {
            Some(t) => match self.sir.spec_ty(t, 0) {
                Some(i) => Some(self.sir.types@[i as int].1.kind),
                None => None,
            },
            None => None,
        };
        if kind is None {
            InterpError::Malformed
        } else if kind != Some(TyKind::UnsignedInt(UnsignedIntTy::U8)) {
            InterpError::Unsupported
        } else {
            match (self.spec_read_int(opnd1), self.spec_read_int(opnd2)) {
                (None, _) => self.read_err(opnd1),
                (Some(_), None) => self.read_err(opnd2),
                (Some(a), Some(b)) => if a > 255 || b > 255 || self.frames@.len() == 0 {
                    InterpError::Malformed
                } else if self.frames@.last().mem.spec_place_ptr(&self.mem, dest) is None {
                    InterpError::BadAccess
                } else {
                    match spec_binop_u8(op, a as u8, b as u8) {
                        Some((_, of)) => if checked {
                            if flag_offset(dest, self.sir) is None {
                                InterpError::Malformed
                            } else {
                                InterpError::BadAccess
                            }
                        } else if of {
                            InterpError::Unsupported
                        } else {
                            InterpError::BadAccess
                        },
                        None => InterpError::Unsupported,
                    }
                },
            }
        }
    }

    /// Can the binary operation be interpreted: is it one that is handled,
    /// on operands that are bytes, and can its result be written to
    /// `dest`, and with it, for a checked operation, whether it has
    /// overflowed?
    pub open spec fn binop_ok(
        &self,
        dest: IRPlace,
        op: BinOp,
        opnd1: IRPlace,
        opnd2: IRPlace,
        checked: bool,
    ) -> bool {
        &&& self.frames@.len() > 0
        &&& self.spec_binop(op, opnd1, opnd2, checked) is Some
        &&& self.frames@.last().mem.spec_place_ptr(&self.mem, dest) matches Some(p)
        &&& self.mem.valid(p, 1)
        &&& checked ==> (flag_offset(dest, self.sir) matches Some(off) && self.mem.valid(
            spec_offset(p, off as int),
            1,
        ))
    }

    /// Why the statement `stmt` cannot be interpreted in the frame that
    /// executes, if it cannot: as the store, the making of the reference
    /// or the binary operation that it is; other statements are not
    /// supported.
    pub open spec fn stmt_err(&self, stmt: Statement) -> InterpError {
        match stmt {
            Statement::MkRef(_, _) => self.mkref_err(),
            Statement::Store(dest, src) => self.store_err(dest, src),
            Statement::BinaryOp { dest, op, opnd1, opnd2, checked } => self.binop_err(
                dest,
                op,
                opnd1,
                opnd2,
                checked,
            ),
            _ => InterpError::Unsupported,
        }
    }

    /// Why the frame that executes, which is not the outermost, cannot
    /// return, if it cannot: it contradicts the program if the block that
    /// its caller is in does not end in a call that says where the value
    /// that is returned goes, or if nothing is known of the size of that
    /// value; anything else is a bad access.
    pub open spec fn return_err(&self) -> InterpError {
        let k = self.frames@.len();
        let top = self.frames@.last();
        let caller = self.frames@[k - 2];
        let blocks = self.sir.bodies@[caller.body as int].blocks@;
        if caller.bbidx >= blocks.len() {
            InterpError::Malformed
        } else {
            match blocks[caller.bbidx as int].term {
                Terminator::Call { destination: Some((dest, _)), .. } => if top.mem.spec_local_ptr(
                    Local(RETURN_LOCAL),
                ) is Some && caller.mem.spec_place_ptr(&self.mem, dest) is Some && store_size(
                    dest,
                    self.sir,
                ) is None {
                    InterpError::Malformed
                } else {
                    InterpError::BadAccess
                },
                _ => InterpError::Malformed,
            }
        }
    }

    /// Can the statement `stmt` be interpreted in the frame that executes?
    pub open spec fn can_stmt(&self, stmt: Statement) -> bool {
        match stmt {
            Statement::Nop => true,
            Statement::StorageLive(_) => true,
            Statement::StorageDead(_) => true,
            Statement::MkRef(dest, src) => self.can_mkref(dest, src),
            Statement::Store(dest, src) => self.frames@.len() > 0 && self.frames@.last().mem.can_store(
                &self.mem,
                dest,
                src,
                self.sir,
            ),
            Statement::BinaryOp { dest, op, opnd1, opnd2, checked } => self.binop_ok(
                dest,
                op,
                opnd1,
                opnd2,
                checked,
            ),
            _ => false,
        }
    }

    /// `n` is the memory after the statement `stmt` has been interpreted
    /// in the frame that executes. Statements that only say where a local
    /// variable lives and dies change nothing.
    pub open spec fn stmt_done(&self, n: &Memory, stmt: Statement) -> bool {
        match stmt {
            Statement::Nop => *n == self.mem,
            Statement::StorageLive(_) => *n == self.mem,
            Statement::StorageDead(_) => *n == self.mem,
            Statement::MkRef(dest, src) => self.ref_made(n, dest, src),
            Statement::Store(dest, src) => self.frames@.len() > 0 && self.frames@.last().mem.stored(
                &self.mem,
                n,
                dest,
                src,
                self.sir,
            ),
            Statement::BinaryOp { dest, op, opnd1, opnd2, checked } => self.binop_done(
                n,
                dest,
                op,
                opnd1,
                opnd2,
                checked,
            ),
            _ => false,
        }
    }

    /// Interpret the statement `stmt` in the frame that executes.
    pub fn statement(&mut self, stmt: &Statement) -> (r: Result<(), InterpError>)
        requires
            old(self).wf(),
        ensures
            final(self).wf(),
            final(self).frames == old(self).frames,
            final(self).sir == old(self).sir,
            final(self).mem.same_shape(&old(self).mem),
            r is Ok ==> old(self).stmt_done(&final(self).mem, *stmt),
            r is Ok <==> old(self).can_stmt(*stmt),
            match *stmt {
                Statement::Nop => r is Ok,
                Statement::StorageLive(_) => r is Ok,
                Statement::StorageDead(_) => r is Ok,
                Statement::MkRef(dest, src) => r is Ok <==> old(self).can_mkref(dest, src),
                Statement::Store(dest, src) => r is Ok <==> old(self).frames@.len() > 0 && old(
                    self,
                ).frames@.last().mem.can_store(&old(self).mem, dest, src, old(self).sir),
                Statement::BinaryOp { dest, op, opnd1, opnd2, checked } => !old(self).can_binop(
                    op,
                    opnd1,
                    opnd2,
                    checked,
                ) ==> r is Err,
                _ => r == Err::<(), InterpError>(InterpError::Unsupported),
            },
            r is Err && !(*stmt is BinaryOp) ==> final(self).mem == old(self).mem,
            r matches Err(e) ==> e == old(self).stmt_err(*stmt),
    {
        match stmt {
            Statement::MkRef(dest, src) => self.mkref(dest, src),
            Statement::Store(dest, src) => self.store(dest, src),
            Statement::BinaryOp { dest, op, opnd1, opnd2, checked } => self.binop(
                dest,
                op,
                opnd1,
                opnd2,
                *checked,
            ),
            Statement::Nop => Ok(()),
            Statement::StorageLive(_) | Statement::StorageDead(_) => Ok(()),
            _ => Err(InterpError::Unsupported),
        }
    }

    /// `n` is the interpreter with the frame that executes moved to the
    /// block `bb`, and nothing else changed.
    pub open spec fn moved_to(&self, n: &Self, bb: BasicBlockIndex) -> bool {
        &&& self.frames@.len() > 0
        &&& n.mem == self.mem
        &&& n.frames@.len() == self.frames@.len()
        &&& n.frames@.drop_last() == self.frames@.drop_last()
        &&& n.frames@.last().bbidx == bb
        &&& n.frames@.last().body == self.frames@.last().body
        &&& n.frames@.last().mem == self.frames@.last().mem
    }

    /// `n` is the interpreter after the function with the symbol name `sym`
    /// has been called with the arguments `args`: a frame for the function
    /// has been pushed, at the start of the function, with fresh memory for
    /// its local variables, all zero but for the arguments, which have been
    /// copied there from the frame of the caller.
    pub open spec fn called(&self, n: &Self, sym: Seq<char>, args: Seq<IRPlace>) -> bool {
        &&& self.frames@.len() > 0
        &&& self.sir.spec_body(sym, 0) matches Some(b)
        &&& self.sir.bodies@[b as int].layout.1 > 0
        &&& n.frames@.len() == self.frames@.len() + 1
        &&& n.frames@.drop_last() == self.frames@
        &&& n.frames@.last().body == b
        &&& n.frames@.last().bbidx == 0
        &&& n.frames@.last().mem.layout == self.sir.bodies@[b as int].layout
        &&& n.frames@.last().mem.offsets@ == self.sir.bodies@[b as int].offsets@
        &&& n.frames@.last().mem.locals == block_base(
            self.mem.next,
            self.sir.bodies@[b as int].layout.1,
        )
        &&& exists|m: Memory|
            {
                &&& m.extended(
                    &self.mem,
                    Seq::new(self.sir.bodies@[b as int].layout.0 as nat, |k: int| 0u8),
                    self.sir.bodies@[b as int].layout.1,
                )
                &&& #[trigger] n.frames@.last().mem.args_copied(
                    &m,
                    &n.mem,
                    args,
                    &self.frames@.last().mem,
                    self.sir,
                )
            }
    }

    /// `n` is the interpreter after the frame that executes has returned:
    /// the frame has been popped, and its memory released. If a frame is
    /// left, the value that was returned has been written, before the
    /// memory was released, where the call in the block of the caller wants
    /// it, and the caller has moved to the block that the call names.
    pub open spec fn returned(&self, n: &Self) -> bool {
        let k = self.frames@.len();
        let top = self.frames@.last();
        &&& k > 0
        &&& n.frames@.len() == k - 1
        &&& if k == 1 {
            n.mem.released(&self.mem, top.mem.locals)
        } else {
            let caller = self.frames@[k - 2];
            let blocks = self.sir.bodies@[caller.body as int].blocks@;
            &&& caller.bbidx < blocks.len()
            &&& blocks[caller.bbidx as int].term matches Terminator::Call {
                destination: Some((dest, next)),
                ..
            }
            &&& top.mem.spec_local_ptr(Local(RETURN_LOCAL)) matches Some(rp)
            &&& caller.mem.spec_place_ptr(&self.mem, dest) matches Some(dp)
            &&& store_size(dest, self.sir) matches Some(sz)
            &&& self.mem.valid(rp, sz as nat)
            &&& self.mem.valid(dp, sz as nat)
            &&& exists|m: Memory|
                {
                    &&& m.written(&self.mem, dp, self.mem.spec_read(rp, sz as nat))
                    &&& #[trigger] n.mem.released(&m, top.mem.locals)
                }
            &&& n.frames@.drop_last() == self.frames@.subrange(0, k - 2)
            &&& n.frames@.last().bbidx == next
            &&& n.frames@.last().body == caller.body
            &&& n.frames@.last().mem == caller.mem
        }
    }

    /// `n` is the interpreter after the terminator `term` of the block
    /// that the frame that executes is in: a jump, a switch or an assertion
    /// that holds has moved the frame to its next block; a call has pushed
    /// a frame; a return has popped one.
    pub open spec fn term_done(&self, n: &Self, term: Terminator) -> bool {
        match term {
            Terminator::Goto(bb) => self.moved_to(n, bb),
            Terminator::SwitchInt { discr, values, target_bbs, otherwise_bb } => {
                &&& self.spec_read_int(discr) matches Some(v)
                &&& self.moved_to(n, switch_target(values@, target_bbs@, otherwise_bb, v, 0))
            },
            Terminator::Assert { cond, expected, target_bb } => {
                &&& self.spec_read_int(cond) matches Some(v)
                &&& (v == 1) == expected
                &&& self.moved_to(n, target_bb)
            },
            Terminator::Call { operand, args, .. } => {
                &&& operand matches CallOperand::Fn(sym)
                &&& self.called(n, sym@, args@)
            },
            Terminator::Return => self.returned(n),
            _ => false,
        }
    }

    /// Interpret the terminator `term` of the block that the frame that
    /// executes is in. A call pushes a frame for the callee, with the
    /// arguments copied into it. A return pops the frame, releases its
    /// memory, and hands the returned value to the frame of the caller, which
    /// goes on in the block that the call names. The other terminators
    /// choose the next block of the frame.
    pub fn terminator(&mut self, term: &Terminator) -> (r: Result<(), InterpError>)
        requires
            old(self).wf(),
        ensures
            final(self).wf(),
            final(self).sir == old(self).sir,
            r is Ok ==> old(self).frames@.len() > 0,
            r is Ok ==> old(self).term_done(final(self), *term),
            r matches Err(e) ==> old(self).term_fails(*term, e),
            // The terminators that only choose a block succeed wherever
            // they can.
            old(self).frames@.len() > 0 ==> match *term {
                Terminator::Goto(_) => r is Ok,
                Terminator::SwitchInt { discr, .. } => r is Ok <==> old(self).spec_read_int(discr)
                    is Some,
                Terminator::Assert { cond, expected, .. } => match old(self).spec_read_int(cond) {
                    Some(v) => if (v == 1) == expected {
                        r is Ok
                    } else {
                        r == Err::<(), InterpError>(InterpError::AssertFailed)
                    },
                    None => r is Err,
                },
                Terminator::Call { .. } => true,
                Terminator::Return => true,
                _ => r == Err::<(), InterpError>(InterpError::Unsupported),
            },
            old(self).frames@.len() == 0 ==> r == Err::<(), InterpError>(InterpError::Malformed),
    {
        if self.frames.len() == 0 {
            return Err(InterpError::Malformed);
        }
        let last = self.frames.len() - 1;
        match term {
            Terminator::Call { operand, args, destination: _ } => {
                let fname = match operand {
                    CallOperand::Fn(sym) => sym,
                    CallOperand::Unknown => {
                        return Err(InterpError::Unsupported);
                    },
                };
                let frame = match Self::create_frame(self.sir, &mut self.mem, fname) {
                    Ok(f) => f,
                    Err(e) => {
                        return Err(e);
                    },
                };
                let ghost fresh = self.mem;
                match frame.mem.copy_args(&mut self.mem, args, &self.frames[last].mem, self.sir) {
                    Ok(()) => {},
                    Err(e) => {
                        proof {
                            assert(frame.mem.args_fail(
                                &fresh,
                                &self.mem,
                                args@,
                                &old(self).frames@.last().mem,
                                self.sir,
                                e,
                            ));
                        }
                        return Err(e);
                    },
                }
                self.frames.push(frame);
                proof {
                    assert(self.frames@.drop_last() =~= old(self).frames@);
                    assert(self.frames@.last().mem.args_copied(
                        &fresh,
                        &self.mem,
                        args@,
                        &old(self).frames@.last().mem,
                        self.sir,
                    ));
                }
                Ok(())
            },
            Terminator::Return => {
                let oldframe = self.frames.pop().unwrap();
                proof {
                    assert(self.frames@ =~= old(self).frames@.drop_last());
                }
                // With no frame left the interpreter's step function has
                // returned: the control point is reached.
                if self.frames.len() > 0 {
                    let cur = self.frames.len() - 1;
                    let body = self.frames[cur].body;
                    let bbidx = self.frames[cur].bbidx as usize;
                    let sir = self.sir;
                    if bbidx >= sir.bodies[body].blocks.len() {
                        return Err(InterpError::Malformed);
                    }
                    // The call that the caller's block ends in says where
                    // the value and control go.
                    let (dest, next) = match &sir.bodies[body].blocks[bbidx].term {
                        Terminator::Call { destination: Some((p, b)), .. } => (*p, *b),
                        _ => {
                            return Err(InterpError::Malformed);
                        },
                    };
                    let ret_ptr = match oldframe.mem.local_ptr(&Local(RETURN_LOCAL)) {
                        Some(p) => p,
                        None => {
                            return Err(InterpError::BadAccess);
                        },
                    };
                    let dst_ptr = match self.frames[cur].mem.iplace_to_ptr(&self.mem, &dest) {
                        Some(p) => p,
                        None => {
                            return Err(InterpError::BadAccess);
                        },
                    };
                    let size = match dest.ty() {
                        Some(t) => match sir.size_of(&t) {
                            Some(s) => s,
                            None => {
                                return Err(InterpError::Malformed);
                            },
                        },
                        None => {
                            return Err(InterpError::Malformed);
                        },
                    };
                    match self.frames[cur].mem.write_val(&mut self.mem, dst_ptr, ret_ptr, size) {
                        Ok(()) => {},
                        Err(e) => {
                            return Err(e);
                        },
                    }
                    self.set_bbidx(next);
                    proof {
                        let k = old(self).frames@.len() as int;
                        assert(self.frames@.drop_last() =~= old(self).frames@.subrange(0, k - 2));
                    }
                }
                let ghost copied = self.mem;
                self.mem.release(oldframe.mem.locals);
                proof {
                    assert(self.mem.released(&copied, oldframe.mem.locals));
                }
                Ok(())
            },
            Terminator::SwitchInt { discr, values, target_bbs, otherwise_bb } => {
                let val = match self.read_int(discr) {
                    Ok(v) => v,
                    Err(e) => {
                        return Err(e);
                    },
                };
                self.set_bbidx(find_switch_target(values, target_bbs, *otherwise_bb, val));
                Ok(())
            },
            Terminator::Goto(bb) => {
                self.set_bbidx(*bb);
                Ok(())
            },
            Terminator::Assert { cond, expected, target_bb } => {
                let b = match self.read_int(cond) {
                    Ok(v) => v == 1,
                    Err(e) => {
                        return Err(e);
                    },
                };
                if b != *expected {
                    return Err(InterpError::AssertFailed);
                }
                self.set_bbidx(*target_bb);
                Ok(())
            },
            _ => Err(InterpError::Unsupported),
        }
    }

    /// Can the frame that executes return: is it the outermost frame, or
    /// does the block that its caller is in end in a call that says where
    /// the value that is returned goes, and can the value be copied there?
    pub open spec fn can_return(&self) -> bool {
        let k = self.frames@.len();
        let top = self.frames@.last();
        &&& k > 0
        &&& k > 1 ==> {
            let caller = self.frames@[k - 2];
            let blocks = self.sir.bodies@[caller.body as int].blocks@;
            &&& caller.bbidx < blocks.len()
            &&& blocks[caller.bbidx as int].term matches Terminator::Call {
                destination: Some((dest, next)),
                ..
            }
            &&& top.mem.spec_local_ptr(Local(RETURN_LOCAL)) matches Some(rp)
            &&& caller.mem.spec_place_ptr(&self.mem, dest) matches Some(dp)
            &&& store_size(dest, self.sir) matches Some(sz)
            &&& self.mem.valid(rp, sz as nat)
            &&& self.mem.valid(dp, sz as nat)
        }
    }

    /// Does a call of `operand` with the arguments `args` fail: is it not
    /// known what is called, is there no memory to be had for the local
    /// variables of the function, or is there, once the memory has been
    /// allocated, an argument that cannot be copied there?
    pub open spec fn call_fails(&self, operand: CallOperand, args: Seq<IRPlace>, e: InterpError) -> bool {
        match operand {
            CallOperand::Unknown => e == InterpError::Unsupported,
            CallOperand::Fn(sym) => match self.sir.spec_body(sym@, 0) {
                None => e == InterpError::Malformed,
                Some(b) => {
                    let layout = self.sir.bodies@[b as int].layout;
                    ||| layout.1 == 0 && e == InterpError::Malformed
                    ||| layout.1 != 0 && block_base(self.mem.next, layout.1) + layout.0
                        > usize::MAX && e == InterpError::OutOfMemory
                    ||| exists|m: Memory, n: Memory, f: LocalMem|
                        {
                            &&& m.extended(
                                &self.mem,
                                Seq::new(layout.0 as nat, |k: int| 0u8),
                                layout.1,
                            )
                            &&& f.locals == block_base(self.mem.next, layout.1)
                            &&& f.offsets@ == self.sir.bodies@[b as int].offsets@
                            &&& f.layout == layout
                            &&& #[trigger] f.args_fail(
                                &m,
                                &n,
                                args,
                                &self.frames@.last().mem,
                                self.sir,
                                e,
                            )
                        }
                },
            },
        }
    }

    /// Does the terminator `term` of the block that the frame that
    /// executes is in fail: is there no frame; can the value that a switch
    /// or an assertion turns on not be read; does the assertion not hold;
    /// does the call fail; can the frame not return; or is the terminator
    /// one that is not handled?
    pub open spec fn term_fails(&self, term: Terminator, e: InterpError) -> bool {
        if self.frames@.len() == 0 {
            e == InterpError::Malformed
        } else {
            match term {
                Terminator::Goto(_) => false,
                Terminator::SwitchInt { discr, .. } => self.spec_read_int(discr) is None && e
                    == self.read_err(discr),
                Terminator::Assert { cond, expected, .. } => match self.spec_read_int(cond) {
                    Some(v) => (v == 1) != expected && e == InterpError::AssertFailed,
                    None => e == self.read_err(cond),
                },
                Terminator::Call { operand, args, .. } => self.call_fails(operand, args@, e),
                Terminator::Return => !self.can_return() && e == self.return_err(),
                _ => e == InterpError::Unsupported,
            }
        }
    }

    /// Put the frame that executes into the block `bb`.
    fn set_bbidx(&mut self, bb: BasicBlockIndex)
        requires
            old(self).wf(),
            old(self).frames@.len() > 0,
        ensures
            final(self).wf(),
            final(self).sir == old(self).sir,
            final(self).mem == old(self).mem,
            final(self).frames@.len() == old(self).frames@.len(),
            final(self).frames@.last().bbidx == bb,
            final(self).frames@.last().body == old(self).frames@.last().body,
            final(self).frames@.last().mem == old(self).frames@.last().mem,
            final(self).frames@.drop_last() == old(self).frames@.drop_last(),
    {
        let ghost pre = self.frames@;
        let mut frame = self.frames.pop().unwrap();
        frame.bbidx = bb;
        self.frames.push(frame);
        proof {
            assert(self.frames@.drop_last() =~= pre.drop_last());
            assert forall|i: int| 0 <= i < self.frames@.len() implies (
            #[trigger] self.frames@[i]).body < self.sir.bodies@.len() by {
                if i < pre.len() - 1 {
                    assert(self.frames@[i] == pre[i]);
                }
            }
        }
    }

    /// The interpreter with the memory `m` in place of its own.
    pub open spec fn with_mem(&self, m: Memory) -> Self {
        StopgapInterpreter { frames: self.frames, mem: m, sir: self.sir }
    }

    /// The memories `ms` are those that the interpretation of the
    /// statements `stmts` goes through, from the memory of the interpreter
    /// on: each is the one before it after one more statement.
    pub open spec fn stmts_done(&self, ms: Seq<Memory>, stmts: Seq<Statement>) -> bool {
        &&& ms.len() == stmts.len() + 1
        &&& ms[0] == self.mem
        &&& forall|k: int|
            0 <= k < stmts.len() ==> self.with_mem(#[trigger] ms[k]).stmt_done(
                &ms[k + 1],
                stmts[k],
            )
    }

    /// `n` is the interpreter after the block that the frame that executes
    /// is in: after its statements, one after the other, and then its
    /// terminator.
    pub open spec fn block_done(&self, n: &Self) -> bool {
        &&& self.frames@.len() > 0
        &&& self.frames@.last().bbidx < self.sir.bodies@[self.frames@.last().body as int].blocks@.len()
        &&& exists|ms: Seq<Memory>|
            {
                &&& #[trigger] self.stmts_done(ms, self.spec_block().stmts@)
                &&& self.with_mem(ms.last()).term_done(n, self.spec_block().term)
            }
    }

    /// The block that the frame that executes is in.
    pub open spec fn spec_block(&self) -> crate::sir::BasicBlock {
        self.sir.bodies@[self.frames@.last().body as int].blocks@[self.frames@.last().bbidx as int]
    }

    /// The interpreters `ss` are the states of a run: each is the one
    /// before it after one more block.
    pub open spec fn ran(ss: Seq<Self>) -> bool {
        forall|k: int| 0 <= k < ss.len() - 1 ==> (#[trigger] ss[k]).block_done(&ss[k + 1])
    }

    /// `n` is the interpreter after a run of `max_blocks` blocks at most,
    /// which ends where no frame is left, and is cut short only by the
    /// number of blocks.
    pub open spec fn ran_to(&self, n: &Self, max_blocks: usize) -> bool {
        exists|ss: Seq<Self>|
            {
                &&& #[trigger] Self::ran(ss)
                &&& 1 <= ss.len() <= max_blocks + 1
                &&& ss[0] == *self
                &&& ss.last() == *n
                &&& n.frames@.len() > 0 ==> ss.len() == max_blocks + 1
            }
    }

    /// Interpret the block that the frame that executes is in: its
    /// statements, and then its terminator.
    pub fn step(&mut self) -> (r: Result<(), InterpError>)
        requires
            old(self).wf(),
        ensures
            final(self).wf(),
            final(self).sir == old(self).sir,
            r is Ok ==> old(self).block_done(final(self)),
            r matches Err(e) ==> old(self).block_fails(e),
    {
        if self.frames.len() == 0 {
            return Err(InterpError::Malformed);
        }
        let sir = self.sir;
        let last = self.frames.len() - 1;
        let body = self.frames[last].body;
        let bbidx = self.frames[last].bbidx as usize;
        if bbidx >= sir.bodies[body].blocks.len() {
            return Err(InterpError::Malformed);
        }
        let block = &sir.bodies[body].blocks[bbidx];
        let ghost ms: Seq<Memory> = seq![self.mem];
        let mut i: usize = 0;
        while i < block.stmts.len()
            invariant
                i <= block.stmts@.len(),
                self.wf(),
                self.sir == sir,
                sir == old(self).sir,
                self.frames == old(self).frames,
                *block == old(self).spec_block(),
                old(self).frames@.len() > 0,
                old(self).frames@.last().bbidx < sir.bodies@[old(self).frames@.last().body as int].blocks@.len(),
                ms.len() == i + 1,
                ms[0] == old(self).mem,
                ms[i as int] == self.mem,
                forall|k: int|
                    0 <= k < i ==> old(self).with_mem(#[trigger] ms[k]).stmt_done(
                        &ms[k + 1],
                        block.stmts@[k],
                    ),
            decreases block.stmts@.len() - i,
        {
            let ghost pre = *self;
            match self.statement(&block.stmts[i]) {
                Ok(()) => {},
                Err(e) => {
                    proof {
                        assert(pre == old(self).with_mem(ms[i as int]));
                        assert(ms.last() == ms[i as int]);
                        assert(ms.len() - 1 == i);
                        assert(!pre.can_stmt(block.stmts@[i as int]) || block.stmts@[i as int] is BinaryOp);
                        assert(block.stmts@[i as int] is BinaryOp || e == pre.stmt_err(block.stmts@[i as int]));
                        assert(old(self).stmts_short(ms, e));
                    }
                    return Err(e);
                },
            }
            proof {
                assert(pre == old(self).with_mem(ms[i as int]));
                let ghost before = ms;
                ms = ms.push(self.mem);
                assert forall|k: int| 0 <= k < i + 1 implies old(self).with_mem(
                    #[trigger] ms[k],
                ).stmt_done(&ms[k + 1], block.stmts@[k]) by {
                    if k < i {
                        assert(ms[k] == before[k] && ms[k + 1] == before[k + 1]);
                    }
                }
            }
            i = i + 1;
        }
        let ghost pre = *self;
        match self.terminator(&block.term) {
            Ok(()) => {},
            Err(e) => {
                proof {
                    assert(pre == old(self).with_mem(ms.last()));
                    assert(old(self).stmts_short(ms, e));
                }
                return Err(e);
            },
        }
        proof {
            assert(pre == old(self).with_mem(ms.last()));
            assert(old(self).stmts_done(ms, block.stmts@));
        }
        Ok(())
    }

    /// The memories `ms` are those that the interpretation of the block
    /// that the frame that executes is in goes through, one statement
    /// after the other, up to the point at which it fails: at a statement
    /// that cannot be interpreted, or, after the last statement, at the
    /// terminator.
    pub open spec fn stmts_short(&self, ms: Seq<Memory>, e: InterpError) -> bool {
        let block = self.spec_block();
        &&& 1 <= ms.len() <= block.stmts@.len() + 1
        &&& ms[0] == self.mem
        &&& forall|k: int|
            0 <= k < ms.len() - 1 ==> self.with_mem(#[trigger] ms[k]).stmt_done(
                &ms[k + 1],
                block.stmts@[k],
            )
        &&& if ms.len() <= block.stmts@.len() {
            !self.with_mem(ms.last()).can_stmt(block.stmts@[ms.len() - 1]) && e == self.with_mem(
                ms.last(),
            ).stmt_err(block.stmts@[ms.len() - 1])
        } else {
            self.with_mem(ms.last()).term_fails(block.term, e)
        }
    }

    /// Does the interpretation of the block that the frame that executes
    /// is in fail: is there no frame or no such block, or does a statement
    /// or the terminator fail?
    pub open spec fn block_fails(&self, e: InterpError) -> bool {
        if self.frames@.len() == 0 || self.frames@.last().bbidx
            >= self.sir.bodies@[self.frames@.last().body as int].blocks@.len() {
            e == InterpError::Malformed
        } else {
            exists|ms: Seq<Memory>| self.stmts_short(ms, e)
        }
    }

    /// Does a run of `max_blocks` blocks at most fail with the error `e`:
    /// does it get, block after block, to a block whose interpretation
    /// fails so?
    pub open spec fn run_fails(&self, max_blocks: usize, e: InterpError) -> bool {
        exists|ss: Seq<Self>|
            {
                &&& #[trigger] Self::ran(ss)
                &&& 1 <= ss.len() <= max_blocks
                &&& ss[0] == *self
                &&& ss.last().block_fails(e)
            }
    }

    /// Interpret, block after block, until the outermost frame has
    /// returned, and the control point is reached, or until `max_blocks`
    /// blocks have been interpreted. Returns whether the control point has
    /// been reached.
    pub fn interpret(&mut self, max_blocks: usize) -> (r: Result<bool, InterpError>)
        requires
            old(self).wf(),
        ensures
            final(self).wf(),
            final(self).sir == old(self).sir,
            match r {
                Ok(done) => done == (final(self).frames@.len() == 0) && old(self).ran_to(
                    final(self),
                    max_blocks,
                ),
                Err(e) => old(self).run_fails(max_blocks, e),
            },
    {
        let mut left = max_blocks;
        let ghost ss: Seq<Self> = seq![*self];
        while self.frames.len() > 0 && left > 0
            invariant
                self.wf(),
                self.sir == old(self).sir,
                left <= max_blocks,
                ss.len() == max_blocks - left + 1,
                ss[0] == *old(self),
                ss.last() == *self,
                Self::ran(ss),
            decreases left,
        {
            left = left - 1;
            let ghost pre = *self;
            match self.step() {
                Ok(()) => {},
                Err(e) => {
                    proof {
                        assert(ss.last() == pre);
                        assert(pre.block_fails(e));
                    }
                    return Err(e);
                },
            }
            proof {
                let ghost before = ss;
                ss = ss.push(*self);
                assert forall|k: int| 0 <= k < ss.len() - 1 implies (#[trigger] ss[k]).block_done(
                    &ss[k + 1],
                ) by {
                    if k < before.len() - 1 {
                        assert(ss[k] == before[k] && ss[k + 1] == before[k + 1]);
                        assert(before[k].block_done(&before[k + 1]));
                    } else {
                        assert(ss[k] == pre);
                    }
                }
            }
        }
        proof {
            assert(Self::ran(ss));
        }
        Ok(self.frames.len() == 0)
    }
}

/// A copy of the offsets `v`.
pub fn copy_offsets(v: &Vec<usize>) -> (r: Vec<usize>)
    ensures
        r@ == v@,
{
    let mut r: Vec<usize> = Vec::new();
    let mut i: usize = 0;
    while i < v.len()
        invariant
            i <= v@.len(),
            r@ == v@.subrange(0, i as int),
        decreases v@.len() - i,
    {
        r.push(v[i]);
        proof {
            assert(r@ =~= v@.subrange(0, i + 1));
        }
        i = i + 1;
    }
    proof {
        assert(v@.subrange(0, v@.len() as int) =~= v@);
    }
    r
}

} // verus!
