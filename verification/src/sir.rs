//! The serialised intermediate representation of the host program: the
//! bodies of its functions, as basic blocks over places in the memory of a
//! frame, and the layout of its types.

use vstd::prelude::*;

verus! {

/// The identifier of a type: the hash of a crate and an index into the
/// types of the crate.
#[derive(Debug, Clone, Copy, PartialEq, Eq, Structural)]
pub struct TypeId {
    pub cgu: u64,
    pub idx: u32,
}

pub type BasicBlockIndex = u32;

/// A local variable of a body.
#[derive(Debug, Clone, Copy, PartialEq, Eq, Structural)]
pub struct Local(pub u32);

/// The number of the local variable that holds the value that a body
/// returns.
pub const RETURN_LOCAL: u32 = 0;

/// The number of the local variable that holds the argument of the
/// interpreter's step function: a pointer to the interpreter's context.
pub const INTERP_STEP_ARG: u32 = 1;

/// Flags of a body.
pub const BODY_INTERP_STEP: u8 = 1;

pub const BODY_DO_NOT_TRACE: u8 = 2;

/// A pointer that is held in a local variable, `off` bytes into it.
#[derive(Debug, Clone, Copy, PartialEq, Eq, Structural)]
pub struct Ptr {
    pub local: Local,
    pub off: i32,
}

#[derive(Debug, Clone, Copy, PartialEq, Eq, Structural)]
pub enum UnsignedIntTy {
    Usize,
    U8,
    U16,
    U32,
    U64,
    U128,
}

#[derive(Debug, Clone, Copy, PartialEq, Eq, Structural)]
pub enum SignedIntTy {
    Isize,
    I8,
    I16,
    I32,
    I64,
    I128,
}

/// An unsigned integer constant.
#[derive(Debug, Clone, Copy, PartialEq, Eq, Structural)]
pub enum UnsignedInt {
    Usize(usize),
    U8(u8),
    U16(u16),
    U32(u32),
    U64(u64),
    U128(u128),
}

/// A signed integer constant.
#[derive(Debug, Clone, Copy, PartialEq, Eq, Structural)]
pub enum SignedInt {
    Isize(isize),
    I8(i8),
    I16(i16),
    I32(i32),
    I64(i64),
    I128(i128),
}

#[derive(Debug, Clone, Copy, PartialEq, Eq, Structural)]
pub enum ConstantInt {
    UnsignedInt(UnsignedInt),
    SignedInt(SignedInt),
}

/// A constant.
#[derive(Debug, Clone, Copy, PartialEq, Eq, Structural)]
pub enum Constant {
    Int(ConstantInt),
    Bool(bool),
    /// A tuple of the given type, which has no bytes.
    Tuple(TypeId),
    Unimplemented,
}

/// A place: where a value is read from or written to.
#[allow(inconsistent_fields)]
#[derive(Debug, Clone, Copy, PartialEq, Eq, Structural)]
pub enum IRPlace {
    /// The value `off` bytes into a local variable.
    Val { local: Local, off: u32, ty: TypeId },
    /// The value `off` bytes from where a pointer points.
    Indirect { ptr: Ptr, off: i32, ty: TypeId },
    /// A constant.
    Const { val: Constant, ty: TypeId },
    Unimplemented,
}

impl IRPlace {
    pub open spec fn spec_ty(self) -> Option<TypeId> {
        match self {
            IRPlace::Val { ty, .. } => Some(ty),
            IRPlace::Indirect { ty, .. } => Some(ty),
            IRPlace::Const { ty, .. } => Some(ty),
            IRPlace::Unimplemented => None,
        }
    }

    /// The type of the value at the place.
    pub fn ty(&self) -> (r: Option<TypeId>)
        ensures
            r == self.spec_ty(),
    {
        match self {
            IRPlace::Val { ty, .. } => Some(*ty),
            IRPlace::Indirect { ty, .. } => Some(*ty),
            IRPlace::Const { ty, .. } => Some(*ty),
            IRPlace::Unimplemented => None,
        }
    }
}

/// A binary operation.
#[derive(Debug, Clone, Copy, PartialEq, Eq, Structural)]
pub enum BinOp {
    Add,
    Sub,
    Mul,
    Div,
    Rem,
    BitXor,
    BitAnd,
    BitOr,
    Shl,
    Shr,
    Eq,
    Lt,
    Le,
    Ne,
    Ge,
    Gt,
    Offset,
}

/// What a call calls.
#[derive(Debug, PartialEq, Eq)]
pub enum CallOperand {
    /// The function of the given symbol name.
    Fn(String),
    Unknown,
}

impl CallOperand {
    /// The symbol name of the function that is called, if it is known.
    pub fn symbol(&self) -> (r: Option<&String>)
        ensures
            match *self {
                CallOperand::Fn(s) => r == Some(&s),
                CallOperand::Unknown => r is None,
            },
    {
        match self {
            CallOperand::Fn(s) => Some(s),
            CallOperand::Unknown => None,
        }
    }

    /// A copy of the operand.
    pub fn duplicate(&self) -> (r: Self)
        ensures
            match (*self, r) {
                (CallOperand::Fn(a), CallOperand::Fn(b)) => a@ == b@,
                (CallOperand::Unknown, CallOperand::Unknown) => true,
                _ => false,
            },
    {
        match self {
            CallOperand::Fn(s) => CallOperand::Fn(s.clone()),
            CallOperand::Unknown => CallOperand::Unknown,
        }
    }
}

/// A statement. The last four kinds only occur in traces: calls that are
/// not inlined, the entry to and the exit from an inlined call, and the
/// death of a local variable.
#[derive(Debug)]
pub enum Statement {
    Nop,
    /// Store a reference to the second place in the first.
    MkRef(IRPlace, IRPlace),
    /// Store the value of the second place in the first.
    Store(IRPlace, IRPlace),
    /// Store the result of a binary operation in `dest`; with `checked`,
    /// followed by a byte that says whether the operation has overflowed.
    BinaryOp { dest: IRPlace, op: BinOp, opnd1: IRPlace, opnd2: IRPlace, checked: bool },
    DynOffs,
    Cast,
    StorageLive(Local),
    StorageDead(Local),
    Debug(String),
    Unimplemented,
    Call(CallOperand, Vec<IRPlace>, Option<IRPlace>),
    Enter(CallOperand, Vec<IRPlace>, Option<IRPlace>, u32),
    Leave,
}

/// The terminator of a basic block.
#[derive(Debug)]
pub enum Terminator {
    Goto(BasicBlockIndex),
    /// Go to the block of `target_bbs` that belongs to the value of `discr`
    /// among `values`, or else to `otherwise_bb`.
    SwitchInt {
        discr: IRPlace,
        values: Vec<u128>,
        target_bbs: Vec<BasicBlockIndex>,
        otherwise_bb: BasicBlockIndex,
    },
    Return,
    /// Call `operand` with `args`; the result goes to the place of
    /// `destination`, and control to its block.
    Call { operand: CallOperand, args: Vec<IRPlace>, destination: Option<(IRPlace, BasicBlockIndex)> },
    /// Go to `target_bb` if `cond` is as `expected`.
    Assert { cond: IRPlace, expected: bool, target_bb: BasicBlockIndex },
    Unreachable,
    Drop { target_bb: BasicBlockIndex },
    DropAndReplace { target_bb: BasicBlockIndex },
    Unimplemented,
}

#[derive(Debug)]
pub struct BasicBlock {
    pub stmts: Vec<Statement>,
    pub term: Terminator,
}

/// What is known of a local variable.
#[derive(Debug, Clone, Copy, PartialEq, Eq, Structural)]
pub struct LocalDecl {
    pub ty: TypeId,
    /// Is a reference to the variable taken anywhere?
    pub referenced: bool,
}

/// The body of a function.
#[derive(Debug)]
pub struct Body {
    pub symbol_name: String,
    pub blocks: Vec<BasicBlock>,
    pub flags: u8,
    pub local_decls: Vec<LocalDecl>,
    /// The size and the alignment of the memory that holds the local
    /// variables.
    pub layout: (usize, usize),
    /// For each local variable, where in that memory it is.
    pub offsets: Vec<usize>,
}

/// The offsets and the types of the fields of a tuple or a struct.
#[derive(Debug)]
pub struct Fields {
    pub offsets: Vec<u64>,
    pub tys: Vec<TypeId>,
}

/// What kind of type a type is.
#[derive(Debug)]
pub enum TyKind {
    UnsignedInt(UnsignedIntTy),
    SignedInt(SignedIntTy),
    Bool,
    Tuple(Fields),
    Struct(Fields),
    Array(TypeId),
    Slice(TypeId),
    Ref(TypeId),
    Unimplemented,
}

/// A type: its layout and its kind.
#[derive(Debug)]
pub struct Ty {
    pub size: u64,
    pub align: u64,
    pub kind: TyKind,
}

impl Ty {
    /// Is this an integer type?
    pub fn is_int(&self) -> (r: bool)
        ensures
            r == (self.kind is UnsignedInt || self.kind is SignedInt),
    {
        match self.kind {
            TyKind::UnsignedInt(_) | TyKind::SignedInt(_) => true,
            _ => false,
        }
    }
}

/// The representation of a program.
#[derive(Debug)]
pub struct Sir {
    pub bodies: Vec<Body>,
    /// The types, each with its identifier.
    pub types: Vec<(TypeId, Ty)>,
}

impl Sir {
    /// The first body of index `from` or more with the symbol name `sym`.
    pub open spec fn spec_body(&self, sym: Seq<char>, from: int) -> Option<usize>
        decreases self.bodies@.len() - from,
    {
        if from < 0 || from >= self.bodies@.len() {
            None
        } else if self.bodies@[from].symbol_name@ == sym {
            Some(from as usize)
        } else {
            self.spec_body(sym, from + 1)
        }
    }

    /// The first type of index `from` or more with the identifier `id`.
    pub open spec fn spec_ty(&self, id: TypeId, from: int) -> Option<usize>
        decreases self.types@.len() - from,
    {
        if from < 0 || from >= self.types@.len() {
            None
        } else if self.types@[from].0 == id {
            Some(from as usize)
        } else {
            self.spec_ty(id, from + 1)
        }
    }

    /// Find the body of the function with the symbol name `sym`.
    pub fn body(&self, sym: &String) -> (r: Option<usize>)
        ensures
            r == self.spec_body(sym@, 0),
            match r {
                Some(i) => i < self.bodies@.len(),
                None => true,
            },
    {
        let mut i: usize = 0;
        while i < self.bodies.len()
            invariant
                i <= self.bodies@.len(),
                self.spec_body(sym@, 0) == self.spec_body(sym@, i as int),
            decreases self.bodies@.len() - i,
        {
            if self.bodies[i].symbol_name == *sym {
                return Some(i);
            }
            i = i + 1;
        }
        None
    }

    /// Find the type with the identifier `id`.
    pub fn ty(&self, id: &TypeId) -> (r: Option<usize>)
        ensures
            r == self.spec_ty(*id, 0),
            match r {
                Some(i) => i < self.types@.len() && self.types@[i as int].0 == *id,
                None => true,
            },
    {
        let mut i: usize = 0;
        while i < self.types.len()
            invariant
                i <= self.types@.len(),
                self.spec_ty(*id, 0) == self.spec_ty(*id, i as int),
            decreases self.types@.len() - i,
        {
            if self.types[i].0 == *id {
                return Some(i);
            }
            i = i + 1;
        }
        None
    }

    /// The size in bytes of the type with the identifier `id`, if there is
    /// such a type and a machine word holds its size.
    pub fn size_of(&self, id: &TypeId) -> (r: Option<usize>)
        ensures
            r == match self.spec_ty(*id, 0) {
                Some(i) => if self.types@[i as int].1.size <= usize::MAX {
                    Some(self.types@[i as int].1.size as usize)
                } else {
                    None
                },
                None => None,
            },
    {
        match self.ty(id) {
            Some(i) => {
                let s = self.types[i].1.size;
                if s <= usize::MAX as u64 {
                    Some(s as usize)
                } else {
                    None
                }
            },
            None => None,
        }
    }
}

} // verus!
