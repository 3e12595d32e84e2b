//! Decoding through foreign code, and the iterator's entry points.
//!
//! Code that the compiler has not described has to be disassembled: the
//! decoder follows its instructions one by one, takes a decision from the
//! packets at each conditional branch and an address at each indirect one,
//! until it is back in a block that the compiler has described.

use crate::block::Block;
use crate::ykpt::decode::{
    BlockIteratorError, CompRetAddr, HWTracerError, IteratorError, ObjLoc, YkPTBlockIterator,
};
use vstd::prelude::*;

verus! {

broadcast use vstd::std_specs::vecdeque::axiom_spec_len;

/// What the decoder reads off a disassembled instruction. The numbers are
/// `iced_x86`'s: of its `FlowControl`, `OpKind` and `Code`.
#[derive(Debug, Clone, Copy, PartialEq, Eq, Structural)]
pub struct DecodedInst {
    /// How the instruction passes control on.
    pub flow: u32,
    /// The address of the instruction after this one.
    pub next_ip: u64,
    /// The target of a near branch; 0 for any other instruction.
    pub near_target: u64,
    /// The kind of the instruction's first operand.
    pub op0_kind: u32,
    /// Which instruction it is.
    pub code: u16,
}

/// How an instruction passes control on.
#[derive(Debug, Clone, Copy, PartialEq, Eq, Structural)]
pub enum FlowKind {
    /// To the next instruction.
    Next,
    /// To the branch target.
    UnconditionalBranch,
    /// To an address that is computed.
    IndirectBranch,
    /// To the branch target or to the next instruction.
    ConditionalBranch,
    /// Back to the caller.
    Return,
    /// To the callee that the instruction names.
    Call,
    /// To a callee that is computed.
    IndirectCall,
    /// To an interrupt handler.
    Interrupt,
    /// A transaction begins, ends or is aborted.
    XbeginXabortXend,
    /// The bytes are no instruction.
    Exception,
}

/// The first operand is a near branch target of 16, 32 or 64 bits.
pub const OP_NEAR_BRANCH16: u32 = 1;

pub const OP_NEAR_BRANCH32: u32 = 2;

pub const OP_NEAR_BRANCH64: u32 = 3;

/// The first operand is a far branch target of 16 or 32 bits.
pub const OP_FAR_BRANCH16: u32 = 4;

pub const OP_FAR_BRANCH32: u32 = 5;

/// The `syscall` instruction.
pub const CODE_SYSCALL: u16 = 870;

impl FlowKind {
    /// The way of passing control on that `iced_x86` numbers `n`.
    pub open spec fn spec_from_code(n: u32) -> Option<FlowKind> {
        if n == 0 {
            Some(FlowKind::Next)
        } else if n == 1 {
            Some(FlowKind::UnconditionalBranch)
        } else if n == 2 {
            Some(FlowKind::IndirectBranch)
        } else if n == 3 {
            Some(FlowKind::ConditionalBranch)
        } else if n == 4 {
            Some(FlowKind::Return)
        } else if n == 5 {
            Some(FlowKind::Call)
        } else if n == 6 {
            Some(FlowKind::IndirectCall)
        } else if n == 7 {
            Some(FlowKind::Interrupt)
        } else if n == 8 {
            Some(FlowKind::XbeginXabortXend)
        } else if n == 9 {
            Some(FlowKind::Exception)
        } else {
            None
        }
    }

    /// The way of passing control on that `iced_x86` numbers `n`.
    pub fn from_code(n: u32) -> (r: Option<FlowKind>)
        ensures
            r == Self::spec_from_code(n),
    {
        match n {
            0 => Some(FlowKind::Next),
            1 => Some(FlowKind::UnconditionalBranch),
            2 => Some(FlowKind::IndirectBranch),
            3 => Some(FlowKind::ConditionalBranch),
            4 => Some(FlowKind::Return),
            5 => Some(FlowKind::Call),
            6 => Some(FlowKind::IndirectCall),
            7 => Some(FlowKind::Interrupt),
            8 => Some(FlowKind::XbeginXabortXend),
            9 => Some(FlowKind::Exception),
            _ => None,
        }
    }
}

/// What `iced_x86` makes of the bytes of `code`, a segment that starts at
/// the address `base`, at the address `ip`.
pub uninterp spec fn decoded_at(code: Seq<u8>, base: u64, ip: u64) -> DecodedInst;

/// Disassemble the instruction at the address `ip` of the segment `code`,
/// which starts at the address `base`, with `iced_x86`: a 64 bit `Decoder`
/// is put at the instruction, and what `Instruction::flow_control`,
/// `next_ip`, `near_branch_target`, `op0_kind` and `code` say of the
/// instruction it decodes is handed back. The decoder reads nothing but the
/// bytes and the addresses.
#[verifier::external_body]
fn decode_at(code: &Vec<u8>, base: u64, ip: u64) -> (d: DecodedInst)
    requires
        base <= ip,
        ip - base <= code@.len(),
    ensures
        d == decoded_at(code@, base, ip),
{
    let mut dec = iced_x86::Decoder::with_ip(64, code, base, 0);
    dec.set_ip(ip);
    dec.set_position((ip - base) as usize).unwrap();
    let inst = dec.decode();
    DecodedInst {
        flow: inst.flow_control() as u32,
        next_ip: inst.next_ip(),
        near_target: inst.near_branch_target(),
        op0_kind: inst.op0_kind() as u32,
        code: inst.code() as u16,
    }
}

/// Is the return instruction `inst` a near return? `None` for an
/// instruction that is no return.
pub fn is_ret_near(inst: &DecodedInst) -> (r: Option<bool>)
    ensures
        r == if 391 <= inst.code <= 396 {
            Some(true)
        } else if 414 <= inst.code <= 419 {
            Some(false)
        } else {
            None::<bool>
        },
{
    if 391 <= inst.code && inst.code <= 396 {
        Some(true)
    } else if 414 <= inst.code && inst.code <= 419 {
        Some(false)
    } else {
        None
    }
}

/// The target of the near branch `inst`; `None` for a far branch and for an
/// instruction that is no branch.
pub open spec fn spec_branch_target(inst: DecodedInst) -> Option<u64> {
    if inst.op0_kind == OP_NEAR_BRANCH16 || inst.op0_kind == OP_NEAR_BRANCH32 || inst.op0_kind
        == OP_NEAR_BRANCH64 {
        Some(inst.near_target)
    } else {
        None
    }
}

impl<'t> YkPTBlockIterator<'t> {
    /// Returns the target virtual address of a branch instruction. Far
    /// branches are not followed.
    pub fn branch_target_vaddr(&self, inst: &DecodedInst) -> (r: Result<u64, IteratorError>)
        ensures
            match r {
                Ok(t) => spec_branch_target(*inst) == Some(t),
                Err(e) => e == IteratorError::HWTracerError(HWTracerError::Unrecoverable)
                    && spec_branch_target(*inst) is None,
            },
    {
        if inst.op0_kind == OP_NEAR_BRANCH16 || inst.op0_kind == OP_NEAR_BRANCH32 || inst.op0_kind
            == OP_NEAR_BRANCH64 {
            Ok(inst.near_target)
        } else {
            Err(IteratorError::HWTracerError(HWTracerError::Unrecoverable))
        }
    }

    /// Follow the instruction `inst`, which has been disassembled: find
    /// the address at which control goes on after it. An instruction that
    /// does not branch is followed by the next one, and a direct branch by
    /// its target. A conditional branch takes a decision from the packets,
    /// an indirect branch or call an address. A return goes where the stack
    /// of compressed returns says, if it is compressed, and where the
    /// packets say, if it is not. A call notes where it returns to, unless
    /// it is a call of the kernel, or a direct call of the instruction
    /// after it, whose return is not compressed.
    pub fn follow(&mut self, inst: &DecodedInst) -> (r: Result<usize, IteratorError>)
        requires
            old(self).wf(),
        ensures
            final(self).later_than(old(self)),
            match r {
                Ok(_) => true,
                Err(e) => final(self).ended_by(e),
            },
            final(self).agrees(r, old(self).env().followed(old(self).state(), *inst)),
    {
        let flow = match FlowKind::from_code(inst.flow) {
            Some(f) => f,
            None => {
                return Err(IteratorError::HWTracerError(HWTracerError::Unrecoverable));
            },
        };
        let next: u64 = match flow {
            FlowKind::Next => inst.next_ip,
            FlowKind::Return => {
                let compressed = match self.is_return_compressed() {
                    Ok(c) => c,
                    Err(e) => {
                        return Err(e);
                    },
                };
                let ret_vaddr = if compressed {
                    match self.comprets.pop() {
                        Some(CompRetAddr::VAddr(v)) => v,
                        Some(CompRetAddr::AfterCall(v)) => v.wrapping_add(1),
                        None => {
                            return Err(IteratorError::HWTracerError(HWTracerError::Unrecoverable));
                        },
                    }
                } else {
                    match self.cur_loc {
                        ObjLoc::OtherObjOrUnknown(None) => {
                            return Err(IteratorError::HWTracerError(HWTracerError::Unrecoverable));
                        },
                        l => l.vaddr(),
                    }
                };
                ret_vaddr as u64
            },
            FlowKind::IndirectBranch | FlowKind::IndirectCall => {
                match self.seek_tip() {
                    Ok(()) => {},
                    Err(e) => {
                        return Err(e);
                    },
                }
                let target = match self.cur_loc {
                    ObjLoc::OtherObjOrUnknown(None) => {
                        return Err(IteratorError::HWTracerError(HWTracerError::Unrecoverable));
                    },
                    l => l.vaddr(),
                };
                if flow == FlowKind::IndirectCall {
                    // Indirect calls are always compressed.
                    if inst.next_ip as usize as u64 != inst.next_ip {
                        return Err(IteratorError::NoSuchVAddr);
                    }
                    self.comprets.push(CompRetAddr::VAddr(inst.next_ip as usize));
                }
                target as u64
            },
            FlowKind::ConditionalBranch => {
                if self.tnts.len() == 0 {
                    match self.seek_tnt() {
                        Ok(()) => {},
                        Err(e) => {
                            return Err(e);
                        },
                    }
                }
                if self.tnts.pop_front().unwrap() {
                    match self.branch_target_vaddr(inst) {
                        Ok(t) => t,
                        Err(e) => {
                            return Err(e);
                        },
                    }
                } else {
                    inst.next_ip
                }
            },
            FlowKind::UnconditionalBranch => {
                match self.branch_target_vaddr(inst) {
                    Ok(t) => t,
                    Err(e) => {
                        return Err(e);
                    },
                }
            },
            FlowKind::Call => {
                if inst.code == CODE_SYSCALL {
                    // The kernel is not traced: entering and leaving it
                    // shows in the packets, and is dealt with there.
                    inst.next_ip
                } else {
                    let target = match self.branch_target_vaddr(inst) {
                        Ok(t) => t,
                        Err(e) => {
                            return Err(e);
                        },
                    };
                    // A direct call of the next instruction is not compressed.
                    if target != inst.next_ip {
                        if inst.next_ip as usize as u64 != inst.next_ip {
                            return Err(IteratorError::NoSuchVAddr);
                        }
                        self.comprets.push(CompRetAddr::VAddr(inst.next_ip as usize));
                    }
                    target
                }
            },
            FlowKind::Interrupt | FlowKind::XbeginXabortXend | FlowKind::Exception => {
                return Err(IteratorError::HWTracerError(HWTracerError::Unrecoverable));
            },
        };
        if next as usize as u64 != next {
            return Err(IteratorError::NoSuchVAddr);
        }
        Ok(next as usize)
    }

    /// Disassemble from `start_vaddr` on until decoding is back in a block
    /// of the main object that the compiler has described, and return that
    /// block. At most `max_foreign_insts` instructions are followed.
    pub fn disassemble(&mut self, start_vaddr: usize) -> (r: Result<Block, IteratorError>)
        requires
            old(self).wf(),
        ensures
            final(self).later_than(old(self)),
            match r {
                Ok(b) => {
                    &&& !(b is Unknown)
                    &&& final(self).cur_loc matches ObjLoc::MainObj(v) && b
                        == final(self).blockmap.spec_block(v) && final(self).objs.spec_is_main(v)
                        == Some(true)
                },
                Err(e) => final(self).ended_by(e),
            },
            final(self).agrees(
                r,
                old(self).env().disassembled(
                    old(self).state(),
                    start_vaddr,
                    old(self).max_foreign_insts as nat,
                ),
            ),
    {
        let mut vaddr = start_vaddr;
        let mut fuel = self.max_foreign_insts;
        let ghost whole = self.env().disassembled(
            self.state(),
            start_vaddr,
            self.max_foreign_insts as nat,
        );
        while fuel > 0
            invariant
                self.later_than(old(self)),
                whole == old(self).env().disassembled(
                    old(self).state(),
                    start_vaddr,
                    old(self).max_foreign_insts as nat,
                ),
                whole is Some ==> whole == old(self).env().disassembled(
                    self.state(),
                    vaddr,
                    fuel as nat,
                ),
            decreases fuel,
        {
            fuel = fuel - 1;
            match self.objs.is_main(vaddr) {
                Some(true) => {
                    let block = match self.lookup_block_by_vaddr(vaddr) {
                        Ok(b) => b,
                        Err(e) => {
                            return Err(e);
                        },
                    };
                    if !block.is_unknown() {
                        // Back in code that the compiler has described.
                        self.cur_loc = ObjLoc::MainObj(vaddr);
                        return Ok(block);
                    }
                },
                Some(false) => {},
                None => {
                    return Err(IteratorError::NoSuchVAddr);
                },
            }
            let seg = match self.segs.seg(vaddr) {
                Some(i) => i,
                None => {
                    return Err(IteratorError::NoSuchVAddr);
                },
            };
            let (seg_start, _) = self.segs.map.range(seg);
            if vaddr as u64 as usize != vaddr || seg_start as u64 as usize != seg_start {
                return Err(IteratorError::NoSuchVAddr);
            }
            let inst = decode_at(&self.segs.bytes[seg], seg_start as u64, vaddr as u64);
            vaddr = match self.follow(&inst) {
                Ok(v) => v,
                Err(e) => {
                    return Err(e);
                },
            };
        }
        Err(IteratorError::HWTracerError(HWTracerError::Unrecoverable))
    }

    /// Skip over foreign code, for which there is no description: from
    /// `start_vaddr` on, or, if that is not known, from the address that the
    /// next packet with a target address gives.
    pub fn skip_foreign(&mut self, start_vaddr: Option<usize>) -> (r: Result<Block, IteratorError>)
        requires
            old(self).wf(),
        ensures
            final(self).later_than(old(self)),
            match r {
                Ok(b) => {
                    &&& !(b is Unknown)
                    &&& final(self).cur_loc matches ObjLoc::MainObj(v) && b
                        == final(self).blockmap.spec_block(v)
                },
                Err(e) => final(self).ended_by(e),
            },
            final(self).agrees(r, old(self).env().skipped(old(self).state(), start_vaddr)),
    {
        let start_vaddr = match start_vaddr {
            Some(v) => v,
            None => {
                match self.seek_tip() {
                    Ok(()) => {},
                    Err(e) => {
                        return Err(e);
                    },
                }
                match self.cur_loc {
                    ObjLoc::OtherObjOrUnknown(Some(vaddr)) => vaddr,
                    ObjLoc::OtherObjOrUnknown(None) => {
                        return Err(IteratorError::HWTracerError(HWTracerError::Unrecoverable));
                    },
                    ObjLoc::MainObj(vaddr) => {
                        // The packet may have led straight back into code
                        // that the compiler has described.
                        let block = match self.lookup_block_by_vaddr(vaddr) {
                            Ok(b) => b,
                            Err(e) => {
                                return Err(e);
                            },
                        };
                        if !block.is_unknown() {
                            return Ok(block);
                        }
                        vaddr
                    },
                }
            },
        };
        self.disassemble(start_vaddr)
    }

    /// Decode up to the next block and return it.
    pub fn do_next(&mut self) -> (r: Result<Block, IteratorError>)
        requires
            old(self).wf(),
        ensures
            final(self).later_than(old(self)),
            match r {
                Ok(b) => final(self).at_block(b),
                Err(e) => final(self).ended_by(e),
            },
            final(self).agrees(r, old(self).env().stepped(old(self).state())),
    {
        match self.cur_loc {
            ObjLoc::MainObj(vaddr) => {
                match self.lookup_blockmap_entry(vaddr) {
                    Some(ent) => {
                        // Calls in the block that come after the current
                        // position are followed before the successor is.
                        match self.maybe_follow_blockmap_call(vaddr, ent) {
                            Ok(Some(blk)) => Ok(blk),
                            Ok(None) => self.follow_blockmap_successor(ent),
                            Err(e) => Err(e),
                        }
                    },
                    None => {
                        self.cur_loc = ObjLoc::OtherObjOrUnknown(Some(vaddr));
                        Ok(Block::Unknown)
                    },
                }
            },
            ObjLoc::OtherObjOrUnknown(vaddr) => self.skip_foreign(vaddr),
        }
    }

    /// The next block of the trace; `None` at the end of the trace.
    pub fn next(&mut self) -> (r: Option<Result<Block, BlockIteratorError>>)
        requires
            old(self).wf(),
        ensures
            final(self).later_than(old(self)),
            r matches Some(Ok(b)) ==> final(self).at_block(b),
            r is None ==> final(self).pos == final(self).packets@.len(),
            exists|res: Result<Block, IteratorError>|
                #![trigger spec_map_next(res)]
                r == spec_map_next(res) && final(self).agrees(
                    res,
                    old(self).env().stepped(old(self).state()),
                ),
    {
        let r = self.do_next();
        map_next(r)
    }
}

/// What the iterator hands out for what decoding has come to: the end of the
/// packets is the end of the trace, anything else is passed on.
pub open spec fn spec_map_next(r: Result<Block, IteratorError>) -> Option<
    Result<Block, BlockIteratorError>,
> {
    match r {
        Ok(b) => Some(Ok(b)),
        Err(IteratorError::NoMorePackets) => None,
        Err(IteratorError::NoSuchVAddr) => Some(Err(BlockIteratorError::NoSuchVAddr)),
        Err(IteratorError::HWTracerError(e)) => Some(Err(BlockIteratorError::HWTracerError(e))),
    }
}

/// What the iterator hands out for what decoding has come to: the end of the
/// packets is the end of the trace, anything else is passed on.
pub fn map_next(r: Result<Block, IteratorError>) -> (o: Option<Result<Block, BlockIteratorError>>)
    ensures
        o == spec_map_next(r),
{
    match r {
        Ok(b) => Some(Ok(b)),
        Err(IteratorError::NoMorePackets) => None,
        Err(IteratorError::NoSuchVAddr) => Some(Err(BlockIteratorError::NoSuchVAddr)),
        Err(IteratorError::HWTracerError(e)) => Some(Err(BlockIteratorError::HWTracerError(e))),
    }
}

} // verus!
