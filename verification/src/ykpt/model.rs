//! What the decoder does, as functions of its state.
//!
//! Each step of the decoder is described here by a function from the state
//! before the step to the outcome of the step and the state after it.

use crate::block::Block;
use crate::ykpt::decode::{
    next_addr, pushed, ret_addr, CompRetAddr, HWTracerError, IteratorError, ObjLoc, Seek,
    TemporaryErrorKind, YkPTBlockIterator,
};
use crate::ykpt::foreign::{
    decoded_at, spec_branch_target, DecodedInst, FlowKind, CODE_SYSCALL,
};
use crate::ykpt::maps::{BlockMap, CodeSegs, ObjMap, SuccessorKind};
use crate::ykpt::packets::{Packet, PacketHead};
use vstd::prelude::*;

verus! {

/// What of a decoder changes as it decodes.
pub struct DecState {
    /// How many packets have been read.
    pub pos: int,
    /// The decisions that wait, oldest first.
    pub tnts: Seq<bool>,
    /// Where in the traced program decoding has got to.
    pub loc: ObjLoc,
    /// Does a mode packet wait for its address?
    pub um: bool,
    /// The stack of compressed returns.
    pub rets: Seq<CompRetAddr>,
}

impl DecState {
    /// The state with the first of the decisions that wait used up.
    pub open spec fn used_tnt(self) -> DecState {
        DecState { tnts: self.tnts.subrange(1, self.tnts.len() as int), ..self }
    }

    /// The state at the location `loc`.
    pub open spec fn at(self, loc: ObjLoc) -> DecState {
        DecState { loc, ..self }
    }

    /// The state with the stack of compressed returns `rets`.
    pub open spec fn with_rets(self, rets: Seq<CompRetAddr>) -> DecState {
        DecState { rets, ..self }
    }
}

/// The error of a trace that contradicts what the decoder takes for
/// granted.
pub open spec fn unrecoverable() -> IteratorError {
    IteratorError::HWTracerError(HWTracerError::Unrecoverable)
}

/// The error of a trace that was interrupted in a way that is not followed.
pub open spec fn interrupted() -> IteratorError {
    IteratorError::HWTracerError(HWTracerError::Temporary(TemporaryErrorKind::TraceInterrupted))
}

/// The address `v` as the outcome of a step, if it is an address.
pub open spec fn as_vaddr(v: u64, st: DecState) -> Option<(Result<usize, IteratorError>, DecState)> {
    if v <= usize::MAX {
        Some((Ok(v as usize), st))
    } else {
        Some((Err(IteratorError::NoSuchVAddr), st))
    }
}

/// What a decoder decodes, and with what: the packets, the tables, and what
/// is known of the processor. None of it changes as the decoder decodes.
pub struct Env<'t> {
    pub packets: &'t Vec<Packet>,
    pub blockmap: &'t BlockMap,
    pub objs: &'t ObjMap,
    pub segs: &'t CodeSegs,
    pub yktext: (usize, usize),
    pub compressed_returns: bool,
    pub max_foreign_insts: usize,
}

impl<'t> YkPTBlockIterator<'t> {
    /// The state of the decoder.
    pub open spec fn state(&self) -> DecState {
        DecState {
            pos: self.pos as int,
            tnts: self.tnts@,
            loc: self.cur_loc,
            um: self.unbound_modes,
            rets: self.comprets.rets@,
        }
    }

    /// What the decoder decodes, and with what.
    pub open spec fn env(&self) -> Env<'t> {
        Env {
            packets: self.packets,
            blockmap: self.blockmap,
            objs: self.objs,
            segs: self.segs,
            yktext: self.yktext,
            compressed_returns: self.compressed_returns,
            max_foreign_insts: self.max_foreign_insts,
        }
    }

    /// Has the step come to `r`, and left the decoder in the state that it
    /// should, where `m` says what the step comes to?
    pub open spec fn agrees<T>(
        &self,
        r: Result<T, IteratorError>,
        m: Option<(Result<T, IteratorError>, DecState)>,
    ) -> bool {
        match m {
            Some((res, st)) => r == res && self.state() == st,
            None => true,
        }
    }
}

impl<'t> Env<'t> {
    /// The location at the virtual address `vaddr`, if the address belongs
    /// to an object.
    pub open spec fn loc_of(&self, vaddr: usize) -> Option<ObjLoc> {
        match self.objs.spec_is_main(vaddr) {
            Some(true) => Some(ObjLoc::MainObj(vaddr)),
            Some(false) => Some(ObjLoc::OtherObjOrUnknown(Some(vaddr))),
            None => None,
        }
    }

    /// The first packet from the index `from` on that ends a
    /// synchronisation sequence.
    pub open spec fn psbend_from(&self, from: int) -> Option<int>
        decreases self.packets@.len() - from,
    {
        if from < 0 || from >= self.packets@.len() {
            None
        } else if self.packets@[from].kind is PSBEND {
            Some(from)
        } else {
            self.psbend_from(from + 1)
        }
    }

    /// What taking in the packet of index `i` comes to in the state `st`:
    /// the decisions of the packet join the queue, and its target address,
    /// if it has one, becomes the decoder's location. A mode packet waits
    /// for the packet with a target address that it belongs to. It is an
    /// error if the target address belongs to no object.
    pub open spec fn taken(&self, i: int, st: DecState) -> (Result<PacketHead, IteratorError>, DecState) {
        let p = self.packets@[i];
        let um = if p.kind.spec_is_mode() {
            true
        } else if p.kind.spec_encodes_target_ip() {
            false
        } else {
            st.um
        };
        let loc = match p.target_ip {
            Some(v) => self.loc_of(v),
            None => Some(st.loc),
        };
        match loc {
            Some(l) => (
                Ok(p.spec_head()),
                DecState { pos: i + 1, tnts: st.tnts + p.tnts@, loc: l, um, rets: st.rets },
            ),
            None => (Err(IteratorError::NoSuchVAddr), DecState { pos: i + 1, um, ..st }),
        }
    }

    /// What the packet of index `i`, which is neither lost nor an
    /// interruption, comes to in the state `st`. A packet that starts a
    /// synchronisation sequence resets the location and empties the stack
    /// of compressed returns; the sequence is skipped, and the packet after
    /// its end is taken in. It is an error if decisions wait at the start
    /// of the sequence, if the sequence does not end, or if another
    /// sequence starts right after it. Any other packet is taken in.
    pub open spec fn landed(&self, i: int, st: DecState) -> (Result<PacketHead, IteratorError>, DecState) {
        if self.packets@[i].kind is PSB {
            let s1 = DecState {
                pos: i + 1,
                loc: ObjLoc::OtherObjOrUnknown(None),
                rets: Seq::empty(),
                ..st
            };
            if st.tnts.len() != 0 {
                (Err(unrecoverable()), s1)
            } else {
                match self.psbend_from(i + 1) {
                    None => (Err(unrecoverable()), DecState { pos: self.packets@.len() as int, ..s1 }),
                    Some(e) => if e + 1 >= self.packets@.len() {
                        (
                            Err(IteratorError::NoMorePackets),
                            DecState { pos: self.packets@.len() as int, ..s1 },
                        )
                    } else if self.packets@[e + 1].kind is PSB {
                        (Err(unrecoverable()), DecState { pos: e + 2, ..s1 })
                    } else {
                        self.taken(e + 1, s1)
                    },
                }
            }
        } else {
            self.taken(i, st)
        }
    }

    /// What reading the next packet comes to in the state `st`. Lost
    /// packets end decoding. An interruption is passed over if tracing was
    /// switched off and on again around it, with nothing that matters in
    /// between, and ends decoding otherwise; the packet after it is then
    /// read in its place.
    pub open spec fn packet(&self, st: DecState) -> Option<
        (Result<PacketHead, IteratorError>, DecState),
    >
        decreases self.packets@.len() - st.pos, 0nat,
    {
        if st.pos < 0 {
            None
        } else if st.pos >= self.packets@.len() {
            Some((Err(IteratorError::NoMorePackets), st))
        } else {
            let p = self.packets@[st.pos];
            if p.kind is OVF {
                Some(
                    (
                        Err(
                            IteratorError::HWTracerError(
                                HWTracerError::Temporary(TemporaryErrorKind::TraceBufferOverflow),
                            ),
                        ),
                        DecState { pos: st.pos + 1, ..st },
                    ),
                )
            } else if p.kind is FUP && !st.um {
                match self.seek(
                    Seek::TntOrTip { skip_ooc: false, skip_pgd: false },
                    DecState { pos: st.pos + 1, ..st },
                ) {
                    Some((Ok(h1), s1)) => if !(h1.kind is TIPPGD) {
                        Some((Err(interrupted()), s1))
                    } else if s1.pos <= st.pos || s1.pos > self.packets@.len() {
                        None
                    } else {
                        match self.seek(Seek::TntOrTip { skip_ooc: true, skip_pgd: false }, s1) {
                            Some((Ok(h2), s2)) => if !(h2.kind is TIPPGE) {
                                Some((Err(interrupted()), s2))
                            } else if s2.pos < 0 {
                                None
                            } else if s2.pos >= self.packets@.len() {
                                Some((Err(IteratorError::NoMorePackets), s2))
                            } else {
                                Some(self.landed(s2.pos, s2))
                            },
                            Some((Err(e), s2)) => Some((Err(e), s2)),
                            None => None,
                        }
                    },
                    Some((Err(e), s1)) => Some((Err(e), s1)),
                    None => None,
                }
            } else {
                Some(self.landed(st.pos, st))
            }
        }
    }

    /// What a search through the packets comes to from the state `st` on:
    /// packets are read until one is read at which the search ends, or
    /// until reading fails.
    pub open spec fn seek(&self, seek: Seek, st: DecState) -> Option<
        (Result<PacketHead, IteratorError>, DecState),
    >
        decreases self.packets@.len() - st.pos, 1nat,
    {
        match self.packet(st) {
            Some((Ok(h), s)) => if seek.stops(h) {
                Some((Ok(h), s))
            } else if s.pos <= st.pos || s.pos > self.packets@.len() {
                None
            } else {
                self.seek(seek, s)
            },
            Some((Err(e), s)) => Some((Err(e), s)),
            None => None,
        }
    }

    /// A synchronisation sequence ends, if it ends, at a packet that is
    /// there.
    pub proof fn lemma_psbend(&self, from: int)
        requires
            0 <= from,
        ensures
            self.psbend_from(from) matches Some(e) ==> from <= e < self.packets@.len(),
        decreases self.packets@.len() - from,
    {
        if from < self.packets@.len() && !(self.packets@[from].kind is PSBEND) {
            self.lemma_psbend(from + 1);
        }
    }

    /// Reading a packet is defined in every state of a decoder: it comes
    /// to a packet or to an error, never goes back, stays within the
    /// packets, and has gone on if it has come to a packet.
    pub proof fn lemma_packet_defined(&self, st: DecState)
        requires
            0 <= st.pos <= self.packets@.len(),
        ensures
            self.packet(st) matches Some((r, s)) && st.pos <= s.pos <= self.packets@.len() && (r
                is Ok ==> st.pos < s.pos) && (r matches Ok(h) && h.has_tnts ==> s.tnts.len() > 0),
        decreases self.packets@.len() - st.pos, 0nat,
    {
        if st.pos < self.packets@.len() {
            let p = self.packets@[st.pos];
            if p.kind is OVF {
            } else if p.kind is FUP && !st.um {
                let s0 = DecState { pos: st.pos + 1, ..st };
                self.lemma_seek_defined(Seek::TntOrTip { skip_ooc: false, skip_pgd: false }, s0);
                let (r1, s1) = self.seek(
                    Seek::TntOrTip { skip_ooc: false, skip_pgd: false },
                    s0,
                ).unwrap();
                if r1 is Ok && r1->Ok_0.kind is TIPPGD {
                    self.lemma_seek_defined(Seek::TntOrTip { skip_ooc: true, skip_pgd: false }, s1);
                    let (r2, s2) = self.seek(
                        Seek::TntOrTip { skip_ooc: true, skip_pgd: false },
                        s1,
                    ).unwrap();
                    if r2 is Ok && r2->Ok_0.kind is TIPPGE && s2.pos < self.packets@.len() {
                        self.lemma_psbend(s2.pos + 1);
                    }
                }
            } else {
                self.lemma_psbend(st.pos + 1);
            }
        }
    }

    /// A search through the packets is defined in every state of a
    /// decoder: it comes to a packet or to an error, never goes back, stays
    /// within the packets, and has gone on if it has come to a packet.
    pub proof fn lemma_seek_defined(&self, seek: Seek, st: DecState)
        requires
            0 <= st.pos <= self.packets@.len(),
        ensures
            self.seek(seek, st) matches Some((r, s)) && st.pos <= s.pos <= self.packets@.len() && (r
                is Ok ==> st.pos < s.pos) && (r matches Ok(h) ==> seek.stops(h) && (h.has_tnts
                ==> s.tnts.len() > 0)),
        decreases self.packets@.len() - st.pos, 1nat,
    {
        self.lemma_packet_defined(st);
        let (r, s) = self.packet(st).unwrap();
        if r is Ok && !seek.stops(r->Ok_0) {
            self.lemma_seek_defined(seek, s);
        }
    }

    /// The block at the location `loc`.
    pub open spec fn block_at(&self, loc: ObjLoc) -> Block {
        match loc {
            ObjLoc::MainObj(v) => self.blockmap.spec_block(v),
            ObjLoc::OtherObjOrUnknown(_) => Block::Unknown,
        }
    }

    /// Make sure that a decision waits: if none does, packets are read
    /// until one has carried decisions.
    pub open spec fn need_tnt(&self, st: DecState) -> Option<(Result<(), IteratorError>, DecState)> {
        if st.tnts.len() > 0 {
            Some((Ok(()), st))
        } else {
            match self.seek(Seek::Tnt, st) {
                Some((Ok(_), s)) => Some((Ok(()), s)),
                Some((Err(e), s)) => Some((Err(e), s)),
                None => None,
            }
        }
    }

    /// Is the return that decoding has reached compressed? It is if a
    /// decision waits, or if the next packet that matters carries decisions
    /// rather than a target address. The decision that stands for the
    /// compressed return is used up. A processor that does not compress
    /// returns must not have compressed one.
    pub open spec fn ret_compressed(&self, st: DecState) -> Option<
        (Result<bool, IteratorError>, DecState),
    > {
        if st.tnts.len() > 0 {
            if self.compressed_returns {
                Some((Ok(true), st.used_tnt()))
            } else {
                Some((Err(unrecoverable()), st))
            }
        } else {
            match self.seek(Seek::TntOrTip { skip_ooc: true, skip_pgd: true }, st) {
                Some((Ok(h), s)) => if !h.has_tnts {
                    Some((Ok(false), s))
                } else if self.compressed_returns {
                    Some((Ok(true), s.used_tnt()))
                } else {
                    Some((Err(unrecoverable()), s))
                },
                Some((Err(e), s)) => Some((Err(e), s)),
                None => None,
            }
        }
    }

    /// Where control goes from the end of a block that ends in `n`
    /// conditional branches: a decision is used up for each branch, up to
    /// the first that was taken, which leads to `taken_target`; if none was
    /// taken, control goes to `not_taken_target`.
    pub open spec fn cond_successor(
        &self,
        st: DecState,
        n: int,
        taken_target: usize,
        not_taken_target: usize,
    ) -> Option<(Result<usize, IteratorError>, DecState)>
        decreases n,
    {
        if n <= 0 {
            Some((Ok(not_taken_target), st))
        } else {
            match self.need_tnt(st) {
                Some((Ok(()), s)) => if s.tnts.len() == 0 {
                    None
                } else if s.tnts[0] {
                    Some((Ok(taken_target), s.used_tnt()))
                } else {
                    self.cond_successor(s.used_tnt(), n - 1, taken_target, not_taken_target)
                },
                Some((Err(e), s)) => Some((Err(e), s)),
                None => None,
            }
        }
    }

    /// The block at which a search for a packet with a target address
    /// arrives.
    pub open spec fn seek_block(&self, st: DecState) -> Option<(Result<Block, IteratorError>, DecState)> {
        match self.seek(Seek::Tip, st) {
            Some((Ok(_), s)) => Some((Ok(self.block_at(s.loc)), s)),
            Some((Err(e), s)) => Some((Err(e), s)),
            None => None,
        }
    }

    /// Follow the next call, at or after `b_vaddr`, in the block that the
    /// entry `ent` describes: the block in which the call lands, or no
    /// block if the block has no further call. The return address joins
    /// the stack of compressed returns, unless the call is a direct call of
    /// the instruction after it. Where the target of the call is not known,
    /// or is not traced, the packets say where decoding goes on.
    pub open spec fn blockmap_call(&self, st: DecState, b_vaddr: usize, ent: int) -> Option<
        (Result<Option<Block>, IteratorError>, DecState),
    > {
        match self.blockmap.entries@[ent].spec_next_call(b_vaddr, 0) {
            None => Some((Ok(None), st)),
            Some(c) => {
                let known = c.target_vaddr matches Some(t) && self.yktext.0 <= t && t
                    < self.yktext.1;
                let direct_to_next = c.target_vaddr matches Some(t) && c.is_direct && t
                    == c.return_vaddr;
                let s = st.with_rets(
                    pushed(st.rets, CompRetAddr::AfterCall(c.callsite_vaddr), !direct_to_next),
                );
                if known {
                    Some(
                        (
                            Ok(Some(self.blockmap.spec_block(c.target_vaddr.unwrap()))),
                            s.at(ObjLoc::MainObj(c.target_vaddr.unwrap())),
                        ),
                    )
                } else {
                    match self.seek_block(s) {
                        Some((Ok(b), s2)) => Some((Ok(Some(b)), s2)),
                        Some((Err(e), s2)) => Some((Err(e), s2)),
                        None => None,
                    }
                }
            },
        }
    }

    /// Follow the successor of the block that the entry `ent` describes.
    pub open spec fn blockmap_successor(&self, st: DecState, ent: int) -> Option<
        (Result<Block, IteratorError>, DecState),
    > {
        match self.blockmap.entries@[ent].successor {
            SuccessorKind::Unconditional { target } => Some(
                (Ok(self.blockmap.spec_block(target)), st.at(ObjLoc::MainObj(target))),
            ),
            SuccessorKind::Conditional { num_cond_brs, taken_target, not_taken_target } => match self.cond_successor(
                st,
                num_cond_brs as int,
                taken_target,
                not_taken_target,
            ) {
                Some((Ok(t), s)) => Some((Ok(self.blockmap.spec_block(t)), s.at(ObjLoc::MainObj(t)))),
                Some((Err(e), s)) => Some((Err(e), s)),
                None => None,
            },
            SuccessorKind::Return => match self.ret_compressed(st) {
                Some((Ok(true), s)) => if s.rets.len() == 0 {
                    Some((Err(unrecoverable()), s))
                } else {
                    Some(
                        (
                            Ok(self.blockmap.spec_block(next_addr(ret_addr(s.rets.last())))),
                            s.with_rets(s.rets.drop_last()).at(
                                ObjLoc::MainObj(ret_addr(s.rets.last())),
                            ),
                        ),
                    )
                },
                Some((Ok(false), s)) => Some((Ok(self.block_at(s.loc)), s)),
                Some((Err(e), s)) => Some((Err(e), s)),
                None => None,
            },
            SuccessorKind::Dynamic => self.seek_block(st),
        }
    }

    /// Follow the instruction `inst`, which has been disassembled: the
    /// address at which control goes on after it.
    pub open spec fn followed(&self, st: DecState, inst: DecodedInst) -> Option<
        (Result<usize, IteratorError>, DecState),
    > {
        match FlowKind::spec_from_code(inst.flow) {
            Some(FlowKind::Next) => as_vaddr(inst.next_ip, st),
            Some(FlowKind::Return) => match self.ret_compressed(st) {
                Some((Ok(true), s)) => if s.rets.len() == 0 {
                    Some((Err(unrecoverable()), s))
                } else {
                    Some((Ok(ret_addr(s.rets.last())), s.with_rets(s.rets.drop_last())))
                },
                Some((Ok(false), s)) => match s.loc {
                    ObjLoc::MainObj(v) => Some((Ok(v), s)),
                    ObjLoc::OtherObjOrUnknown(Some(v)) => Some((Ok(v), s)),
                    ObjLoc::OtherObjOrUnknown(None) => Some((Err(unrecoverable()), s)),
                },
                Some((Err(e), s)) => Some((Err(e), s)),
                None => None,
            },
            Some(FlowKind::IndirectBranch) => match self.seek(Seek::Tip, st) {
                Some((Ok(_), s)) => match s.loc {
                    ObjLoc::MainObj(v) => Some((Ok(v), s)),
                    ObjLoc::OtherObjOrUnknown(Some(v)) => Some((Ok(v), s)),
                    ObjLoc::OtherObjOrUnknown(None) => Some((Err(unrecoverable()), s)),
                },
                Some((Err(e), s)) => Some((Err(e), s)),
                None => None,
            },
            Some(FlowKind::IndirectCall) => match self.seek(Seek::Tip, st) {
                Some((Ok(_), s)) => if s.loc == ObjLoc::OtherObjOrUnknown(None) {
                    Some((Err(unrecoverable()), s))
                } else if inst.next_ip > usize::MAX {
                    Some((Err(IteratorError::NoSuchVAddr), s))
                } else {
                    Some(
                        (
                            Ok(
                                match s.loc {
                                    ObjLoc::MainObj(v) => v,
                                    ObjLoc::OtherObjOrUnknown(v) => v.unwrap(),
                                },
                            ),
                            s.with_rets(
                                pushed(s.rets, CompRetAddr::VAddr(inst.next_ip as usize), true),
                            ),
                        ),
                    )
                },
                Some((Err(e), s)) => Some((Err(e), s)),
                None => None,
            },
            Some(FlowKind::ConditionalBranch) => match self.need_tnt(st) {
                Some((Ok(()), s)) => if s.tnts.len() == 0 {
                    None
                } else if !s.tnts[0] {
                    as_vaddr(inst.next_ip, s.used_tnt())
                } else {
                    match spec_branch_target(inst) {
                        Some(t) => as_vaddr(t, s.used_tnt()),
                        None => Some((Err(unrecoverable()), s.used_tnt())),
                    }
                },
                Some((Err(e), s)) => Some((Err(e), s)),
                None => None,
            },
            Some(FlowKind::UnconditionalBranch) => match spec_branch_target(inst) {
                Some(t) => as_vaddr(t, st),
                None => Some((Err(unrecoverable()), st)),
            },
            Some(FlowKind::Call) => if inst.code == CODE_SYSCALL {
                as_vaddr(inst.next_ip, st)
            } else {
                match spec_branch_target(inst) {
                    Some(t) => if t == inst.next_ip {
                        as_vaddr(t, st)
                    } else if inst.next_ip > usize::MAX {
                        Some((Err(IteratorError::NoSuchVAddr), st))
                    } else {
                        as_vaddr(
                            t,
                            st.with_rets(
                                pushed(st.rets, CompRetAddr::VAddr(inst.next_ip as usize), true),
                            ),
                        )
                    },
                    None => Some((Err(unrecoverable()), st)),
                }
            },
            _ => Some((Err(unrecoverable()), st)),
        }
    }

    /// Disassemble from `vaddr` on until decoding is back in a block of
    /// the main object that the compiler has described: that block. `fuel`
    /// instructions are followed at most.
    pub open spec fn disassembled(&self, st: DecState, vaddr: usize, fuel: nat) -> Option<
        (Result<Block, IteratorError>, DecState),
    >
        decreases fuel,
    {
        if fuel == 0 {
            Some((Err(unrecoverable()), st))
        } else if self.objs.spec_is_main(vaddr) is None {
            Some((Err(IteratorError::NoSuchVAddr), st))
        } else if self.objs.spec_is_main(vaddr) == Some(true) && !(self.blockmap.spec_block(vaddr)
            is Unknown) {
            Some((Ok(self.blockmap.spec_block(vaddr)), st.at(ObjLoc::MainObj(vaddr))))
        } else {
            match self.segs.map.spec_find(vaddr) {
                Some(seg) => match self.followed(
                    st,
                    decoded_at(
                        self.segs.bytes@[seg as int]@,
                        self.segs.map.ranges()[seg as int].0 as u64,
                        vaddr as u64,
                    ),
                ) {
                    Some((Ok(v), s)) => self.disassembled(s, v, (fuel - 1) as nat),
                    Some((Err(e), s)) => Some((Err(e), s)),
                    None => None,
                },
                None => Some((Err(IteratorError::NoSuchVAddr), st)),
            }
        }
    }

    /// Skip over foreign code: from `start` on, or, if that is not known,
    /// from the address that the next packet with a target address gives.
    pub open spec fn skipped(&self, st: DecState, start: Option<usize>) -> Option<
        (Result<Block, IteratorError>, DecState),
    > {
        match start {
            Some(v) => self.disassembled(st, v, self.max_foreign_insts as nat),
            None => match self.seek(Seek::Tip, st) {
                Some((Ok(_), s)) => match s.loc {
                    ObjLoc::OtherObjOrUnknown(Some(v)) => self.disassembled(
                        s,
                        v,
                        self.max_foreign_insts as nat,
                    ),
                    ObjLoc::OtherObjOrUnknown(None) => Some((Err(unrecoverable()), s)),
                    ObjLoc::MainObj(v) => if self.blockmap.spec_block(v) is Unknown {
                        self.disassembled(s, v, self.max_foreign_insts as nat)
                    } else {
                        Some((Ok(self.blockmap.spec_block(v)), s))
                    },
                },
                Some((Err(e), s)) => Some((Err(e), s)),
                None => None,
            },
        }
    }

    /// Decode up to the next block. In a block that the compiler has
    /// described, the calls that come after the decoder's location are
    /// followed, one at each step, and then the successor of the block.
    /// Anywhere else the decoder skips to the next block that the compiler
    /// has described.
    pub open spec fn stepped(&self, st: DecState) -> Option<(Result<Block, IteratorError>, DecState)> {
        match st.loc {
            ObjLoc::MainObj(v) => match self.blockmap.map.spec_find(v) {
                Some(ent) => match self.blockmap_call(st, v, ent as int) {
                    Some((Ok(Some(b)), s)) => Some((Ok(b), s)),
                    Some((Ok(None), s)) => self.blockmap_successor(s, ent as int),
                    Some((Err(e), s)) => Some((Err(e), s)),
                    None => None,
                },
                None => Some((Ok(Block::Unknown), st.at(ObjLoc::OtherObjOrUnknown(Some(v))))),
            },
            ObjLoc::OtherObjOrUnknown(v) => self.skipped(st, v),
        }
    }

    /// Following an instruction is defined in every state of a decoder.
    pub proof fn lemma_followed_defined(&self, st: DecState, inst: DecodedInst)
        requires
            0 <= st.pos <= self.packets@.len(),
        ensures
            self.followed(st, inst) matches Some((r, s)) && 0 <= s.pos <= self.packets@.len(),
    {
        self.lemma_seek_defined(Seek::Tip, st);
        self.lemma_seek_defined(Seek::Tnt, st);
        self.lemma_seek_defined(Seek::TntOrTip { skip_ooc: true, skip_pgd: true }, st);
    }

    /// Disassembling is defined in every state of a decoder.
    pub proof fn lemma_disassembled_defined(&self, st: DecState, vaddr: usize, fuel: nat)
        requires
            0 <= st.pos <= self.packets@.len(),
        ensures
            self.disassembled(st, vaddr, fuel) is Some,
        decreases fuel,
    {
        if fuel > 0 && self.objs.spec_is_main(vaddr) is Some && !(self.objs.spec_is_main(vaddr)
            == Some(true) && !(self.blockmap.spec_block(vaddr) is Unknown)) {
            if let Some(seg) = self.segs.map.spec_find(vaddr) {
                let inst = decoded_at(
                    self.segs.bytes@[seg as int]@,
                    self.segs.map.ranges()[seg as int].0 as u64,
                    vaddr as u64,
                );
                self.lemma_followed_defined(st, inst);
                if let Some((Ok(v), s)) = self.followed(st, inst) {
                    self.lemma_disassembled_defined(s, v, (fuel - 1) as nat);
                }
            }
        }
    }

    /// Where control goes from the end of a block that ends in conditional
    /// branches is defined in every state of a decoder.
    pub proof fn lemma_cond_successor_defined(
        &self,
        st: DecState,
        n: int,
        taken_target: usize,
        not_taken_target: usize,
    )
        requires
            0 <= st.pos <= self.packets@.len(),
        ensures
            self.cond_successor(st, n, taken_target, not_taken_target) is Some,
        decreases n,
    {
        if n > 0 {
            self.lemma_seek_defined(Seek::Tnt, st);
            if let Some((Ok(()), s)) = self.need_tnt(st) {
                self.lemma_cond_successor_defined(
                    s.used_tnt(),
                    n - 1,
                    taken_target,
                    not_taken_target,
                );
            }
        }
    }

    /// Decoding up to the next block is defined in every state of a
    /// decoder: whatever the packets and the tables are, a step comes to a
    /// block or to an error.
    pub proof fn lemma_step_defined(&self, st: DecState)
        requires
            0 <= st.pos <= self.packets@.len(),
        ensures
            self.stepped(st) is Some,
    {
        self.lemma_seek_defined(Seek::Tip, st);
        self.lemma_seek_defined(Seek::TntOrTip { skip_ooc: true, skip_pgd: true }, st);
        match st.loc {
            ObjLoc::MainObj(v) => {
                if let Some(ent) = self.blockmap.map.spec_find(v) {
                    let e = self.blockmap.entries@[ent as int];
                    if let Some(c) = e.spec_next_call(v, 0) {
                        let direct_to_next = c.target_vaddr matches Some(t) && c.is_direct && t
                            == c.return_vaddr;
                        let s = st.with_rets(
                            pushed(
                                st.rets,
                                CompRetAddr::AfterCall(c.callsite_vaddr),
                                !direct_to_next,
                            ),
                        );
                        self.lemma_seek_defined(Seek::Tip, s);
                    } else {
                        if let SuccessorKind::Conditional {
                            num_cond_brs,
                            taken_target,
                            not_taken_target,
                        } = e.successor {
                            self.lemma_cond_successor_defined(
                                st,
                                num_cond_brs as int,
                                taken_target,
                                not_taken_target,
                            );
                        }
                    }
                }
            },
            ObjLoc::OtherObjOrUnknown(Some(v)) => {
                self.lemma_disassembled_defined(st, v, self.max_foreign_insts as nat);
            },
            ObjLoc::OtherObjOrUnknown(None) => {
                if let Some((Ok(_), s)) = self.seek(Seek::Tip, st) {
                    match s.loc {
                        ObjLoc::OtherObjOrUnknown(Some(v)) => {
                            self.lemma_disassembled_defined(s, v, self.max_foreign_insts as nat);
                        },
                        ObjLoc::MainObj(v) => {
                            self.lemma_disassembled_defined(s, v, self.max_foreign_insts as nat);
                        },
                        _ => {},
                    }
                }
            },
        }
    }
}

} // verus!
