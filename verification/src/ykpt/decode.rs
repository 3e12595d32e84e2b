//! The block iterator: the decoder's state and the steps that follow the
//! packets and the compiler's description of the main object.

use crate::block::Block;
use crate::ykpt::maps::{BlockMap, BlockMapEntry, CallInfo, CodeSegs, ObjMap, SuccessorKind};
use crate::ykpt::model::DecState;
use crate::ykpt::packets::{Packet, PacketHead, PacketKind};
use std::collections::VecDeque;
use vstd::prelude::*;

verus! {

broadcast use vstd::std_specs::vecdeque::axiom_spec_len;

/// How many returns a processor keeps track of for the compression of
/// returns. The number is built into the hardware.
pub const PT_MAX_COMPRETS: usize = 64;

/// Why a trace cannot be used, for the time being.
#[derive(Debug, Clone, Copy, PartialEq, Eq, Structural)]
pub enum TemporaryErrorKind {
    /// The processor has lost packets.
    TraceBufferOverflow,
    /// The thread was interrupted in a way that the decoder does not follow.
    TraceInterrupted,
}

/// What can go wrong with a hardware trace.
#[derive(Debug, Clone, Copy, PartialEq, Eq, Structural)]
pub enum HWTracerError {
    /// Something that may not happen the next time.
    Temporary(TemporaryErrorKind),
    /// The packets or the tables contradict what the decoder takes for
    /// granted of a processor and of a program.
    Unrecoverable,
}

/// Why the decoder has stopped.
#[derive(Debug, Clone, Copy, PartialEq, Eq, Structural)]
pub enum IteratorError {
    /// The packets have been used up: the trace ends here.
    NoMorePackets,
    /// The trace names an address that belongs to no object.
    NoSuchVAddr,
    /// The trace cannot be used.
    HWTracerError(HWTracerError),
}

/// Why a block iterator has failed.
#[derive(Debug, Clone, Copy, PartialEq, Eq, Structural)]
pub enum BlockIteratorError {
    /// The trace names an address that belongs to no object.
    NoSuchVAddr,
    /// The trace cannot be used.
    HWTracerError(HWTracerError),
}

/// A location in the instruction stream of the traced program.
#[derive(Debug, Clone, Copy, PartialEq, Eq, Structural)]
pub enum ObjLoc {
    /// A virtual address in the main object.
    MainObj(usize),
    /// Anything else, as a virtual address if it is known.
    OtherObjOrUnknown(Option<usize>),
}

impl ObjLoc {
    /// The virtual address of the location, which must be known.
    pub fn vaddr(&self) -> (v: usize)
        requires
            *self != ObjLoc::OtherObjOrUnknown(None),
        ensures
            *self == ObjLoc::MainObj(v) || *self == ObjLoc::OtherObjOrUnknown(Some(v)),
    {
        match self {
            ObjLoc::MainObj(v) => *v,
            ObjLoc::OtherObjOrUnknown(v) => v.unwrap(),
        }
    }
}

/// A return address on the stack of compressed returns.
#[derive(Debug, Clone, Copy, PartialEq, Eq, Structural)]
pub enum CompRetAddr {
    /// A return address.
    VAddr(usize),
    /// The address directly after the call at the given address in the main
    /// object. Following the compiler's description the decoder does not
    /// learn how long a call instruction is, only after which call to go on.
    AfterCall(usize),
}

/// The stack of compressed returns. Calls and returns mostly nest, so a
/// processor need not report where a return goes if it has seen the call:
/// the decoder keeps the return addresses as the processor does, the last
/// `PT_MAX_COMPRETS` of them.
#[derive(Debug)]
pub struct CompressedReturns {
    pub rets: VecDeque<CompRetAddr>,
}

impl CompressedReturns {
    /// The stack never holds more than the hardware does.
    pub open spec fn wf(&self) -> bool {
        self.rets@.len() <= PT_MAX_COMPRETS
    }

    /// An empty stack.
    pub fn new() -> (s: Self)
        ensures
            s.wf(),
            s.rets@.len() == 0,
    {
        CompressedReturns { rets: VecDeque::new() }
    }

    /// Push a return address. When the stack is full, its oldest entry goes.
    pub fn push(&mut self, ret: CompRetAddr)
        requires
            old(self).wf(),
        ensures
            final(self).wf(),
            final(self).rets@ == if old(self).rets@.len() == PT_MAX_COMPRETS {
                old(self).rets@.subrange(1, PT_MAX_COMPRETS as int).push(ret)
            } else {
                old(self).rets@.push(ret)
            },
    {
        if self.rets.len() == PT_MAX_COMPRETS {
            self.rets.pop_front();
        }
        self.rets.push_back(ret);
    }

    /// Pop the return address that was pushed last.
    pub fn pop(&mut self) -> (r: Option<CompRetAddr>)
        requires
            old(self).wf(),
        ensures
            final(self).wf(),
            match r {
                Some(x) => old(self).rets@.len() > 0 && x == old(self).rets@.last()
                    && final(self).rets@ == old(self).rets@.drop_last(),
                None => old(self).rets@.len() == 0 && final(self).rets@ == old(self).rets@,
            },
    {
        self.rets.pop_back()
    }
}

/// What a search through the packets looks for.
#[derive(Debug, Clone, Copy, PartialEq, Eq, Structural)]
pub enum Seek {
    /// A packet that carries decisions.
    Tnt,
    /// A packet that carries a target address, or could; one that switches
    /// tracing off does not count.
    Tip,
    /// A packet that carries decisions or a target address. With
    /// `skip_ooc`, packets that could carry an address but do not are
    /// passed over; with `skip_pgd`, packets that switch tracing off are.
    TntOrTip { skip_ooc: bool, skip_pgd: bool },
}

impl Seek {
    /// Does the search end at a packet with the head `h`?
    pub open spec fn stops(self, h: PacketHead) -> bool {
        match self {
            Seek::Tnt => h.has_tnts,
            Seek::Tip => h.kind.spec_encodes_target_ip() && !(h.kind is TIPPGD),
            Seek::TntOrTip { skip_ooc, skip_pgd } => h.has_tnts || (h.kind.spec_encodes_target_ip()
                && (!(h.kind is TIPPGD) || !skip_pgd) && (h.target_ip is Some || !skip_ooc)),
        }
    }
}

/// The address after `v`. Addresses wrap around.
pub open spec fn next_addr(v: usize) -> usize {
    if v == usize::MAX {
        0
    } else {
        (v + 1) as usize
    }
}

/// Iterate over the blocks of a processor trace.
pub struct YkPTBlockIterator<'t> {
    /// The packets of the trace.
    pub packets: &'t Vec<Packet>,
    /// How many packets have been read.
    pub pos: usize,
    /// Where in the traced program decoding has got to.
    pub cur_loc: ObjLoc,
    /// The decisions that have been read from packets and not yet been
    /// used, oldest first.
    pub tnts: VecDeque<bool>,
    /// The stack of compressed returns.
    pub comprets: CompressedReturns,
    /// Has a mode packet been read that no later packet has been bound to?
    pub unbound_modes: bool,
    /// What the compiler has said of the blocks of the main object.
    pub blockmap: &'t BlockMap,
    /// Which object each address belongs to.
    pub objs: &'t ObjMap,
    /// The executable segments.
    pub segs: &'t CodeSegs,
    /// The range of addresses that the processor traces: its start, and its
    /// end, which is not part of it.
    pub yktext: (usize, usize),
    /// Does the processor compress returns?
    pub compressed_returns: bool,
    /// How many instructions of foreign code are disassembled at most to
    /// find the next block.
    pub max_foreign_insts: usize,
}

impl<'t> YkPTBlockIterator<'t> {
    /// The decoder has read no more packets than there are, its tables are
    /// well formed, and its stack of compressed returns holds no more than
    /// the hardware does.
    pub open spec fn wf(&self) -> bool {
        &&& self.pos <= self.packets@.len()
        &&& forall|i: int| 0 <= i < self.packets@.len() ==> (#[trigger] self.packets@[i]).wf()
        &&& self.comprets.wf()
        &&& self.blockmap.wf()
        &&& self.objs.wf()
        &&& self.segs.wf()
    }

    /// `self` is the decoder `o` at a later time: it reads the same packets
    /// with the same tables, and has read on.
    pub open spec fn later_than(&self, o: &Self) -> bool {
        &&& self.wf()
        &&& self.packets == o.packets
        &&& self.blockmap == o.blockmap
        &&& self.objs == o.objs
        &&& self.segs == o.segs
        &&& self.yktext == o.yktext
        &&& self.compressed_returns == o.compressed_returns
        &&& self.max_foreign_insts == o.max_foreign_insts
        &&& self.pos >= o.pos
    }

    /// A decoder that has stopped for want of packets has read them all.
    pub open spec fn ended_by(&self, e: IteratorError) -> bool {
        e == IteratorError::NoMorePackets ==> self.pos == self.packets@.len()
    }

    /// The location at the virtual address `vaddr`, if the address belongs
    /// to an object.
    pub open spec fn loc_of(&self, vaddr: usize) -> Option<ObjLoc> {
        match self.objs.spec_is_main(vaddr) {
            Some(true) => Some(ObjLoc::MainObj(vaddr)),
            Some(false) => Some(ObjLoc::OtherObjOrUnknown(Some(vaddr))),
            None => None,
        }
    }

    /// The block `b` is the block at the decoder's location: the block of
    /// the main object that holds the location's address, or the address
    /// after it where decoding goes on after a call; and no known block
    /// anywhere else.
    pub open spec fn at_block(&self, b: Block) -> bool {
        match self.cur_loc {
            ObjLoc::MainObj(v) => b == self.blockmap.spec_block(v) || b == self.blockmap.spec_block(
                next_addr(v),
            ),
            ObjLoc::OtherObjOrUnknown(_) => b is Unknown,
        }
    }

    /// Create a decoder for the trace `packets`, with the tables of the
    /// process.
    pub fn new(
        packets: &'t Vec<Packet>,
        blockmap: &'t BlockMap,
        objs: &'t ObjMap,
        segs: &'t CodeSegs,
        yktext: (usize, usize),
        compressed_returns: bool,
        max_foreign_insts: usize,
    ) -> (it: Self)
        requires
            forall|i: int| 0 <= i < packets@.len() ==> (#[trigger] packets@[i]).wf(),
            blockmap.wf(),
            objs.wf(),
            segs.wf(),
        ensures
            it.wf(),
            it.pos == 0,
            it.packets == packets,
            it.cur_loc == ObjLoc::OtherObjOrUnknown(None),
            it.tnts@.len() == 0,
            it.comprets.rets@.len() == 0,
            !it.unbound_modes,
            it.blockmap == blockmap,
            it.objs == objs,
            it.segs == segs,
            it.yktext == yktext,
            it.compressed_returns == compressed_returns,
            it.max_foreign_insts == max_foreign_insts,
    {
        YkPTBlockIterator {
            packets,
            pos: 0,
            cur_loc: ObjLoc::OtherObjOrUnknown(None),
            tnts: VecDeque::new(),
            comprets: CompressedReturns::new(),
            unbound_modes: false,
            blockmap,
            objs,
            segs,
            yktext,
            compressed_returns,
            max_foreign_insts,
        }
    }

    /// The object that `vaddr` belongs to, as a location.
    pub fn vaddr_to_loc(&self, vaddr: usize) -> (r: Result<ObjLoc, IteratorError>)
        requires
            self.wf(),
        ensures
            match r {
                Ok(l) => self.loc_of(vaddr) == Some(l),
                Err(e) => e == IteratorError::NoSuchVAddr && self.loc_of(vaddr) is None,
            },
    {
        match self.objs.is_main(vaddr) {
            Some(true) => Ok(ObjLoc::MainObj(vaddr)),
            Some(false) => Ok(ObjLoc::OtherObjOrUnknown(Some(vaddr))),
            None => Err(IteratorError::NoSuchVAddr),
        }
    }

    /// Look up the compiler's entry for the block that holds `vaddr`.
    pub fn lookup_blockmap_entry(&self, vaddr: usize) -> (r: Option<usize>)
        requires
            self.wf(),
        ensures
            r == self.blockmap.map.spec_find(vaddr),
            match r {
                Some(i) => i < self.blockmap.entries@.len() && self.blockmap.map.holds(
                    i as int,
                    vaddr,
                ),
                None => forall|i: int| !self.blockmap.map.holds(i, vaddr),
            },
    {
        self.blockmap.lookup(vaddr)
    }

    /// Look up a block of the main object by a virtual address in it. The
    /// block is unknown if the compiler has not described it.
    pub fn lookup_block_by_vaddr(&self, vaddr: usize) -> (r: Result<Block, IteratorError>)
        requires
            self.wf(),
        ensures
            r == Ok::<Block, IteratorError>(self.blockmap.spec_block(vaddr)),
    {
        match self.lookup_blockmap_entry(vaddr) {
            Some(i) => {
                let (start, end) = self.blockmap.map.range(i);
                Ok(Block::from_vaddr_range(start, end))
            },
            None => Ok(Block::Unknown),
        }
    }

    /// The block at the decoder's location.
    fn block_here(&self) -> (r: Block)
        requires
            self.wf(),
        ensures
            self.at_block(r),
            r == match self.cur_loc {
                ObjLoc::MainObj(v) => self.blockmap.spec_block(v),
                ObjLoc::OtherObjOrUnknown(_) => Block::Unknown,
            },
    {
        match self.cur_loc {
            ObjLoc::MainObj(vaddr) => match self.lookup_block_by_vaddr(vaddr) {
                Ok(b) => b,
                Err(_) => Block::Unknown,
            },
            ObjLoc::OtherObjOrUnknown(_) => Block::Unknown,
        }
    }

    /// Read the next packet, if there is one.
    fn read(&mut self) -> (r: Option<PacketHead>)
        requires
            old(self).wf(),
        ensures
            final(self).later_than(old(self)),
            final(self).cur_loc == old(self).cur_loc,
            final(self).tnts == old(self).tnts,
            final(self).comprets == old(self).comprets,
            final(self).unbound_modes == old(self).unbound_modes,
            match r {
                Some(h) => old(self).pos < old(self).packets@.len() && final(self).pos == old(
                    self,
                ).pos + 1 && h == old(self).packets@[old(self).pos as int].spec_head(),
                None => old(self).pos == old(self).packets@.len() && final(self).pos == old(
                    self,
                ).pos,
            },
    {
        if self.pos < self.packets.len() {
            let h = self.packets[self.pos].head();
            self.pos = self.pos + 1;
            Some(h)
        } else {
            None
        }
    }

    /// Skip what is left of a synchronisation sequence, and return the first
    /// packet after its end.
    pub fn skip_psb_plus(&mut self) -> (r: Result<PacketHead, IteratorError>)
        requires
            old(self).wf(),
        ensures
            final(self).later_than(old(self)),
            final(self).cur_loc == old(self).cur_loc,
            final(self).tnts == old(self).tnts,
            final(self).comprets == old(self).comprets,
            final(self).unbound_modes == old(self).unbound_modes,
            match r {
                Ok(h) => {
                    &&& final(self).pos >= old(self).pos + 2
                    &&& h == final(self).packets@[final(self).pos - 1].spec_head()
                    &&& final(self).packets@[final(self).pos - 2].kind is PSBEND
                    &&& forall|i: int|
                        old(self).pos <= i < final(self).pos - 2
                            ==> !(#[trigger] old(self).packets@[i].kind is PSBEND)
                },
                Err(e) => {
                    &&& final(self).pos == final(self).packets@.len()
                    &&& e == IteratorError::NoMorePackets || e == IteratorError::HWTracerError(
                        HWTracerError::Unrecoverable,
                    )
                },
            },
            match old(self).env().psbend_from(old(self).pos as int) {
                Some(e) => if e + 1 < old(self).packets@.len() {
                    &&& r == Ok::<PacketHead, IteratorError>(old(self).packets@[e + 1].spec_head())
                    &&& final(self).pos == e + 2
                } else {
                    r == Err::<PacketHead, IteratorError>(IteratorError::NoMorePackets)
                },
                None => r == Err::<PacketHead, IteratorError>(
                    IteratorError::HWTracerError(HWTracerError::Unrecoverable),
                ),
            },
    {
        loop
            invariant
                self.later_than(old(self)),
                self.cur_loc == old(self).cur_loc,
                self.tnts == old(self).tnts,
                self.comprets == old(self).comprets,
                self.unbound_modes == old(self).unbound_modes,
                forall|i: int| old(self).pos <= i < self.pos ==> !(#[trigger] self.packets@[i].kind is PSBEND),
                self.env() == old(self).env(),
                old(self).env().psbend_from(self.pos as int) == old(self).env().psbend_from(
                    old(self).pos as int,
                ),
            decreases self.packets@.len() - self.pos,
        {
            match self.read() {
                Some(h) => {
                    if h.kind == PacketKind::PSBEND {
                        return match self.read() {
                            Some(h) => Ok(h),
                            None => Err(IteratorError::NoMorePackets),
                        };
                    }
                },
                None => {
                    return Err(IteratorError::HWTracerError(HWTracerError::Unrecoverable));
                },
            }
        }
    }

    /// `self` is the decoder `o` but for how many packets it has read.
    pub open spec fn same_but_pos(&self, o: &Self) -> bool {
        &&& self.tnts@ == o.tnts@
        &&& self.cur_loc == o.cur_loc
        &&& self.unbound_modes == o.unbound_modes
        &&& self.comprets == o.comprets
    }

    /// Is the next packet one that is taken in by itself: is there a
    /// packet, and is it no lost packet, no synchronisation, and no
    /// interruption?
    pub open spec fn plain_next(&self) -> bool {
        &&& self.pos < self.packets@.len()
        &&& !(self.packets@[self.pos as int].kind is OVF)
        &&& !(self.packets@[self.pos as int].kind is PSB)
        &&& !(self.packets@[self.pos as int].kind is FUP && !self.unbound_modes)
    }

    /// `self` is the decoder `o` after it has taken in its next packet,
    /// one that is taken in by itself, with the outcome `r`: the decisions
    /// of the packet have joined the queue, and its target address, if it
    /// has one, has become the decoder's location. A mode packet waits for
    /// the packet with a target address that it belongs to. It is an error
    /// if the target address belongs to no object.
    pub open spec fn took(&self, o: &Self, r: Result<PacketHead, IteratorError>) -> bool {
        let p = o.packets@[o.pos as int];
        &&& self.pos == o.pos + 1
        &&& self.comprets == o.comprets
        &&& self.unbound_modes == if p.kind.spec_is_mode() {
            true
        } else if p.kind.spec_encodes_target_ip() {
            false
        } else {
            o.unbound_modes
        }
        &&& match p.target_ip {
            Some(v) => match o.loc_of(v) {
                Some(l) => {
                    &&& r == Ok::<PacketHead, IteratorError>(p.spec_head())
                    &&& self.cur_loc == l
                    &&& self.tnts@ == o.tnts@ + p.tnts@
                },
                None => {
                    &&& r == Err::<PacketHead, IteratorError>(IteratorError::NoSuchVAddr)
                    &&& self.cur_loc == o.cur_loc
                    &&& self.tnts@ == o.tnts@
                },
            },
            None => {
                &&& r == Ok::<PacketHead, IteratorError>(p.spec_head())
                &&& self.cur_loc == o.cur_loc
                &&& self.tnts@ == o.tnts@ + p.tnts@
            },
        }
    }

    /// Read the next packet and take in what it carries: the decisions of a
    /// decision packet join the queue, and a target address becomes the
    /// decoder's location. Lost packets end decoding. An interruption is
    /// passed over if tracing was switched off and on again around it, and
    /// ends decoding otherwise. A synchronisation sequence resets the
    /// location and the stack of compressed returns. The packet returned is
    /// the one that was read last.
    #[verifier::rlimit(60)]
    #[verifier::spinoff_prover]
    pub fn packet(&mut self) -> (r: Result<PacketHead, IteratorError>)
        requires
            old(self).wf(),
        ensures
            final(self).later_than(old(self)),
            match r {
                Ok(h) => {
                    &&& final(self).pos > old(self).pos
                    &&& h == final(self).packets@[final(self).pos - 1].spec_head()
                    &&& final(self).tnts@ == old(self).tnts@ + final(self).packets@[final(self).pos
                        - 1].tnts@
                    &&& match h.target_ip {
                        Some(v) => final(self).loc_of(v) == Some(final(self).cur_loc),
                        None => true,
                    }
                    &&& !(h.kind is OVF && final(self).pos == old(self).pos + 1)
                },
                Err(e) => final(self).ended_by(e),
            },
            old(self).pos == old(self).packets@.len() ==> {
                &&& r == Err::<PacketHead, IteratorError>(IteratorError::NoMorePackets)
                &&& final(self).same_but_pos(old(self))
                &&& final(self).pos == old(self).pos
            },
            old(self).pos < old(self).packets@.len() && old(self).packets@[old(self).pos as int].kind
                is OVF ==> {
                &&& r == Err::<PacketHead, IteratorError>(
                    IteratorError::HWTracerError(
                        HWTracerError::Temporary(TemporaryErrorKind::TraceBufferOverflow),
                    ),
                )
                &&& final(self).same_but_pos(old(self))
                &&& final(self).pos == old(self).pos + 1
            },
            old(self).plain_next() ==> final(self).took(old(self), r),
            final(self).agrees(r, old(self).env().packet(old(self).state())),
        decreases old(self).packets@.len() - old(self).pos, 0nat,
    {
        let ghost env = self.env();
        let ghost st0 = self.state();
        let mut pkt = match self.read() {
            Some(h) => h,
            None => {
                return Err(IteratorError::NoMorePackets);
            },
        };
        if pkt.kind == PacketKind::OVF {
            return Err(
                IteratorError::HWTracerError(
                    HWTracerError::Temporary(TemporaryErrorKind::TraceBufferOverflow),
                ),
            );
        }
        let ghost tnts0 = self.tnts@;
        proof {
            assert(tnts0 =~= old(self).tnts@);
        }
        // Whether what reading comes to is known, and the state in which
        // the packet that is taken in last is met.
        let ghost known = true;
        let ghost base = st0;
        if pkt.kind == PacketKind::FUP && !self.unbound_modes {
            proof {
                assert(self.env() == env);
                assert(self.state() == (DecState { pos: st0.pos + 1, ..st0 }));
                known = env.seek(
                    Seek::TntOrTip { skip_ooc: false, skip_pgd: false },
                    self.state(),
                ) is Some;
                assert(!known ==> env.packet(st0) is None);
            }
            // Something has interrupted the thread. The one case that is
            // followed is that tracing is switched off and on again, with no
            // branch in between: then the interruption can be passed over.
            pkt = match self.seek_tnt_or_tip(false, false) {
                Ok(h) => h,
                Err(e) => {
                    return Err(e);
                },
            };
            if pkt.kind != PacketKind::TIPPGD {
                return Err(
                    IteratorError::HWTracerError(
                        HWTracerError::Temporary(TemporaryErrorKind::TraceInterrupted),
                    ),
                );
            }
            proof {
                assert(self.env() == env);
                assert(!known ==> env.packet(st0) is None);
                known = known && env.seek(
                    Seek::TntOrTip { skip_ooc: true, skip_pgd: false },
                    self.state(),
                ) is Some;
                assert(!known ==> env.packet(st0) is None);
            }
            pkt = match self.seek_tnt_or_tip(true, false) {
                Ok(h) => h,
                Err(e) => {
                    return Err(e);
                },
            };
            if pkt.kind != PacketKind::TIPPGE {
                return Err(
                    IteratorError::HWTracerError(
                        HWTracerError::Temporary(TemporaryErrorKind::TraceInterrupted),
                    ),
                );
            }
            proof {
                base = self.state();
            }
            pkt = match self.read() {
                Some(h) => h,
                None => {
                    return Err(IteratorError::NoMorePackets);
                },
            };
        }
        proof {
            assert(self.tnts@ =~= tnts0);
            assert(self.env() == env);
            assert(self.pos == base.pos + 1);
            assert(self.state() == (DecState { pos: base.pos + 1, ..base }));
            assert(known ==> env.packet(st0) == Some(env.landed(base.pos, base)));
            assert(!known ==> env.packet(st0) is None);
        }
        // The state in which the packet that is taken in is met.
        let ghost met = base;
        if pkt.kind == PacketKind::PSB {
            // Nothing is retained across a synchronisation point.
            self.cur_loc = ObjLoc::OtherObjOrUnknown(None);
            self.comprets.rets.clear();
            proof {
                met = DecState {
                    pos: base.pos + 1,
                    loc: ObjLoc::OtherObjOrUnknown(None),
                    rets: Seq::empty(),
                    ..base
                };
                assert(self.comprets.rets@ =~= Seq::<CompRetAddr>::empty());
                assert(self.state() == met);
            }
            if self.tnts.len() != 0 {
                return Err(IteratorError::HWTracerError(HWTracerError::Unrecoverable));
            }
            pkt = match self.skip_psb_plus() {
                Ok(h) => h,
                Err(e) => {
                    proof {
                        assert(self.state() == (DecState {
                            pos: self.packets@.len() as int,
                            ..met
                        }));
                    }
                    return Err(e);
                },
            };
            proof {
                assert(self.state() == (DecState { pos: self.pos as int, ..met }));
            }
            if pkt.kind == PacketKind::PSB {
                return Err(IteratorError::HWTracerError(HWTracerError::Unrecoverable));
            }
        }
        proof {
            assert(known ==> env.packet(st0) == Some(env.taken(self.pos - 1, met)));
            assert(self.tnts@ == met.tnts);
            assert(self.cur_loc == met.loc);
            assert(self.unbound_modes == met.um);
            assert(self.comprets.rets@ == met.rets);
            assert(pkt == self.packets@[self.pos - 1].spec_head());
        }
        // The meaning of target addresses depends on mode packets before them.
        if pkt.kind.is_mode() {
            self.unbound_modes = true;
        }
        if pkt.kind.encodes_target_ip() && self.unbound_modes {
            self.unbound_modes = false;
        }
        if let Some(vaddr) = pkt.target_ip {
            self.cur_loc = match self.vaddr_to_loc(vaddr) {
                Ok(l) => l,
                Err(e) => {
                    return Err(e);
                },
            };
        }
        let packets: &'t Vec<Packet> = self.packets;
        let last = self.pos - 1;
        let mut i: usize = 0;
        proof {
            assert(self.tnts@ =~= tnts0 + packets@[last as int].tnts@.subrange(0, 0));
        }
        let ghost before = *self;
        while i < packets[last].tnts.len()
            invariant
                last < packets@.len(),
                i <= packets@[last as int].tnts@.len(),
                packets == self.packets,
                last == self.pos - 1,
                self.later_than(old(self)),
                self.pos > old(self).pos,
                self.tnts@ == tnts0 + packets@[last as int].tnts@.subrange(0, i as int),
                match pkt.target_ip {
                    Some(v) => self.loc_of(v) == Some(self.cur_loc),
                    None => true,
                },
                self.pos == before.pos,
                self.cur_loc == before.cur_loc,
                self.unbound_modes == before.unbound_modes,
                self.comprets == before.comprets,
                self.env() == env,
            decreases packets@[last as int].tnts@.len() - i,
        {
            self.tnts.push_back(packets[last].tnts[i]);
            proof {
                let bits = packets@[last as int].tnts@;
                assert(bits.subrange(0, i + 1) =~= bits.subrange(0, i as int).push(bits[i as int]));
                assert(self.tnts@ =~= tnts0 + bits.subrange(0, i + 1));
            }
            i = i + 1;
        }
        proof {
            let bits = packets@[last as int].tnts@;
            assert(bits.subrange(0, bits.len() as int) =~= bits);
            if known {
                assert(env.packet(st0) == Some(env.taken(last as int, met)));
                assert(self.state() == env.taken(last as int, met).1);
            }
        }
        Ok(pkt)
    }

    /// `self` is the decoder `o` after the search `seek`, which has come
    /// to `r`.
    pub open spec fn sought(&self, o: &Self, seek: Seek, r: Result<PacketHead, IteratorError>) -> bool {
        self.agrees(r, o.env().seek(seek, o.state()))
    }

    /// The search goes on from the decoder `o` as it goes on from `self`.
    pub open spec fn seeks_on(&self, o: &Self, seek: Seek) -> bool {
        o.env().seek(seek, o.state()) is Some ==> o.env().seek(seek, o.state()) == o.env().seek(
            seek,
            self.state(),
        )
    }

    /// Read packets until one has carried decisions.
    pub fn seek_tnt(&mut self) -> (r: Result<(), IteratorError>)
        requires
            old(self).wf(),
        ensures
            final(self).later_than(old(self)),
            match r {
                Ok(()) => final(self).pos > old(self).pos && final(self).tnts@.len() > 0
                    && final(self).packets@[final(self).pos - 1].tnts@.len() > 0,
                Err(e) => final(self).ended_by(e),
            },
            final(self).sought(
                old(self),
                Seek::Tnt,
                match r {
                    Ok(()) => Ok(final(self).packets@[final(self).pos - 1].spec_head()),
                    Err(e) => Err(e),
                },
            ),
    {
        loop
            invariant
                self.later_than(old(self)),
                self.seeks_on(old(self), Seek::Tnt),
            decreases self.packets@.len() - self.pos,
        {
            let ghost before = *self;
            match self.packet() {
                Ok(pkt) => {
                    if pkt.has_tnts {
                        return Ok(());
                    }
                },
                Err(e) => {
                    return Err(e);
                },
            }
            proof {
                assert(self.pos > before.pos);
                assert(old(self).env() == before.env());
            }
        }
    }

    /// Read packets until one has carried a target address, or could have.
    /// Packets that switch tracing off are passed over: where untraced code
    /// starts is of no interest.
    pub fn seek_tip(&mut self) -> (r: Result<(), IteratorError>)
        requires
            old(self).wf(),
        ensures
            final(self).later_than(old(self)),
            match r {
                Ok(()) => {
                    let last = final(self).packets@[final(self).pos - 1];
                    &&& final(self).pos > old(self).pos
                    &&& last.kind.spec_encodes_target_ip()
                    &&& !(last.kind is TIPPGD)
                    &&& match last.target_ip {
                        Some(v) => final(self).loc_of(v) == Some(final(self).cur_loc),
                        None => true,
                    }
                },
                Err(e) => final(self).ended_by(e),
            },
            final(self).sought(
                old(self),
                Seek::Tip,
                match r {
                    Ok(()) => Ok(final(self).packets@[final(self).pos - 1].spec_head()),
                    Err(e) => Err(e),
                },
            ),
    {
        loop
            invariant
                self.later_than(old(self)),
                self.seeks_on(old(self), Seek::Tip),
            decreases self.packets@.len() - self.pos,
        {
            let ghost before = *self;
            match self.packet() {
                Ok(pkt) => {
                    if pkt.kind.encodes_target_ip() && pkt.kind != PacketKind::TIPPGD {
                        return Ok(());
                    }
                },
                Err(e) => {
                    return Err(e);
                },
            }
            proof {
                assert(self.pos > before.pos);
                assert(old(self).env() == before.env());
            }
        }
    }

    /// Does the search for a packet with decisions or a target address end
    /// at a packet with the head `h`? With `skip_ooc`, packets that could
    /// carry an address but do not are passed over; with `skip_pgd`, packets
    /// that switch tracing off are.
    pub open spec fn ends_seek(h: PacketHead, skip_ooc: bool, skip_pgd: bool) -> bool {
        h.has_tnts || (h.kind.spec_encodes_target_ip() && (!(h.kind is TIPPGD) || !skip_pgd) && (
        h.target_ip is Some || !skip_ooc))
    }

    /// Read packets until one has carried decisions or a target address, and
    /// return that packet.
    pub fn seek_tnt_or_tip(&mut self, skip_ooc: bool, skip_pgd: bool) -> (r: Result<
        PacketHead,
        IteratorError,
    >)
        requires
            old(self).wf(),
        ensures
            final(self).later_than(old(self)),
            match r {
                Ok(h) => {
                    &&& final(self).pos > old(self).pos
                    &&& h == final(self).packets@[final(self).pos - 1].spec_head()
                    &&& Self::ends_seek(h, skip_ooc, skip_pgd)
                    &&& match h.target_ip {
                        Some(v) => final(self).loc_of(v) == Some(final(self).cur_loc),
                        None => true,
                    }
                    &&& h.has_tnts ==> final(self).tnts@.len() > 0
                    &&& !h.has_tnts ==> final(self).tnts@ == old(self).tnts@
                },
                Err(e) => final(self).ended_by(e),
            },
            final(self).sought(old(self), Seek::TntOrTip { skip_ooc, skip_pgd }, r),
        decreases old(self).packets@.len() - old(self).pos, 1nat,
    {
        loop
            invariant
                self.later_than(old(self)),
                self.tnts@ == old(self).tnts@,
                self.seeks_on(old(self), Seek::TntOrTip { skip_ooc, skip_pgd }),
            decreases self.packets@.len() - self.pos,
        {
            let ghost before = *self;
            match self.packet() {
                Ok(pkt) => {
                    if pkt.has_tnts || (pkt.kind.encodes_target_ip() && (pkt.kind
                        != PacketKind::TIPPGD || !skip_pgd) && (pkt.target_ip.is_some()
                        || !skip_ooc)) {
                        return Ok(pkt);
                    }
                    proof {
                        assert(self.tnts@ =~= old(self).tnts@);
                    }
                },
                Err(e) => {
                    return Err(e);
                },
            }
            proof {
                assert(self.pos > before.pos);
                assert(old(self).env() == before.env());
            }
        }
    }

    /// Was the return that decoding has reached compressed? A return is
    /// compressed if decisions are waiting, or if the next packet that
    /// matters carries decisions rather than a target address. The decision
    /// that stands for a compressed return is used up. It is an error if a
    /// processor that does not compress returns has compressed one.
    pub fn is_return_compressed(&mut self) -> (r: Result<bool, IteratorError>)
        requires
            old(self).wf(),
        ensures
            final(self).later_than(old(self)),
            match r {
                Ok(c) => {
                    &&& c ==> final(self).compressed_returns
                    &&& old(self).tnts@.len() == 0 ==> final(self).pos > old(self).pos
                    &&& old(self).tnts@.len() > 0 ==> c && final(self).pos == old(self).pos
                        && final(self).tnts@ == old(self).tnts@.subrange(
                        1,
                        old(self).tnts@.len() as int,
                    ) && final(self).cur_loc == old(self).cur_loc && final(self).comprets
                        == old(self).comprets
                    &&& !c ==> {
                        let last = final(self).packets@[final(self).pos - 1];
                        &&& final(self).pos > old(self).pos
                        &&& final(self).tnts@.len() == 0
                        &&& last.target_ip matches Some(v) && final(self).loc_of(v) == Some(
                            final(self).cur_loc,
                        )
                    }
                },
                Err(e) => {
                    &&& final(self).ended_by(e)
                    &&& old(self).tnts@.len() > 0 ==> e == IteratorError::HWTracerError(
                        HWTracerError::Unrecoverable,
                    ) && *final(self) == *old(self)
                },
            },
            old(self).tnts@.len() > 0 ==> (r is Ok <==> old(self).compressed_returns),
            final(self).agrees(r, old(self).env().ret_compressed(old(self).state())),
    {
        let compressed = if self.tnts.len() != 0 {
            true
        } else {
            match self.seek_tnt_or_tip(true, true) {
                Ok(pkt) => pkt.has_tnts,
                Err(e) => {
                    return Err(e);
                },
            }
        };
        if compressed {
            if !self.compressed_returns {
                return Err(IteratorError::HWTracerError(HWTracerError::Unrecoverable));
            }
            self.tnts.pop_front();
        }
        Ok(compressed)
    }

    /// Find where control went from the end of a block that ends in
    /// `num_cond_brs` conditional branches: to `taken_target` if one of them
    /// was taken, else to `not_taken_target`. A decision is used up for
    /// each branch, up to the first that was taken.
    pub fn follow_conditional_successor(&mut self, num_cond_brs: u8, taken_target: usize, not_taken_target: usize) -> (r: Result<usize, IteratorError>)
        requires
            old(self).wf(),
            1 <= num_cond_brs <= 2,
        ensures
            final(self).later_than(old(self)),
            match r {
                Ok(t) => {
                    &&& t == taken_target || t == not_taken_target
                    &&& old(self).tnts@.len() >= num_cond_brs ==> {
                        let taken = first_taken(old(self).tnts@, num_cond_brs as int);
                        &&& final(self).pos == old(self).pos
                        &&& final(self).cur_loc == old(self).cur_loc
                        &&& final(self).comprets == old(self).comprets
                        &&& t == if taken < num_cond_brs {
                            taken_target
                        } else {
                            not_taken_target
                        }
                        &&& final(self).tnts@ == old(self).tnts@.subrange(
                            if taken < num_cond_brs {
                                taken + 1
                            } else {
                                num_cond_brs as int
                            },
                            old(self).tnts@.len() as int,
                        )
                    }
                },
                Err(e) => final(self).ended_by(e) && old(self).tnts@.len() < num_cond_brs,
            },
            final(self).agrees(
                r,
                old(self).env().cond_successor(
                    old(self).state(),
                    num_cond_brs as int,
                    taken_target,
                    not_taken_target,
                ),
            ),
    {
        let ghost tnts0 = self.tnts@;
        let ghost whole = self.env().cond_successor(
            self.state(),
            num_cond_brs as int,
            taken_target,
            not_taken_target,
        );
        let mut taken = false;
        let mut n: u8 = 0;
        proof {
            assert(tnts0.subrange(0, tnts0.len() as int) =~= tnts0);
        }
        while n < num_cond_brs && !taken
            invariant
                n <= num_cond_brs,
                num_cond_brs <= 2,
                tnts0 == old(self).tnts@,
                self.later_than(old(self)),
                whole == old(self).env().cond_successor(
                    old(self).state(),
                    num_cond_brs as int,
                    taken_target,
                    not_taken_target,
                ),
                whole is Some ==> if taken {
                    whole == Some((Ok::<usize, IteratorError>(taken_target), self.state()))
                } else {
                    whole == old(self).env().cond_successor(
                        self.state(),
                        num_cond_brs - n,
                        taken_target,
                        not_taken_target,
                    )
                },
                tnts0.len() >= num_cond_brs ==> {
                    &&& self.pos == old(self).pos
                    &&& self.cur_loc == old(self).cur_loc
                    &&& self.comprets == old(self).comprets
                    &&& self.tnts@ == tnts0.subrange(n as int, tnts0.len() as int)
                    &&& taken ==> n >= 1 && tnts0[n - 1] && forall|i: int|
                        0 <= i < n - 1 ==> !tnts0[i]
                    &&& !taken ==> forall|i: int| 0 <= i < n ==> !tnts0[i]
                },
            decreases num_cond_brs - n, if taken { 0nat } else { 1nat },
        {
            if self.tnts.len() == 0 {
                match self.seek_tnt() {
                    Ok(()) => {},
                    Err(e) => {
                        return Err(e);
                    },
                }
            }
            let bit = self.tnts.pop_front().unwrap();
            proof {
                if tnts0.len() >= num_cond_brs {
                    assert(bit == tnts0[n as int]);
                    assert(self.tnts@ =~= tnts0.subrange(n + 1, tnts0.len() as int));
                }
            }
            if bit {
                taken = true;
            }
            n = n + 1;
        }
        proof {
            if tnts0.len() >= num_cond_brs {
                if taken {
                    lemma_first_taken(tnts0, num_cond_brs as int, n - 1);
                } else {
                    lemma_none_taken(tnts0, num_cond_brs as int);
                }
            }
        }
        if taken {
            Ok(taken_target)
        } else {
            Ok(not_taken_target)
        }
    }

    /// Follow the next call, at or after `b_vaddr`, in the block that the
    /// entry `ent` describes, if there is one. Returns the block in which
    /// the call lands, or `None` if the block has no further call. The
    /// return address joins the stack of compressed returns, unless the call
    /// is a direct call of the instruction after it, whose return a
    /// processor does not compress.
    pub fn maybe_follow_blockmap_call(&mut self, b_vaddr: usize, ent: usize) -> (r: Result<
        Option<Block>,
        IteratorError,
    >)
        requires
            old(self).wf(),
            ent < old(self).blockmap.entries@.len(),
        ensures
            final(self).later_than(old(self)),
            ({
                let call = old(self).blockmap.entries@[ent as int].spec_next_call(b_vaddr, 0);
                match r {
                    Ok(Some(b)) => {
                        &&& call matches Some(c)
                        &&& final(self).at_block(b)
                        &&& match c.target_vaddr {
                            Some(t) => (old(self).yktext.0 <= t && t < old(self).yktext.1) ==> {
                                &&& final(self).pos == old(self).pos
                                &&& final(self).cur_loc == ObjLoc::MainObj(t)
                                &&& b == final(self).blockmap.spec_block(t)
                                &&& final(self).tnts == old(self).tnts
                                &&& final(self).comprets.rets@ == pushed(
                                    old(self).comprets.rets@,
                                    CompRetAddr::AfterCall(c.callsite_vaddr),
                                    !(c.is_direct && t == c.return_vaddr),
                                )
                            },
                            None => final(self).pos > old(self).pos,
                        }
                    },
                    Ok(None) => {
                        &&& call is None
                        &&& final(self).pos == old(self).pos
                        &&& final(self).cur_loc == old(self).cur_loc
                        &&& final(self).tnts == old(self).tnts
                        &&& final(self).comprets == old(self).comprets
                    },
                    Err(e) => {
                        &&& call matches Some(c)
                        &&& final(self).ended_by(e)
                        &&& match c.target_vaddr {
                            Some(t) => !(old(self).yktext.0 <= t && t < old(self).yktext.1),
                            None => true,
                        }
                    },
                }
            }),
            final(self).agrees(
                r,
                old(self).env().blockmap_call(old(self).state(), b_vaddr, ent as int),
            ),
    {
        let call_info = match self.blockmap.entries[ent].next_call(b_vaddr) {
            Some(c) => c,
            None => {
                return Ok(None);
            },
        };
        match call_info.target_vaddr {
            Some(target_vaddr) => {
                if !call_info.is_direct || target_vaddr != call_info.return_vaddr {
                    self.comprets.push(CompRetAddr::AfterCall(call_info.callsite_vaddr));
                }
                if self.yktext.0 <= target_vaddr && target_vaddr < self.yktext.1 {
                    self.cur_loc = ObjLoc::MainObj(target_vaddr);
                    match self.lookup_block_by_vaddr(target_vaddr) {
                        Ok(b) => Ok(Some(b)),
                        Err(e) => Err(e),
                    }
                } else {
                    // The callee is not traced: look for the packet that
                    // says where decoding goes on.
                    match self.seek_tip() {
                        Ok(()) => Ok(Some(self.block_here())),
                        Err(e) => Err(e),
                    }
                }
            },
            None => {
                self.comprets.push(CompRetAddr::AfterCall(call_info.callsite_vaddr));
                match self.seek_tip() {
                    Ok(()) => Ok(Some(self.block_here())),
                    Err(e) => Err(e),
                }
            },
        }
    }

    /// Follow the successor of the block that the entry `ent` describes.
    pub fn follow_blockmap_successor(&mut self, ent: usize) -> (r: Result<Block, IteratorError>)
        requires
            old(self).wf(),
            ent < old(self).blockmap.entries@.len(),
        ensures
            final(self).later_than(old(self)),
            match r {
                Ok(b) => {
                    &&& final(self).at_block(b)
                    &&& match old(self).blockmap.entries@[ent as int].successor {
                        SuccessorKind::Unconditional { target } => {
                            &&& final(self).cur_loc == ObjLoc::MainObj(target)
                            &&& b == final(self).blockmap.spec_block(target)
                            &&& final(self).pos == old(self).pos
                            &&& final(self).tnts == old(self).tnts
                            &&& final(self).comprets == old(self).comprets
                        },
                        SuccessorKind::Conditional { num_cond_brs, taken_target, not_taken_target } => {
                            &&& final(self).cur_loc == ObjLoc::MainObj(taken_target)
                                || final(self).cur_loc == ObjLoc::MainObj(not_taken_target)
                            &&& b == final(self).blockmap.spec_block(final(self).cur_loc->MainObj_0)
                            &&& old(self).tnts@.len() >= num_cond_brs ==> {
                                let taken = first_taken(old(self).tnts@, num_cond_brs as int);
                                &&& final(self).pos == old(self).pos
                                &&& final(self).comprets == old(self).comprets
                                &&& final(self).cur_loc == ObjLoc::MainObj(
                                    if taken < num_cond_brs {
                                        taken_target
                                    } else {
                                        not_taken_target
                                    },
                                )
                                &&& final(self).tnts@ == old(self).tnts@.subrange(
                                    if taken < num_cond_brs {
                                        taken + 1
                                    } else {
                                        num_cond_brs as int
                                    },
                                    old(self).tnts@.len() as int,
                                )
                            }
                        },
                        SuccessorKind::Return => if old(self).tnts@.len() > 0 {
                            // The return is compressed: it leads to where the
                            // call that was followed last came from.
                            &&& old(self).compressed_returns
                            &&& old(self).comprets.rets@.len() > 0
                            &&& final(self).pos == old(self).pos
                            &&& final(self).tnts@ == old(self).tnts@.subrange(
                                1,
                                old(self).tnts@.len() as int,
                            )
                            &&& final(self).comprets.rets@ == old(self).comprets.rets@.drop_last()
                            &&& final(self).cur_loc == ObjLoc::MainObj(
                                ret_addr(old(self).comprets.rets@.last()),
                            )
                            &&& b == final(self).blockmap.spec_block(
                                next_addr(ret_addr(old(self).comprets.rets@.last())),
                            )
                        } else {
                            final(self).pos > old(self).pos
                        },
                        SuccessorKind::Dynamic => final(self).pos > old(self).pos,
                    }
                },
                Err(e) => {
                    &&& final(self).ended_by(e)
                    &&& match old(self).blockmap.entries@[ent as int].successor {
                        SuccessorKind::Unconditional { .. } => false,
                        SuccessorKind::Conditional { num_cond_brs, .. } => old(self).tnts@.len()
                            < num_cond_brs,
                        _ => true,
                    }
                    &&& old(self).blockmap.entries@[ent as int].successor is Return && old(
                        self,
                    ).tnts@.len() > 0 ==> e == IteratorError::HWTracerError(
                        HWTracerError::Unrecoverable,
                    ) && (!old(self).compressed_returns || old(self).comprets.rets@.len() == 0)
                },
            },
            old(self).blockmap.entries@[ent as int].successor is Return && old(self).tnts@.len() > 0
                ==> (r is Ok <==> old(self).compressed_returns && old(self).comprets.rets@.len()
                > 0),
            final(self).agrees(r, old(self).env().blockmap_successor(old(self).state(), ent as int)),
    {
        match self.blockmap.entries[ent].successor {
            SuccessorKind::Unconditional { target } => {
                self.cur_loc = ObjLoc::MainObj(target);
                self.lookup_block_by_vaddr(target)
            },
            SuccessorKind::Conditional { num_cond_brs, taken_target, not_taken_target } => {
                let target_vaddr = match self.follow_conditional_successor(
                    num_cond_brs,
                    taken_target,
                    not_taken_target,
                ) {
                    Ok(t) => t,
                    Err(e) => {
                        return Err(e);
                    },
                };
                self.cur_loc = ObjLoc::MainObj(target_vaddr);
                self.lookup_block_by_vaddr(target_vaddr)
            },
            SuccessorKind::Return => {
                let compressed = match self.is_return_compressed() {
                    Ok(c) => c,
                    Err(e) => {
                        return Err(e);
                    },
                };
                if compressed {
                    let vaddr = match self.comprets.pop() {
                        Some(CompRetAddr::AfterCall(vaddr)) => vaddr.wrapping_add(1),
                        Some(CompRetAddr::VAddr(vaddr)) => vaddr,
                        None => {
                            return Err(IteratorError::HWTracerError(HWTracerError::Unrecoverable));
                        },
                    };
                    self.cur_loc = ObjLoc::MainObj(vaddr);
                    self.lookup_block_by_vaddr(vaddr.wrapping_add(1))
                } else {
                    // The packet that said that the return was not compressed
                    // has said where it went.
                    Ok(self.block_here())
                }
            },
            SuccessorKind::Dynamic => {
                match self.seek_tip() {
                    Ok(()) => Ok(self.block_here()),
                    Err(e) => Err(e),
                }
            },
        }
    }
}

/// The address that the return address `r` stands for: the address itself,
/// or the address after the call.
pub open spec fn ret_addr(r: CompRetAddr) -> usize {
    match r {
        CompRetAddr::VAddr(v) => v,
        CompRetAddr::AfterCall(v) => next_addr(v),
    }
}

/// The stack `rets` after `ret` has been pushed, if `push` says so.
pub open spec fn pushed(rets: Seq<CompRetAddr>, ret: CompRetAddr, push: bool) -> Seq<CompRetAddr> {
    if !push {
        rets
    } else if rets.len() == PT_MAX_COMPRETS {
        rets.subrange(1, PT_MAX_COMPRETS as int).push(ret)
    } else {
        rets.push(ret)
    }
}

/// The position of the first of the first `n` decisions of `tnts` that is
/// "taken"; `n` if none of them is.
pub open spec fn first_taken(tnts: Seq<bool>, n: int) -> int
    decreases n,
{
    if n <= 0 {
        0
    } else {
        let before = first_taken(tnts, n - 1);
        if before < n - 1 {
            before
        } else if tnts[n - 1] {
            n - 1
        } else {
            n
        }
    }
}

/// The first taken decision among `n` is the first position at which a
/// decision is taken.
pub proof fn lemma_first_taken(tnts: Seq<bool>, n: int, k: int)
    requires
        0 <= k < n <= tnts.len(),
        forall|i: int| 0 <= i < k ==> !tnts[i],
    ensures
        tnts[k] ==> first_taken(tnts, n) == k,
        !tnts[k] ==> first_taken(tnts, n) >= k + 1,
        first_taken(tnts, n) >= k,
    decreases n,
{
    if n - 1 > k {
        lemma_first_taken(tnts, n - 1, k);
    } else {
        lemma_none_taken(tnts, k);
    }
}

/// Where none of the first `n` decisions is taken, the first taken one is
/// not among them.
pub proof fn lemma_none_taken(tnts: Seq<bool>, n: int)
    requires
        0 <= n <= tnts.len(),
        forall|i: int| 0 <= i < n ==> !tnts[i],
    ensures
        first_taken(tnts, n) == n,
    decreases n,
{
    if n > 0 {
        lemma_none_taken(tnts, n - 1);
    }
}

} // verus!
