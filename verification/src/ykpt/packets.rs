//! The packets of a processor trace, as far as the decoder reads them.

use vstd::prelude::*;

verus! {

/// The kinds of packets.
#[derive(Debug, Clone, Copy, PartialEq, Eq, Structural)]
pub enum PacketKind {
    /// The start of a synchronisation sequence.
    PSB,
    /// The end of a synchronisation sequence.
    PSBEND,
    /// Padding.
    PAD,
    /// The execution mode has changed.
    MODEExec,
    /// The transactional state has changed.
    MODETSX,
    /// Tracing has been switched on, at the target address.
    TIPPGE,
    /// Tracing has been switched off.
    TIPPGD,
    /// Control has gone to the target address.
    TIP,
    /// The address at which something outside the flow of control happened.
    FUP,
    /// Which conditional branches were taken: up to six of them.
    ShortTNT,
    /// Which conditional branches were taken: up to 47 of them.
    LongTNT,
    /// The core's frequency has changed.
    CBR,
    /// Cycles have passed.
    CYC,
    /// The processor could not keep up, and packets are missing.
    OVF,
}

impl PacketKind {
    pub open spec fn spec_encodes_target_ip(self) -> bool {
        self is TIPPGE || self is TIPPGD || self is TIP || self is FUP
    }

    pub open spec fn spec_is_mode(self) -> bool {
        self is MODEExec || self is MODETSX
    }

    /// Does a packet of this kind carry a target address?
    pub fn encodes_target_ip(&self) -> (r: bool)
        ensures
            r == self.spec_encodes_target_ip(),
    {
        match self {
            PacketKind::TIPPGE | PacketKind::TIPPGD | PacketKind::TIP | PacketKind::FUP => true,
            _ => false,
        }
    }

    /// Is this one of the kinds of mode packets?
    pub fn is_mode(&self) -> (r: bool)
        ensures
            r == self.spec_is_mode(),
    {
        match self {
            PacketKind::MODEExec | PacketKind::MODETSX => true,
            _ => false,
        }
    }
}

/// A packet.
#[derive(Debug)]
pub struct Packet {
    pub kind: PacketKind,
    /// The target address that the packet carries. A packet of a kind that
    /// carries one may still come without, when the address is out of
    /// context.
    pub target_ip: Option<usize>,
    /// The decisions that the packet carries: for each conditional branch,
    /// in order, whether it was taken.
    pub tnts: Vec<bool>,
}

/// What the decoder remembers of a packet once it has taken in what the
/// packet carries.
#[derive(Debug, Clone, Copy, PartialEq, Eq, Structural)]
pub struct PacketHead {
    pub kind: PacketKind,
    pub target_ip: Option<usize>,
    /// Did the packet carry decisions?
    pub has_tnts: bool,
}

impl Packet {
    /// Only packets of the two decision kinds carry decisions, and they
    /// carry one at least; only packets of the kinds that carry a target
    /// address carry one.
    pub open spec fn wf(&self) -> bool {
        &&& (self.kind is ShortTNT || self.kind is LongTNT) <==> self.tnts@.len() > 0
        &&& self.target_ip is Some ==> self.kind.spec_encodes_target_ip()
    }

    pub open spec fn spec_head(&self) -> PacketHead {
        PacketHead { kind: self.kind, target_ip: self.target_ip, has_tnts: self.tnts@.len() > 0 }
    }

    /// A packet that carries neither an address nor decisions.
    pub fn plain(kind: PacketKind) -> (p: Self)
        ensures
            p.kind == kind,
            p.target_ip is None,
            p.tnts@.len() == 0,
    {
        Packet { kind, target_ip: None, tnts: Vec::new() }
    }

    /// A packet of kind `kind` that carries the target address `vaddr`.
    pub fn with_target(kind: PacketKind, vaddr: usize) -> (p: Self)
        ensures
            p.kind == kind,
            p.target_ip == Some(vaddr),
            p.tnts@.len() == 0,
    {
        Packet { kind, target_ip: Some(vaddr), tnts: Vec::new() }
    }

    /// A packet that carries the decisions `tnts`.
    pub fn tnt(tnts: Vec<bool>) -> (p: Self)
        ensures
            p.kind == if tnts@.len() <= 6 {
                PacketKind::ShortTNT
            } else {
                PacketKind::LongTNT
            },
            p.target_ip is None,
            p.tnts == tnts,
    {
        let kind = if tnts.len() <= 6 {
            PacketKind::ShortTNT
        } else {
            PacketKind::LongTNT
        };
        Packet { kind, target_ip: None, tnts }
    }

    /// What the decoder remembers of the packet.
    pub fn head(&self) -> (h: PacketHead)
        ensures
            h == self.spec_head(),
    {
        PacketHead { kind: self.kind, target_ip: self.target_ip, has_tnts: self.tnts.len() > 0 }
    }
}

} // verus!
