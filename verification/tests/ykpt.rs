use yk::block::Block;
use yk::ykpt::decode::{
    BlockIteratorError, CompRetAddr, CompressedReturns, HWTracerError, IteratorError, ObjLoc,
    TemporaryErrorKind, YkPTBlockIterator, PT_MAX_COMPRETS,
};
use yk::ykpt::foreign::{is_ret_near, map_next, DecodedInst, FlowKind};
use yk::ykpt::maps::{
    BlockMap, BlockMapEntry, CallInfo, CodeSegs, ObjMap, RangeMap, SuccessorKind,
};
use yk::ykpt::packets::{Packet, PacketKind};

const F_ENTRY: usize = 0x1000;
const F_CALL: usize = 0x100f;
const F_AFTER_CALL: usize = 0x1010;
const G_ENTRY: usize = 0x2000;
const LOOP_HEAD: usize = 0x2800;
const FOREIGN: usize = 0x5000;

/// Foreign code:
/// ```text
/// 5000: nop
/// 5001: je 5006
/// 5003: syscall
/// 5005: ret
/// 5006: call 500d
/// 500b: jmp rax
/// 500d: ret
/// 500e: call rax
/// ```
const FOREIGN_CODE: [u8; 16] = [
    0x90, 0x74, 0x03, 0x0f, 0x05, 0xc3, 0xe8, 0x02, 0x00, 0x00, 0x00, 0xff, 0xe0, 0xc3, 0xff, 0xd0,
];

struct Tables {
    blockmap: BlockMap,
    objs: ObjMap,
    segs: CodeSegs,
}

/// The tables of a program whose function `f` calls the function `g`
/// through a pointer, and then returns; with a loop, and with a library of
/// which the compiler knows nothing.
fn tables() -> Tables {
    let entry = |call_vaddrs, successor| BlockMapEntry {
        call_vaddrs,
        successor,
    };
    let blockmap = BlockMap::new(
        &vec![
            (F_ENTRY, F_AFTER_CALL),
            (F_AFTER_CALL, 0x1020),
            (G_ENTRY, 0x2010),
            (LOOP_HEAD, 0x2810),
            (0x2810, 0x2820),
            (0x2820, 0x2830),
        ],
        vec![
            entry(
                vec![CallInfo {
                    callsite_vaddr: F_CALL,
                    return_vaddr: F_AFTER_CALL,
                    target_vaddr: None,
                    is_direct: false,
                }],
                SuccessorKind::Unconditional {
                    target: F_AFTER_CALL,
                },
            ),
            entry(vec![], SuccessorKind::Dynamic),
            entry(vec![], SuccessorKind::Return),
            entry(
                vec![],
                SuccessorKind::Conditional {
                    num_cond_brs: 1,
                    taken_target: 0x2810,
                    not_taken_target: 0x2820,
                },
            ),
            entry(
                vec![CallInfo {
                    callsite_vaddr: 0x2814,
                    return_vaddr: 0x2819,
                    target_vaddr: Some(G_ENTRY),
                    is_direct: true,
                }],
                SuccessorKind::Unconditional { target: LOOP_HEAD },
            ),
            entry(
                vec![],
                SuccessorKind::Conditional {
                    num_cond_brs: 2,
                    taken_target: LOOP_HEAD,
                    not_taken_target: F_ENTRY,
                },
            ),
        ],
    )
    .unwrap();
    let objs = ObjMap::new(
        &vec![(0x1000, 0x4000), (FOREIGN, 0x6000)],
        vec![true, false],
    )
    .unwrap();
    let segs = CodeSegs::new(&vec![(FOREIGN, FOREIGN + 16)], vec![FOREIGN_CODE.to_vec()]).unwrap();
    Tables {
        blockmap,
        objs,
        segs,
    }
}

fn decoder<'t>(t: &'t Tables, packets: &'t Vec<Packet>) -> YkPTBlockIterator<'t> {
    YkPTBlockIterator::new(
        packets,
        &t.blockmap,
        &t.objs,
        &t.segs,
        (0x1000, 0x4000),
        true,
        1000,
    )
}

fn tip(vaddr: usize) -> Packet {
    Packet::with_target(PacketKind::TIP, vaddr)
}

fn blocks(it: &mut YkPTBlockIterator) -> Vec<Result<Block, BlockIteratorError>> {
    let mut out = Vec::new();
    while let Some(b) = it.next() {
        let stop = b.is_err();
        out.push(b);
        if stop {
            break;
        }
    }
    out
}

fn range(first: usize, last: usize) -> Result<Block, BlockIteratorError> {
    Ok(Block::from_vaddr_range(first, last))
}

#[test]
fn compressed_returns_lead_back_behind_the_call() {
    let t = tables();
    let packets = vec![
        tip(F_ENTRY),
        Packet::tnt(vec![false, true]),
        tip(G_ENTRY),
        Packet::tnt(vec![true, false]),
    ];
    let mut it = decoder(&t, &packets);
    assert_eq!(it.next(), Some(range(F_ENTRY, F_AFTER_CALL)));
    assert_eq!(it.cur_loc, ObjLoc::MainObj(F_ENTRY));
    assert_eq!(it.next(), Some(range(G_ENTRY, 0x2010)));
    assert_eq!(it.comprets.rets, vec![CompRetAddr::AfterCall(F_CALL)]);
    assert_eq!(it.tnts, vec![false, true]);
    assert_eq!(it.next(), Some(range(F_AFTER_CALL, 0x1020)));
    assert!(it.comprets.rets.is_empty());
    assert_eq!(it.tnts, vec![true]);
    assert_eq!(it.cur_loc, ObjLoc::MainObj(F_AFTER_CALL));
    assert_eq!(it.next(), None);
    assert_eq!(it.pos, packets.len());
    assert_eq!(it.next(), None);
}

#[test]
fn a_return_that_is_not_compressed_follows_its_packet() {
    let t = tables();
    let packets = vec![tip(F_ENTRY), tip(G_ENTRY), tip(LOOP_HEAD)];
    let mut it = decoder(&t, &packets);
    assert_eq!(
        blocks(&mut it),
        vec![
            range(F_ENTRY, F_AFTER_CALL),
            range(G_ENTRY, 0x2010),
            range(LOOP_HEAD, 0x2810),
        ]
    );
    // The return address that was not used is still there.
    assert_eq!(it.comprets.rets, vec![CompRetAddr::AfterCall(F_CALL)]);
}

#[test]
fn a_processor_that_does_not_compress_must_not_compress() {
    let t = tables();
    let packets = vec![
        tip(F_ENTRY),
        Packet::tnt(vec![true]),
        tip(G_ENTRY),
    ];
    let mut it = YkPTBlockIterator::new(
        &packets,
        &t.blockmap,
        &t.objs,
        &t.segs,
        (0x1000, 0x4000),
        false,
        1000,
    );
    assert_eq!(
        blocks(&mut it),
        vec![
            range(F_ENTRY, F_AFTER_CALL),
            range(G_ENTRY, 0x2010),
            Err(BlockIteratorError::HWTracerError(
                HWTracerError::Unrecoverable
            )),
        ]
    );
}

#[test]
fn decisions_choose_between_the_successors() {
    let t = tables();
    // Round the loop twice, by way of the call of `g`, and out: the block
    // at the end takes two decisions.
    let packets = vec![
        tip(LOOP_HEAD),
        Packet::tnt(vec![true, true, true, true, false, false, true]),
        Packet::tnt(vec![false]),
        Packet::tnt(vec![false, false]),
    ];
    let mut it = decoder(&t, &packets);
    let head = range(LOOP_HEAD, 0x2810);
    let body = range(0x2810, 0x2820);
    let g = range(G_ENTRY, 0x2010);
    let tail = range(0x2820, 0x2830);
    assert_eq!(
        blocks(&mut it),
        vec![
            head, body, g, body, head, body, g, body, head, tail, head, tail,
            range(F_ENTRY, F_AFTER_CALL),
        ]
    );
    assert_eq!(it.pos, packets.len());
    assert!(it.tnts.is_empty());
}

#[test]
fn foreign_code_is_disassembled() {
    let t = tables();
    // The jump is taken, the call returns compressed, and the jump through
    // the register leads back into the program.
    let packets = vec![
        tip(FOREIGN),
        Packet::tnt(vec![true]),
        Packet::tnt(vec![true]),
        tip(G_ENTRY),
    ];
    let mut it = decoder(&t, &packets);
    assert_eq!(it.next(), Some(range(G_ENTRY, 0x2010)));
    assert_eq!(it.cur_loc, ObjLoc::MainObj(G_ENTRY));
    assert!(it.comprets.rets.is_empty());
    assert_eq!(it.pos, 4);

    // The jump is not taken; the return is not compressed.
    let packets = vec![tip(FOREIGN), Packet::tnt(vec![false]), tip(F_AFTER_CALL)];
    let mut it = decoder(&t, &packets);
    assert_eq!(it.next(), Some(range(F_AFTER_CALL, 0x1020)));

    // The call through the register notes where it returns to.
    let mut it = decoder(&t, &packets);
    it.pos = 2;
    assert_eq!(it.disassemble(FOREIGN + 0xe), Ok(Block::from_vaddr_range(F_AFTER_CALL, 0x1020)));
    assert_eq!(it.comprets.rets, vec![CompRetAddr::VAddr(FOREIGN + 0x10)]);

    // No more instructions are followed than are allowed.
    let packets = vec![
        tip(FOREIGN),
        Packet::tnt(vec![true]),
        Packet::tnt(vec![true]),
        tip(G_ENTRY),
    ];
    for (fuel, found) in [(0, false), (5, false), (6, true)] {
        let mut it =
            YkPTBlockIterator::new(&packets, &t.blockmap, &t.objs, &t.segs, (0, 0), true, fuel);
        let r = it.disassemble(FOREIGN);
        if found {
            assert_eq!(r, Ok(Block::from_vaddr_range(G_ENTRY, 0x2010)));
        } else {
            assert_eq!(
                r,
                Err(IteratorError::HWTracerError(HWTracerError::Unrecoverable))
            );
        }
    }

    // Code that is nowhere.
    let mut it = decoder(&t, &packets);
    assert_eq!(it.disassemble(0x9000), Err(IteratorError::NoSuchVAddr));
    assert_eq!(it.disassemble(FOREIGN + 0x100), Err(IteratorError::NoSuchVAddr));
}

#[test]
fn code_of_the_program_that_is_not_described_is_unknown() {
    let t = tables();
    let packets = vec![tip(0x3000), tip(G_ENTRY)];
    let mut it = decoder(&t, &packets);
    // There is no code to disassemble at the address either.
    assert_eq!(
        it.next(),
        Some(Err(BlockIteratorError::NoSuchVAddr))
    );
    let mut it = decoder(&t, &packets);
    it.cur_loc = ObjLoc::MainObj(0x3000);
    assert_eq!(it.next(), Some(Ok(Block::Unknown)));
    assert_eq!(it.cur_loc, ObjLoc::OtherObjOrUnknown(Some(0x3000)));
    assert_eq!(it.lookup_block_by_vaddr(0x3000), Ok(Block::Unknown));
    assert_eq!(
        it.lookup_block_by_vaddr(0x2005),
        Ok(Block::from_vaddr_range(G_ENTRY, 0x2010))
    );
    assert_eq!(it.lookup_blockmap_entry(0x2005), Some(2));
    assert_eq!(it.lookup_blockmap_entry(0x2010), None);
    assert_eq!(it.vaddr_to_loc(0x2005), Ok(ObjLoc::MainObj(0x2005)));
    assert_eq!(
        it.vaddr_to_loc(0x5005),
        Ok(ObjLoc::OtherObjOrUnknown(Some(0x5005)))
    );
    assert_eq!(it.vaddr_to_loc(0x4000), Err(IteratorError::NoSuchVAddr));
}

#[test]
fn lost_packets_end_decoding() {
    let t = tables();
    let packets = vec![tip(F_ENTRY), Packet::plain(PacketKind::OVF), tip(G_ENTRY)];
    let mut it = decoder(&t, &packets);
    assert_eq!(
        blocks(&mut it),
        vec![
            range(F_ENTRY, F_AFTER_CALL),
            Err(BlockIteratorError::HWTracerError(HWTracerError::Temporary(
                TemporaryErrorKind::TraceBufferOverflow
            ))),
        ]
    );
}

#[test]
fn an_interruption_is_passed_over_if_tracing_was_switched_off_and_on() {
    let t = tables();
    let packets = vec![
        tip(F_ENTRY),
        Packet::with_target(PacketKind::FUP, 0x1004),
        Packet::with_target(PacketKind::TIPPGD, 0x5000),
        Packet::with_target(PacketKind::TIPPGE, 0x1004),
        tip(G_ENTRY),
    ];
    let mut it = decoder(&t, &packets);
    assert_eq!(
        blocks(&mut it),
        vec![range(F_ENTRY, F_AFTER_CALL), range(G_ENTRY, 0x2010)]
    );
    let packets = vec![
        tip(F_ENTRY),
        Packet::with_target(PacketKind::FUP, 0x1004),
        tip(G_ENTRY),
    ];
    let mut it = decoder(&t, &packets);
    assert_eq!(
        blocks(&mut it),
        vec![
            range(F_ENTRY, F_AFTER_CALL),
            Err(BlockIteratorError::HWTracerError(HWTracerError::Temporary(
                TemporaryErrorKind::TraceInterrupted
            ))),
        ]
    );
    // After a change of mode the packet belongs to it, and says where the
    // processor is: in the first block still.
    let packets = vec![
        tip(F_ENTRY),
        Packet::plain(PacketKind::MODEExec),
        Packet::with_target(PacketKind::FUP, 0x1004),
        tip(G_ENTRY),
    ];
    let mut it = decoder(&t, &packets);
    assert_eq!(
        blocks(&mut it),
        vec![
            range(F_ENTRY, F_AFTER_CALL),
            range(F_ENTRY, F_AFTER_CALL),
            range(G_ENTRY, 0x2010)
        ]
    );
}

#[test]
fn a_synchronisation_sequence_resets_the_decoder() {
    let t = tables();
    let packets = vec![
        Packet::plain(PacketKind::PSB),
        Packet::plain(PacketKind::MODEExec),
        Packet::with_target(PacketKind::FUP, F_ENTRY),
        Packet::plain(PacketKind::PSBEND),
        tip(F_ENTRY),
        Packet::plain(PacketKind::PSB),
        Packet::plain(PacketKind::PSBEND),
        Packet::plain(PacketKind::PAD),
        tip(G_ENTRY),
    ];
    let mut it = decoder(&t, &packets);
    assert_eq!(it.next(), Some(range(F_ENTRY, F_AFTER_CALL)));
    assert_eq!(it.next(), Some(range(G_ENTRY, 0x2010)));
    // The return address of the call went with the synchronisation.
    assert!(it.comprets.rets.is_empty());
    assert_eq!(it.next(), None);
}

#[test]
fn the_stack_of_compressed_returns_holds_sixty_four() {
    assert_eq!(PT_MAX_COMPRETS, 64);
    let mut s = CompressedReturns::new();
    assert_eq!(s.pop(), None);
    for i in 0..100 {
        s.push(CompRetAddr::VAddr(i));
        assert!(s.rets.len() <= 64);
    }
    assert_eq!(s.rets.len(), 64);
    assert_eq!(s.rets[0], CompRetAddr::VAddr(36));
    assert_eq!(s.pop(), Some(CompRetAddr::VAddr(99)));
    assert_eq!(s.pop(), Some(CompRetAddr::VAddr(98)));
    assert_eq!(s.rets.len(), 62);
    s.push(CompRetAddr::AfterCall(7));
    assert_eq!(s.pop(), Some(CompRetAddr::AfterCall(7)));
}

#[test]
fn a_deep_recursion_forgets_its_oldest_returns() {
    // A block that calls itself, a hundred times over.
    let blockmap = BlockMap::new(
        &vec![(0x1000, 0x1010)],
        vec![BlockMapEntry {
            call_vaddrs: vec![CallInfo {
                callsite_vaddr: 0x1008,
                return_vaddr: 0x100d,
                target_vaddr: Some(0x1000),
                is_direct: true,
            }],
            successor: SuccessorKind::Return,
        }],
    )
    .unwrap();
    let objs = ObjMap::new(&vec![(0x1000, 0x2000)], vec![true]).unwrap();
    let segs = CodeSegs::new(&vec![], vec![]).unwrap();
    let packets = vec![tip(0x1000)];
    let mut it =
        YkPTBlockIterator::new(&packets, &blockmap, &objs, &segs, (0x1000, 0x2000), true, 10);
    for _ in 0..100 {
        assert_eq!(it.next(), Some(range(0x1000, 0x1010)));
        assert!(it.comprets.rets.len() <= 64);
    }
    assert_eq!(it.comprets.rets.len(), 64);
}

#[test]
fn ranges_are_found_by_the_addresses_in_them() {
    let m = RangeMap::new(&vec![(10, 20), (30, 40), (20, 30), (50, 50)]).unwrap();
    assert_eq!(m.len(), 4);
    assert_eq!(m.range(2), (20, 30));
    assert_eq!(m.find(9), None);
    assert_eq!(m.find(10), Some(0));
    assert_eq!(m.find(19), Some(0));
    assert_eq!(m.find(20), Some(2));
    assert_eq!(m.find(30), Some(1));
    assert_eq!(m.find(40), None);
    assert_eq!(m.find(50), None);
    assert!(RangeMap::new(&vec![(10, 20), (19, 25)]).is_none());
    assert!(RangeMap::new(&vec![(10, 20), (12, 13)]).is_none());
    assert!(RangeMap::new(&vec![]).is_some());
    let t = tables();
    assert_eq!(t.objs.is_main(0x1000), Some(true));
    assert_eq!(t.objs.is_main(0x5fff), Some(false));
    assert_eq!(t.objs.is_main(0x6000), None);
    assert_eq!(t.segs.seg(0x500f), Some(0));
    assert_eq!(t.segs.seg(0x5010), None);
    assert_eq!(t.blockmap.lookup(0x2815), Some(4));
    assert!(ObjMap::new(&vec![(0, 1)], vec![]).is_none());
    assert!(CodeSegs::new(&vec![(0, 2)], vec![vec![0]]).is_none());
    assert!(BlockMap::new(
        &vec![(0, 2)],
        vec![BlockMapEntry {
            call_vaddrs: vec![],
            successor: SuccessorKind::Conditional {
                num_cond_brs: 3,
                taken_target: 0,
                not_taken_target: 0
            }
        }]
    )
    .is_none());
}

#[test]
fn the_next_call_of_a_block_is_the_first_at_or_after_the_address() {
    let call = |callsite_vaddr| CallInfo {
        callsite_vaddr,
        return_vaddr: callsite_vaddr + 5,
        target_vaddr: None,
        is_direct: false,
    };
    let e = BlockMapEntry {
        call_vaddrs: vec![call(10), call(20), call(30)],
        successor: SuccessorKind::Return,
    };
    assert_eq!(e.next_call(0), Some(call(10)));
    assert_eq!(e.next_call(10), Some(call(10)));
    assert_eq!(e.next_call(11), Some(call(20)));
    assert_eq!(e.next_call(30), Some(call(30)));
    assert_eq!(e.next_call(31), None);
}

#[test]
fn packets_say_what_they_carry() {
    assert_eq!(Packet::tnt(vec![true; 6]).kind, PacketKind::ShortTNT);
    assert_eq!(Packet::tnt(vec![true; 7]).kind, PacketKind::LongTNT);
    assert!(Packet::tnt(vec![true]).head().has_tnts);
    let p = tip(5);
    assert_eq!(p.head().target_ip, Some(5));
    assert!(!p.head().has_tnts);
    for k in [
        PacketKind::TIP,
        PacketKind::TIPPGE,
        PacketKind::TIPPGD,
        PacketKind::FUP,
    ] {
        assert!(k.encodes_target_ip());
        assert!(!k.is_mode());
    }
    for k in [PacketKind::MODEExec, PacketKind::MODETSX] {
        assert!(k.is_mode());
        assert!(!k.encodes_target_ip());
    }
    for k in [
        PacketKind::PSB,
        PacketKind::PSBEND,
        PacketKind::PAD,
        PacketKind::ShortTNT,
        PacketKind::LongTNT,
        PacketKind::CBR,
        PacketKind::CYC,
        PacketKind::OVF,
    ] {
        assert!(!k.encodes_target_ip());
        assert!(!k.is_mode());
    }
}

#[test]
fn the_end_of_the_packets_is_the_end_of_the_trace() {
    assert_eq!(map_next(Err(IteratorError::NoMorePackets)), None);
    assert_eq!(
        map_next(Err(IteratorError::NoSuchVAddr)),
        Some(Err(BlockIteratorError::NoSuchVAddr))
    );
    assert_eq!(
        map_next(Err(IteratorError::HWTracerError(
            HWTracerError::Unrecoverable
        ))),
        Some(Err(BlockIteratorError::HWTracerError(
            HWTracerError::Unrecoverable
        )))
    );
    assert_eq!(map_next(Ok(Block::Unknown)), Some(Ok(Block::Unknown)));
    assert_eq!(ObjLoc::MainObj(7).vaddr(), 7);
}

#[test]
fn returns_are_near_or_far() {
    let inst = |code| DecodedInst {
        flow: 4,
        next_ip: 0,
        near_target: 0,
        op0_kind: 0,
        code,
    };
    assert_eq!(is_ret_near(&inst(391)), Some(true));
    assert_eq!(is_ret_near(&inst(396)), Some(true));
    assert_eq!(is_ret_near(&inst(414)), Some(false));
    assert_eq!(is_ret_near(&inst(419)), Some(false));
    assert_eq!(is_ret_near(&inst(390)), None);
    assert_eq!(is_ret_near(&inst(400)), None);
    assert_eq!(FlowKind::from_code(0), Some(FlowKind::Next));
    assert_eq!(FlowKind::from_code(4), Some(FlowKind::Return));
    assert_eq!(FlowKind::from_code(6), Some(FlowKind::IndirectCall));
    assert_eq!(FlowKind::from_code(9), Some(FlowKind::Exception));
    assert_eq!(FlowKind::from_code(10), None);
}

#[test]
fn an_instruction_is_followed_as_it_passes_control_on() {
    let t = tables();
    let packets = vec![tip(G_ENTRY), Packet::tnt(vec![false])];
    let mut it = decoder(&t, &packets);
    let inst = |flow, op0_kind, code| DecodedInst {
        flow,
        next_ip: 0x5005,
        near_target: 0x5100,
        op0_kind,
        code,
    };
    let unrecoverable = Err(IteratorError::HWTracerError(HWTracerError::Unrecoverable));
    // The next instruction; a jump; a far jump.
    assert_eq!(it.follow(&inst(0, 0, 0)), Ok(0x5005));
    assert_eq!(it.follow(&inst(1, 3, 0)), Ok(0x5100));
    assert_eq!(it.follow(&inst(1, 4, 0)), unrecoverable);
    // A call, a call of the kernel, a call of the next instruction.
    assert_eq!(it.follow(&inst(5, 2, 0)), Ok(0x5100));
    assert_eq!(it.comprets.rets, vec![CompRetAddr::VAddr(0x5005)]);
    assert_eq!(it.follow(&inst(5, 0, 870)), Ok(0x5005));
    let mut to_next = inst(5, 3, 0);
    to_next.near_target = 0x5005;
    assert_eq!(it.follow(&to_next), Ok(0x5005));
    assert_eq!(it.comprets.rets, vec![CompRetAddr::VAddr(0x5005)]);
    // A conditional jump with its decision waiting.
    it.tnts.push_back(true);
    it.tnts.push_back(false);
    it.tnts.push_back(true);
    assert_eq!(it.follow(&inst(3, 1, 0)), Ok(0x5100));
    assert_eq!(it.follow(&inst(3, 1, 0)), Ok(0x5005));
    // A return that is compressed.
    assert_eq!(it.follow(&inst(4, 0, 391)), Ok(0x5005));
    assert!(it.comprets.rets.is_empty());
    assert!(it.tnts.is_empty());
    assert_eq!(it.pos, 0);
    // A jump through a register takes its target from the packets.
    assert_eq!(it.follow(&inst(2, 0, 0)), Ok(G_ENTRY));
    assert_eq!(it.pos, 1);
    // A conditional jump with no decision waiting reads one.
    assert_eq!(it.follow(&inst(3, 1, 0)), Ok(0x5005));
    assert_eq!(it.pos, 2);
    // What passes control on in no way that is followed.
    for flow in [7, 8, 9, 10, 77] {
        assert_eq!(it.follow(&inst(flow, 0, 0)), unrecoverable);
    }
    // With no packet left nothing more is learnt.
    assert_eq!(it.follow(&inst(6, 0, 0)), Err(IteratorError::NoMorePackets));
    assert_eq!(it.follow(&inst(3, 1, 0)), Err(IteratorError::NoMorePackets));
    assert_eq!(it.follow(&inst(4, 0, 391)), Err(IteratorError::NoMorePackets));
}

#[test]
fn searches_pass_over_the_packets_that_say_nothing() {
    let t = tables();
    let packets = vec![
        Packet::plain(PacketKind::PAD),
        Packet::plain(PacketKind::CYC),
        Packet::tnt(vec![true, false]),
        Packet::plain(PacketKind::CBR),
        Packet::with_target(PacketKind::TIPPGD, FOREIGN),
        Packet::plain(PacketKind::MODEExec),
        tip(G_ENTRY),
        Packet::tnt(vec![true]),
    ];
    let mut it = decoder(&t, &packets);
    assert_eq!(it.seek_tnt(), Ok(()));
    assert_eq!(it.pos, 3);
    assert_eq!(it.tnts, vec![true, false]);
    // Tracing that is switched off is of no interest; the decisions that
    // are passed wait.
    assert_eq!(it.seek_tip(), Ok(()));
    assert_eq!(it.pos, 7);
    assert_eq!(it.cur_loc, ObjLoc::MainObj(G_ENTRY));
    assert!(!it.unbound_modes);
    let h = it.seek_tnt_or_tip(true, true).unwrap();
    assert!(h.has_tnts);
    assert_eq!(it.tnts, vec![true, false, true]);
    assert_eq!(it.seek_tnt(), Err(IteratorError::NoMorePackets));
    assert_eq!(it.seek_tip(), Err(IteratorError::NoMorePackets));
    // An address that belongs to no object ends the search.
    let packets = vec![tip(0x9000), tip(G_ENTRY)];
    let mut it = decoder(&t, &packets);
    assert_eq!(it.seek_tip(), Err(IteratorError::NoSuchVAddr));
    assert_eq!(it.pos, 1);
    assert_eq!(it.cur_loc, ObjLoc::OtherObjOrUnknown(None));
    // A packet that switches tracing off ends a search that does not pass
    // over it.
    let packets = vec![Packet::with_target(PacketKind::TIPPGD, FOREIGN), tip(G_ENTRY)];
    let mut it = decoder(&t, &packets);
    assert_eq!(it.seek_tnt_or_tip(true, false).unwrap().kind, PacketKind::TIPPGD);
    assert_eq!(it.cur_loc, ObjLoc::OtherObjOrUnknown(Some(FOREIGN)));
    let mut it = decoder(&t, &packets);
    assert_eq!(it.seek_tnt_or_tip(true, true).unwrap().kind, PacketKind::TIP);
}
