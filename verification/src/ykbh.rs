//! The blackholing interpreter: the stopgap interpreter as it is set up
//! from the symbol names of the frames, and started with a pointer to the
//! inputs of the trace. It knows neither assertions nor binary operations.

use crate::memory::{block_base, le_bytes, Memory, PTR_SIZE};
use crate::sir::{BasicBlock, IRPlace, Local, Sir, Statement, Terminator, INTERP_STEP_ARG};
use crate::yksg::{copy_offsets, InterpError, LocalMem, StackFrame, StopgapInterpreter};
use vstd::prelude::*;

verus! {

/// What is needed to set up a frame of the interpreter again.
#[derive(Debug)]
pub struct FrameInfo {
    /// The symbol name of the function of the frame.
    pub sym: String,
    /// The block that the frame is in.
    pub bbidx: usize,
    /// The address of the memory that holds the live variables.
    pub mem: usize,
}

/// The interpreter that takes over when a guard has failed, and runs until
/// the normal interpreter can take over again.
pub struct SIRInterpreter<'a> {
    pub sg: StopgapInterpreter<'a>,
}

impl<'a> SIRInterpreter<'a> {
    pub open spec fn wf(&self) -> bool {
        self.sg.wf()
    }

    /// Initialise the interpreter for the function with the symbol name
    /// `sym`, at the start of the function.
    pub fn new(sir: &'a Sir, mem: Memory, sym: String) -> (r: Result<Self, InterpError>)
        requires
            mem.wf(),
        ensures
            match r {
                Ok(si) => {
                    &&& si.wf()
                    &&& si.sg.sir == sir
                    &&& si.sg.frames@.len() == 1
                    &&& sir.spec_body(sym@, 0) == Some(si.sg.frames@[0].body)
                    &&& si.sg.frames@[0].bbidx == 0
                    &&& si.sg.frames@[0].mem.layout == sir.bodies@[si.sg.frames@[0].body as int].layout
                    &&& si.sg.frames@[0].mem.offsets@ == sir.bodies@[si.sg.frames@[0].body as int].offsets@
                    &&& si.sg.frames@[0].mem.layout.1 > 0
                    &&& si.sg.frames@[0].mem.locals == block_base(
                        mem.next,
                        si.sg.frames@[0].mem.layout.1,
                    )
                    &&& si.sg.mem.extended(
                        &mem,
                        Seq::new(si.sg.frames@[0].mem.layout.0 as nat, |k: int| 0u8),
                        si.sg.frames@[0].mem.layout.1,
                    )
                },
                Err(e) => match sir.spec_body(sym@, 0) {
                    Some(b) => if sir.bodies@[b as int].layout.1 == 0 {
                        e == InterpError::Malformed
                    } else {
                        e == InterpError::OutOfMemory
                    },
                    None => e == InterpError::Malformed,
                },
            },
    {
        match StopgapInterpreter::from_symbol(sir, mem, sym) {
            Ok(sg) => Ok(SIRInterpreter { sg }),
            Err(e) => Err(e),
        }
    }

    /// Initialise the interpreter with the frames that were live at the
    /// guard that has failed, the outermost first.
    pub fn init_frames(sir: &'a Sir, mem: Memory, v: Vec<FrameInfo>) -> (r: Result<Self, InterpError>)
        requires
            mem.wf(),
        ensures
            match r {
                Ok(si) => {
                    &&& si.wf()
                    &&& si.sg.sir == sir
                    &&& si.sg.mem == mem
                    &&& si.sg.frames@.len() == v@.len()
                    &&& forall|i: int|
                        0 <= i < v@.len() ==> {
                            &&& sir.spec_body(v@[i].sym@, 0) == Some(
                                (#[trigger] si.sg.frames@[i]).body,
                            )
                            &&& si.sg.frames@[i].bbidx == v@[i].bbidx
                            &&& si.sg.frames@[i].mem.locals == v@[i].mem
                        }
                },
                Err(e) => e == InterpError::Malformed,
            },
    {
        let mut frames: Vec<StackFrame> = Vec::new();
        let mut i: usize = 0;
        while i < v.len()
            invariant
                i <= v@.len(),
                frames@.len() == i,
                forall|k: int|
                    0 <= k < i ==> {
                        &&& (#[trigger] frames@[k]).body < sir.bodies@.len()
                        &&& sir.spec_body(v@[k].sym@, 0) == Some(frames@[k].body)
                        &&& frames@[k].bbidx == v@[k].bbidx
                        &&& frames@[k].mem.locals == v@[k].mem
                    },
            decreases v@.len() - i,
        {
            let body = match sir.body(&v[i].sym) {
                Some(b) => b,
                None => {
                    return Err(InterpError::Malformed);
                },
            };
            if v[i].bbidx > u32::MAX as usize {
                return Err(InterpError::Malformed);
            }
            frames.push(
                StackFrame {
                    mem: LocalMem {
                        locals: v[i].mem,
                        offsets: copy_offsets(&sir.bodies[body].offsets),
                        layout: sir.bodies[body].layout,
                    },
                    bbidx: v[i].bbidx as u32,
                    body,
                },
            );
            i = i + 1;
        }
        Ok(SIRInterpreter { sg: StopgapInterpreter { frames, mem, sir } })
    }

    /// The memory of the local variables of the frame that executes.
    pub fn locals(&self) -> (r: &LocalMem)
        requires
            self.sg.frames@.len() > 0,
        ensures
            *r == self.sg.frames@.last().mem,
    {
        self.sg.locals()
    }

    /// Put a pointer to the inputs of the trace into the frame of the
    /// interpreter's step function, the outermost frame.
    pub fn set_trace_inputs(&mut self, tio: usize) -> (r: Result<(), InterpError>)
        requires
            old(self).wf(),
        ensures
            final(self).wf(),
            final(self).sg.frames == old(self).sg.frames,
            final(self).sg.sir == old(self).sg.sir,
            match r {
                Ok(()) => {
                    &&& old(self).sg.frames@.len() > 0
                    &&& old(self).sg.frames@[0].mem.spec_local_ptr(Local(INTERP_STEP_ARG)) matches Some(
                        p,
                    )
                    &&& final(self).sg.mem.written(
                        &old(self).sg.mem,
                        p,
                        le_bytes(tio as nat, PTR_SIZE as nat),
                    )
                },
                Err(e) => e == InterpError::BadAccess && final(self).sg.mem == old(self).sg.mem,
            },
            r is Ok <==> old(self).sg.ctx_settable(),
    {
        self.sg.set_interp_ctx(tio)
    }

    /// Store the value of `src` in `dest`, in the frame that executes.
    pub fn store(&mut self, dest: &IRPlace, src: &IRPlace) -> (r: Result<(), InterpError>)
        requires
            old(self).wf(),
        ensures
            final(self).wf(),
            final(self).sg.frames == old(self).sg.frames,
            final(self).sg.sir == old(self).sg.sir,
            final(self).sg.mem.same_shape(&old(self).sg.mem),
            match r {
                Ok(()) => old(self).sg.frames@.len() > 0 && old(self).sg.frames@.last().mem.stored(
                    &old(self).sg.mem,
                    &final(self).sg.mem,
                    *dest,
                    *src,
                    old(self).sg.sir,
                ),
                Err(e) => final(self).sg.mem == old(self).sg.mem && !(old(self).sg.frames@.len() > 0
                    && old(self).sg.frames@.last().mem.can_store(
                    &old(self).sg.mem,
                    *dest,
                    *src,
                    old(self).sg.sir,
                )) && e == old(self).sg.store_err(*dest, *src),
            },
    {
        self.sg.store(dest, src)
    }

    /// Interpret the terminator `term` of the block that the frame that
    /// executes is in: a call, a return, a switch or a jump.
    pub fn terminator(&mut self, term: &Terminator) -> (r: Result<(), InterpError>)
        requires
            old(self).wf(),
        ensures
            final(self).wf(),
            final(self).sg.sir == old(self).sg.sir,
            *term is Assert ==> {
                &&& r == Err::<(), InterpError>(InterpError::Unsupported)
                &&& final(self).sg.frames == old(self).sg.frames
                &&& final(self).sg.mem == old(self).sg.mem
            },
            r is Ok ==> !(*term is Assert) && old(self).sg.term_done(&final(self).sg, *term),
            r matches Err(e) ==> Self::term_fails(&old(self).sg, *term, e),
            old(self).sg.frames@.len() > 0 ==> match *term {
                Terminator::Goto(_) => r is Ok,
                Terminator::SwitchInt { discr, .. } => r is Ok <==> old(self).sg.spec_read_int(
                    discr,
                ) is Some,
                Terminator::Call { .. } => true,
                Terminator::Return => true,
                _ => r == Err::<(), InterpError>(InterpError::Unsupported),
            },
    {
        match term {
            Terminator::Assert { .. } => Err(InterpError::Unsupported),
            t => self.sg.terminator(t),
        }
    }

    /// Does the terminator `term` of the block that the innermost frame of
    /// `s` is in fail with the error `e`: an assertion is not supported;
    /// any other terminator fails as it does at any time.
    pub open spec fn term_fails(s: &StopgapInterpreter<'a>, term: Terminator, e: InterpError) -> bool {
        if term is Assert {
            e == InterpError::Unsupported
        } else {
            s.term_fails(term, e)
        }
    }

    /// `n` is the interpreter after the guard's terminator: the pointer
    /// `tio` to the inputs of the trace has been written to the frame of
    /// the interpreter's step function, and then the terminator of the
    /// block that the innermost frame is in has been interpreted.
    pub open spec fn resumed(&self, n: &StopgapInterpreter<'a>, tio: usize) -> bool {
        &&& self.sg.frames@.len() > 0
        &&& self.sg.frames@[0].mem.spec_local_ptr(Local(INTERP_STEP_ARG)) matches Some(p)
        &&& self.sg.frames@.last().bbidx < self.sg.sir.bodies@[self.sg.frames@.last().body as int].blocks@.len()
        &&& !(self.sg.spec_block().term is Assert)
        &&& exists|m: Memory|
            {
                &&& m.written(&self.sg.mem, p, le_bytes(tio as nat, PTR_SIZE as nat))
                &&& #[trigger] self.sg.with_mem(m).term_done(n, self.sg.spec_block().term)
            }
    }

    /// Run the interpreter after a guard has failed, with `tio` the address
    /// of the inputs of the trace. Interpretation starts in the block of
    /// the guard, whose terminator is interpreted first, and ends when the
    /// outermost frame has returned, or when `max_blocks` blocks have been
    /// interpreted. Returns whether the outermost frame has returned.
    pub fn interpret(&mut self, tio: usize, max_blocks: usize) -> (r: Result<bool, InterpError>)
        requires
            old(self).wf(),
        ensures
            final(self).wf(),
            final(self).sg.sir == old(self).sg.sir,
            match r {
                Ok(done) => {
                    &&& done == (final(self).sg.frames@.len() == 0)
                    &&& exists|s: StopgapInterpreter<'a>|
                        {
                            &&& #[trigger] old(self).resumed(&s, tio)
                            &&& Self::ran_to(&s, &final(self).sg, max_blocks)
                        }
                },
                Err(e) => old(self).resume_fails(tio, max_blocks, e),
            },
    {
        match self.set_trace_inputs(tio) {
            Ok(()) => {},
            Err(e) => {
                return Err(e);
            },
        }
        let sir = self.sg.sir;
        let last = self.sg.frames.len() - 1;
        let body = self.sg.frames[last].body;
        let bbidx = self.sg.frames[last].bbidx as usize;
        if bbidx >= sir.bodies[body].blocks.len() {
            return Err(InterpError::Malformed);
        }
        let ghost pre = self.sg;
        match self.terminator(&sir.bodies[body].blocks[bbidx].term) {
            Ok(()) => {},
            Err(e) => {
                proof {
                    assert(pre == old(self).sg.with_mem(pre.mem));
                    assert(Self::term_fails(
                        &old(self).sg.with_mem(pre.mem),
                        old(self).sg.spec_block().term,
                        e,
                    ));
                }
                return Err(e);
            },
        }
        let ghost s = self.sg;
        proof {
            assert(pre == old(self).sg.with_mem(pre.mem));
            assert(old(self).resumed(&s, tio));
        }
        let r = self.run(max_blocks);
        proof {
            if let Err(e) = r {
                assert(old(self).resumed(&s, tio) && Self::run_fails(&s, max_blocks, e));
            }
        }
        r
    }

    /// Does interpretation after a guard has failed fail: can the pointer
    /// to the inputs of the trace not be put into the frame of the
    /// interpreter's step function; is the innermost frame in no block of
    /// its function; does the terminator of that block, which must be no
    /// assertion, fail once the pointer is in place; or does the run that
    /// follows fail?
    pub open spec fn resume_fails(&self, tio: usize, max_blocks: usize, e: InterpError) -> bool {
        if !self.sg.ctx_settable() {
            e == InterpError::BadAccess
        } else if self.sg.frames@.last().bbidx
            >= self.sg.sir.bodies@[self.sg.frames@.last().body as int].blocks@.len() {
            e == InterpError::Malformed
        } else {
            ||| exists|m: Memory|
                {
                    &&& m.written(
                        &self.sg.mem,
                        self.sg.frames@[0].mem.spec_local_ptr(Local(INTERP_STEP_ARG)).unwrap(),
                        le_bytes(tio as nat, PTR_SIZE as nat),
                    )
                    &&& #[trigger] Self::term_fails(
                        &self.sg.with_mem(m),
                        self.sg.spec_block().term,
                        e,
                    )
                }
            ||| exists|s: StopgapInterpreter<'a>|
                #[trigger] self.resumed(&s, tio) && Self::run_fails(&s, max_blocks, e)
        }
    }

    /// Does this interpreter handle the block `block`: is there no binary
    /// operation among its statements, and does it not end in an assertion?
    pub open spec fn handles(block: &BasicBlock) -> bool {
        &&& !(block.term is Assert)
        &&& forall|k: int| 0 <= k < block.stmts@.len() ==> !(#[trigger] block.stmts@[k] is BinaryOp)
    }

    /// `n` is the interpreter `s` after one block, which is one that this
    /// interpreter handles.
    pub open spec fn block_done(s: &StopgapInterpreter<'a>, n: &StopgapInterpreter<'a>) -> bool {
        s.block_done(n) && Self::handles(&s.spec_block())
    }

    /// The interpreters `ss` are the states of a run: each is the one
    /// before it after one more block.
    pub open spec fn ran(ss: Seq<StopgapInterpreter<'a>>) -> bool {
        forall|k: int|
            #![trigger ss[k]]
            0 <= k < ss.len() - 1 ==> Self::block_done(&ss[k], &ss[k + 1])
    }

    /// `n` is the interpreter `s` after a run of `max_blocks` blocks at
    /// most, which ends where no frame is left, and is cut short only by
    /// the number of blocks.
    pub open spec fn ran_to(
        s: &StopgapInterpreter<'a>,
        n: &StopgapInterpreter<'a>,
        max_blocks: usize,
    ) -> bool {
        exists|ss: Seq<StopgapInterpreter<'a>>|
            {
                &&& #[trigger] Self::ran(ss)
                &&& 1 <= ss.len() <= max_blocks + 1
                &&& ss[0] == *s
                &&& ss.last() == *n
                &&& n.frames@.len() > 0 ==> ss.len() == max_blocks + 1
            }
    }

    /// Interpret the block that the innermost frame is in: its statements,
    /// and then its terminator.
    pub fn step(&mut self) -> (r: Result<(), InterpError>)
        requires
            old(self).wf(),
        ensures
            final(self).wf(),
            final(self).sg.sir == old(self).sg.sir,
            r is Ok ==> Self::block_done(&old(self).sg, &final(self).sg),
            r matches Err(e) ==> Self::block_fails(&old(self).sg, e),
    {
        if self.sg.frames.len() == 0 {
            return Err(InterpError::Malformed);
        }
        let sir = self.sg.sir;
        let last = self.sg.frames.len() - 1;
        let body = self.sg.frames[last].body;
        let bbidx = self.sg.frames[last].bbidx as usize;
        if bbidx >= sir.bodies[body].blocks.len() {
            return Err(InterpError::Malformed);
        }
        let block = &sir.bodies[body].blocks[bbidx];
        let ghost ms: Seq<Memory> = seq![self.sg.mem];
        let mut i: usize = 0;
        while i < block.stmts.len()
            invariant
                i <= block.stmts@.len(),
                self.wf(),
                self.sg.sir == sir,
                sir == old(self).sg.sir,
                self.sg.frames == old(self).sg.frames,
                *block == old(self).sg.spec_block(),
                old(self).sg.frames@.len() > 0,
                old(self).sg.frames@.last().bbidx < sir.bodies@[old(self).sg.frames@.last().body as int].blocks@.len(),
                ms.len() == i + 1,
                ms[0] == old(self).sg.mem,
                ms[i as int] == self.sg.mem,
                forall|k: int| 0 <= k < i ==> !(#[trigger] block.stmts@[k] is BinaryOp),
                forall|k: int|
                    0 <= k < i ==> old(self).sg.with_mem(#[trigger] ms[k]).stmt_done(
                        &ms[k + 1],
                        block.stmts@[k],
                    ),
            decreases block.stmts@.len() - i,
        {
            let ghost pre = self.sg;
            let done = match &block.stmts[i] {
                Statement::BinaryOp { .. } => Err(InterpError::Unsupported),
                s => self.sg.statement(s),
            };
            if let Err(e) = done {
                proof {
                    assert(pre == old(self).sg.with_mem(ms[i as int]));
                    assert(ms.last() == ms[i as int]);
                    assert(ms.len() - 1 == i);
                    assert(!pre.can_stmt(block.stmts@[i as int]) || block.stmts@[i as int] is BinaryOp);
                    assert(block.stmts@[i as int] is BinaryOp || e == pre.stmt_err(block.stmts@[i as int]));
                    assert(Self::stmts_short(&old(self).sg, ms, e));
                }
                return Err(e);
            }
            proof {
                assert(pre == old(self).sg.with_mem(ms[i as int]));
                let ghost before = ms;
                ms = ms.push(self.sg.mem);
                assert forall|k: int| 0 <= k < i + 1 implies old(self).sg.with_mem(
                    #[trigger] ms[k],
                ).stmt_done(&ms[k + 1], block.stmts@[k]) by {
                    if k < i {
                        assert(ms[k] == before[k] && ms[k + 1] == before[k + 1]);
                    }
                }
            }
            i = i + 1;
        }
        let ghost pre = self.sg;
        match self.terminator(&block.term) {
            Ok(()) => {},
            Err(e) => {
                proof {
                    assert(pre == old(self).sg.with_mem(ms.last()));
                    assert(Self::stmts_short(&old(self).sg, ms, e));
                }
                return Err(e);
            },
        }
        proof {
            assert(pre == old(self).sg.with_mem(ms.last()));
            assert(old(self).sg.stmts_done(ms, block.stmts@));
        }
        Ok(())
    }

    /// The memories `ms` are those that the interpretation of the block
    /// that the innermost frame of `s` is in goes through, one statement
    /// after the other, up to the point at which it fails: at a statement
    /// that is a binary operation or cannot be interpreted, or, after the
    /// last statement, at a terminator that is an assertion or fails.
    pub open spec fn stmts_short(s: &StopgapInterpreter<'a>, ms: Seq<Memory>, e: InterpError) -> bool {
        let block = s.spec_block();
        &&& 1 <= ms.len() <= block.stmts@.len() + 1
        &&& ms[0] == s.mem
        &&& forall|k: int|
            0 <= k < ms.len() - 1 ==> !(block.stmts@[k] is BinaryOp) && s.with_mem(
                #[trigger] ms[k],
            ).stmt_done(&ms[k + 1], block.stmts@[k])
        &&& if ms.len() <= block.stmts@.len() {
            if block.stmts@[ms.len() - 1] is BinaryOp {
                e == InterpError::Unsupported
            } else {
                !s.with_mem(ms.last()).can_stmt(block.stmts@[ms.len() - 1]) && e == s.with_mem(
                    ms.last(),
                ).stmt_err(block.stmts@[ms.len() - 1])
            }
        } else {
            Self::term_fails(&s.with_mem(ms.last()), block.term, e)
        }
    }

    /// Does the interpretation of the block that the innermost frame of
    /// `s` is in fail: is there no frame or no such block, or does a
    /// statement or the terminator fail?
    pub open spec fn block_fails(s: &StopgapInterpreter<'a>, e: InterpError) -> bool {
        if s.frames@.len() == 0 || s.frames@.last().bbidx
            >= s.sir.bodies@[s.frames@.last().body as int].blocks@.len() {
            e == InterpError::Malformed
        } else {
            exists|ms: Seq<Memory>| Self::stmts_short(s, ms, e)
        }
    }

    /// Does a run of `max_blocks` blocks at most from `s` on fail: does it
    /// get, block after block, to a block whose interpretation fails?
    pub open spec fn run_fails(s: &StopgapInterpreter<'a>, max_blocks: usize, e: InterpError) -> bool {
        exists|ss: Seq<StopgapInterpreter<'a>>|
            {
                &&& #[trigger] Self::ran(ss)
                &&& 1 <= ss.len() <= max_blocks
                &&& ss[0] == *s
                &&& Self::block_fails(&ss.last(), e)
            }
    }

    /// Interpret block after block until the outermost frame has returned
    /// or `max_blocks` blocks have been interpreted.
    pub fn run(&mut self, max_blocks: usize) -> (r: Result<bool, InterpError>)
        requires
            old(self).wf(),
        ensures
            final(self).wf(),
            final(self).sg.sir == old(self).sg.sir,
            match r {
                Ok(done) => done == (final(self).sg.frames@.len() == 0) && Self::ran_to(
                    &old(self).sg,
                    &final(self).sg,
                    max_blocks,
                ),
                Err(e) => Self::run_fails(&old(self).sg, max_blocks, e),
            },
    {
        let mut left = max_blocks;
        let ghost ss: Seq<StopgapInterpreter<'a>> = seq![self.sg];
        while self.sg.frames.len() > 0 && left > 0
            invariant
                self.wf(),
                self.sg.sir == old(self).sg.sir,
                left <= max_blocks,
                ss.len() == max_blocks - left + 1,
                ss[0] == old(self).sg,
                ss.last() == self.sg,
                Self::ran(ss),
            decreases left,
        {
            left = left - 1;
            let ghost pre = self.sg;
            match self.step() {
                Ok(()) => {},
                Err(e) => {
                    proof {
                        assert(ss.last() == pre);
                        assert(Self::block_fails(&pre, e));
                    }
                    return Err(e);
                },
            }
            proof {
                let ghost before = ss;
                ss = ss.push(self.sg);
                assert forall|k: int|
                    #![trigger ss[k]]
                    0 <= k < ss.len() - 1 implies Self::block_done(&ss[k], &ss[k + 1]) by {
                    if k < before.len() - 1 {
                        assert(ss[k] == before[k] && ss[k + 1] == before[k + 1]);
                        assert(Self::block_done(&before[k], &before[k + 1]));
                    } else {
                        assert(ss[k] == pre);
                    }
                }
            }
        }
        proof {
            assert(Self::ran(ss));
        }
        Ok(self.sg.frames.len() == 0)
    }
}

} // verus!
