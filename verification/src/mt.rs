//! The meta-tracer: the state machine that decides, each time a thread
//! reaches the control point, whether it goes on interpreting, starts or
//! stops recording a trace, or executes a compiled one.
//!
//! The meta-tracer owns the table of hot locations and the registry of
//! compiled traces. Each interpreter thread owns an [`MTThread`]. Everything
//! here is a step from one state to the next: starting and stopping
//! recorders, running compile jobs and jumping into compiled code are left to
//! the caller, who is told what to do by the action that a step returns.

use crate::jit_ir::CompilationError;
use crate::location::{
    CompiledTraceId, GuardIdx, HotLocation, HotLocationId, HotLocationKind, HotThreshold,
    Location, LocationState, TraceCompilationErrorThreshold, TraceFailed,
};
use std::collections::HashMap;
use vstd::prelude::*;

pub mod control;
pub mod events;

verus! {

broadcast use vstd::std_specs::hash::group_hash_axioms;

/// How many basic blocks long a trace can be before compiling it is not
/// attempted.
pub const DEFAULT_TRACE_TOO_LONG: usize = 20000;

/// How often a location is hit before it is traced, unless told otherwise.
pub const DEFAULT_HOT_THRESHOLD: HotThreshold = 131;

/// How often a guard fails before a side-trace is recorded for it, unless
/// told otherwise.
pub const DEFAULT_SIDETRACE_THRESHOLD: HotThreshold = 5;

/// How often tracing or compiling a location may fail, unless told otherwise.
pub const DEFAULT_TRACECOMPILATION_ERROR_THRESHOLD: TraceCompilationErrorThreshold = 5;

/// The size of a 64 bit register in bytes.
pub const REG64_SIZE: usize = 8;

/// Why was the recording of a trace abandoned?
#[derive(Debug, Clone, Copy, PartialEq, Eq, Structural)]
pub enum AbortKind {
    /// While tracing, the thread fell back from the interpreter into
    /// compiled code.
    BackIntoExecution,
    /// While tracing, the thread met a location with a compiled trace.
    EncounteredCompiledTrace,
    /// While tracing, the thread left the interpreter frame it started in.
    OutOfFrame,
    /// The thread traced a location twice, and could not switch to tracing
    /// the inner loop that it had found.
    Unrolled,
}

impl AbortKind {
    /// The reason in words.
    pub fn describe(&self) -> (s: &'static str)
        ensures
            s@ == match *self {
                AbortKind::BackIntoExecution => "tracing continued into a JIT frame"@,
                AbortKind::EncounteredCompiledTrace => "encountered compiled trace"@,
                AbortKind::OutOfFrame => "tracing went outside of starting frame"@,
                AbortKind::Unrolled => "tracing unrolled a loop"@,
            },
    {
        match self {
            AbortKind::BackIntoExecution => "tracing continued into a JIT frame",
            AbortKind::EncounteredCompiledTrace => "encountered compiled trace",
            AbortKind::OutOfFrame => "tracing went outside of starting frame",
            AbortKind::Unrolled => "tracing unrolled a loop",
        }
    }
}

/// What should a thread do after a step at the control point?
#[derive(Debug, Clone, Copy, PartialEq, Eq, Structural)]
pub enum TransitionControlPoint {
    /// Go on interpreting.
    NoAction,
    /// Throw away the trace that is being recorded.
    AbortTracing(AbortKind),
    /// Execute the compiled trace.
    Execute(CompiledTraceId),
    /// Start recording a trace for the hot location.
    StartTracing(HotLocationId),
    /// Stop recording and have the trace compiled, from the control point of
    /// index `start_cp_idx` on: 0 means all of it; more than 0 means that an
    /// inner loop was found, and that what was recorded before it is skipped.
    StopTracing { start_cp_idx: usize },
    /// Stop recording and have the side-trace compiled.
    StopSideTracing { gidx: GuardIdx, parent_ctr: CompiledTraceId, root_ctr: CompiledTraceId },
}

/// What should a thread do after a guard has failed?
#[derive(Debug, Clone, Copy, PartialEq, Eq, Structural)]
pub enum TransitionGuardFailure {
    /// Go on as before.
    NoAction,
    /// Start recording a side-trace that will end at the hot location.
    StartSideTracing(HotLocationId),
}

/// A guard of a compiled trace.
#[derive(Debug, Clone, Copy, PartialEq, Eq, Structural)]
pub struct Guard {
    /// How often the guard has failed.
    pub failed: HotThreshold,
    /// The side-trace that was compiled for the guard, if there is one.
    pub ctr: Option<CompiledTraceId>,
}

impl Guard {
    /// A guard that has never failed.
    pub fn new() -> (g: Self)
        ensures
            g == (Guard { failed: 0, ctr: None }),
    {
        Guard { failed: 0, ctr: None }
    }

    /// Count a failure of the guard, and say whether this is the failure
    /// with which the count gets to `threshold`: the one at which a
    /// side-trace becomes worth recording. The count does not go beyond the
    /// largest number.
    pub fn inc_failed(&mut self, threshold: HotThreshold) -> (r: bool)
        ensures
            final(self).ctr == old(self).ctr,
            final(self).failed == if old(self).failed < HotThreshold::MAX {
                (old(self).failed + 1) as u32
            } else {
                old(self).failed
            },
            r == (old(self).failed < threshold && final(self).failed >= threshold),
    {
        let before = self.failed;
        if self.failed < HotThreshold::MAX {
            self.failed = self.failed + 1;
        }
        before < threshold && self.failed >= threshold
    }

    /// Record the side-trace that was compiled for the guard.
    pub fn set_ctr(&mut self, ctr: CompiledTraceId)
        ensures
            final(self).failed == old(self).failed,
            final(self).ctr == Some(ctr),
    {
        self.ctr = Some(ctr);
    }
}

/// What the meta-tracer knows of a compiled trace.
#[derive(Debug)]
pub struct CompiledTrace {
    /// The trace's identifier.
    pub ctrid: CompiledTraceId,
    /// The hot location the trace was compiled for, unless that is gone.
    pub hl: Option<HotLocationId>,
    /// The guards of the trace.
    pub guards: Vec<Guard>,
}

/// What a thread that is recording a trace keeps track of.
#[derive(Debug)]
pub struct TracingFrame {
    /// The hot locations that the trace has passed so far, each with the
    /// index of the control point at which it was first seen. A location that
    /// is seen twice is the start of an inner loop.
    pub seen_hls: HashMap<HotLocationId, usize>,
    /// How often the control point has been reached since recording started.
    pub cp_idx: usize,
    /// The hot location at which the trace will end.
    pub hl: HotLocationId,
    /// The values that the host has promoted while recording, end to end.
    pub promotions: Vec<u8>,
    /// The debug strings that the host has inserted while recording.
    pub debug_strs: Vec<String>,
    /// The address of the interpreter frame in which recording started.
    pub frameaddr: usize,
}

impl TracingFrame {
    /// The frame of a thread that has just started to record a trace that
    /// will end at `hl`, in the interpreter frame at `frameaddr`.
    pub fn new(hl: HotLocationId, frameaddr: usize) -> (f: Self)
        ensures
            f.hl == hl,
            f.frameaddr == frameaddr,
            f.cp_idx == 0,
            f.promotions@ == Seq::<u8>::empty(),
            f.debug_strs@ == Seq::<String>::empty(),
            f.seen_hls@ == Map::<HotLocationId, usize>::empty(),
    {
        TracingFrame {
            seen_hls: HashMap::new(),
            cp_idx: 0,
            hl,
            promotions: Vec::new(),
            debug_strs: Vec::new(),
            frameaddr,
        }
    }
}

/// What a thread is doing.
#[derive(Debug)]
pub enum MTThreadState {
    /// The thread is executing in the interpreter.
    Interpreting,
    /// The thread is recording a trace.
    Tracing(TracingFrame),
    /// The thread is executing the compiled trace `ctr`, or a side-trace of it.
    Executing { ctr: CompiledTraceId },
}

/// The state of one thread: a stack, because a thread that executes a trace
/// may start to record a side-trace. The stack is never empty, its bottom is
/// the interpreter, and only its top can be a recording.
#[derive(Debug)]
pub struct MTThread {
    pub tstate: Vec<MTThreadState>,
}

impl MTThread {
    /// The stack is not empty, starts in the interpreter, and records at its
    /// top only.
    pub open spec fn wf(&self) -> bool {
        &&& self.tstate@.len() >= 1
        &&& self.tstate@[0] is Interpreting
        &&& forall|i: int| 0 <= i < self.tstate@.len() - 1 ==> !(#[trigger] self.tstate@[i] is Tracing)
    }

    /// The top of the stack.
    pub open spec fn top(&self) -> MTThreadState {
        self.tstate@.last()
    }

    /// Is the thread recording a trace?
    pub open spec fn spec_is_tracing(&self) -> bool {
        exists|i: int| 0 <= i < self.tstate@.len() && #[trigger] self.tstate@[i] is Tracing
    }

    /// The hot location for which the thread records a trace, if it does.
    pub open spec fn tracing_hl(&self) -> Option<HotLocationId> {
        match self.top() {
            MTThreadState::Tracing(f) => Some(f.hl),
            _ => None,
        }
    }

    /// A thread that records, records at the top of its stack.
    pub proof fn lemma_tracing_is_top(&self)
        requires
            self.wf(),
        ensures
            self.spec_is_tracing() == (self.top() is Tracing),
    {
        if self.top() is Tracing {
            assert(self.tstate@[self.tstate@.len() - 1] is Tracing);
        }
    }

    /// The state of a thread that has just been started.
    pub fn new() -> (t: Self)
        ensures
            t.wf(),
            t.tstate@.len() == 1,
    {
        let mut tstate = Vec::new();
        tstate.push(MTThreadState::Interpreting);
        MTThread { tstate }
    }

    /// Is this thread recording a trace?
    pub fn is_tracing(&self) -> (r: bool)
        ensures
            r == self.spec_is_tracing(),
    {
        let mut i: usize = 0;
        while i < self.tstate.len()
            invariant
                i <= self.tstate@.len(),
                forall|j: int| 0 <= j < i ==> !(#[trigger] self.tstate@[j] is Tracing),
            decreases self.tstate@.len() - i,
        {
            if let MTThreadState::Tracing(_) = &self.tstate[i] {
                return true;
            }
            i = i + 1;
        }
        false
    }

    /// The compiled trace that the thread is executing: that of the topmost
    /// executing frame.
    pub fn running_trace(&self) -> (r: Option<CompiledTraceId>)
        ensures
            match r {
                Some(ctr) => exists|i: int|
                    0 <= i < self.tstate@.len() && #[trigger] self.tstate@[i]
                        == (MTThreadState::Executing { ctr }) && forall|j: int|
                        i < j < self.tstate@.len() ==> !(#[trigger] self.tstate@[j] is Executing),
                None => forall|i: int|
                    0 <= i < self.tstate@.len() ==> !(#[trigger] self.tstate@[i] is Executing),
            },
    {
        let mut i: usize = self.tstate.len();
        while i > 0
            invariant
                i <= self.tstate@.len(),
                forall|j: int| i <= j < self.tstate@.len() ==> !(#[trigger] self.tstate@[j] is Executing),
            decreases i,
        {
            i = i - 1;
            if let MTThreadState::Executing { ctr } = &self.tstate[i] {
                proof {
                    assert(self.tstate@[i as int] == (MTThreadState::Executing { ctr: *ctr }));
                }
                return Some(*ctr);
            }
        }
        None
    }

    /// Push `tstate`, which is no recording, onto the stack of a thread that
    /// is not recording.
    pub fn push_tstate(&mut self, tstate: MTThreadState)
        requires
            old(self).wf(),
            !(old(self).top() is Tracing),
            !(tstate is Tracing),
        ensures
            final(self).wf(),
            final(self).tstate@ == old(self).tstate@.push(tstate),
    {
        self.tstate.push(tstate);
    }

    /// Pop the top of the stack, which must not be its bottom.
    pub fn pop_tstate(&mut self) -> (r: MTThreadState)
        requires
            old(self).wf(),
            old(self).tstate@.len() > 1,
        ensures
            final(self).wf(),
            r == old(self).top(),
            final(self).tstate@ == old(self).tstate@.drop_last(),
    {
        self.tstate.pop().unwrap()
    }

    /// `self` is `o` with the recording at the top of its stack replaced by
    /// `f`.
    pub open spec fn with_frame(&self, o: &Self, f: TracingFrame) -> bool {
        &&& o.top() is Tracing
        &&& self.tstate@ == o.tstate@.drop_last().push(MTThreadState::Tracing(f))
    }

    /// Count one more arrival at the control point, if the thread is
    /// recording. The count does not go beyond the largest number.
    pub fn inc_cp_idx(&mut self)
        requires
            old(self).wf(),
        ensures
            final(self).wf(),
            match old(self).top() {
                MTThreadState::Tracing(f) => final(self).with_frame(
                    old(self),
                    TracingFrame {
                        cp_idx: if f.cp_idx < usize::MAX {
                            (f.cp_idx + 1) as usize
                        } else {
                            f.cp_idx
                        },
                        ..f
                    },
                ),
                _ => final(self).tstate@ == old(self).tstate@,
            },
    {
        let ghost pre = self.tstate@;
        match self.tstate.pop().unwrap() {
            MTThreadState::Tracing(mut f) => {
                if f.cp_idx < usize::MAX {
                    f.cp_idx = f.cp_idx + 1;
                }
                self.tstate.push(MTThreadState::Tracing(f));
            },
            other => {
                self.tstate.push(other);
                proof {
                    assert(self.tstate@ =~= pre);
                }
            },
        }
    }

    /// Record `bytes` as a promoted value, if the thread is recording.
    /// Always returns `true`: a promotion cannot fail.
    pub fn promote_bytes(&mut self, bytes: Vec<u8>) -> (r: bool)
        requires
            old(self).wf(),
        ensures
            r,
            final(self).wf(),
            match old(self).top() {
                MTThreadState::Tracing(f) => match final(self).top() {
                    MTThreadState::Tracing(g) => {
                        &&& final(self).with_frame(old(self), g)
                        &&& g.promotions@ == f.promotions@ + bytes@
                        &&& g.seen_hls == f.seen_hls
                        &&& g.cp_idx == f.cp_idx
                        &&& g.hl == f.hl
                        &&& g.debug_strs == f.debug_strs
                        &&& g.frameaddr == f.frameaddr
                    },
                    _ => false,
                },
                _ => final(self).tstate@ == old(self).tstate@,
            },
    {
        let ghost pre = self.tstate@;
        match self.tstate.pop().unwrap() {
            MTThreadState::Tracing(mut f) => {
                let mut bytes = bytes;
                f.promotions.append(&mut bytes);
                self.tstate.push(MTThreadState::Tracing(f));
            },
            other => {
                self.tstate.push(other);
                proof {
                    assert(self.tstate@ =~= pre);
                }
            },
        }
        true
    }

    /// Record `val` as a promoted value, if the thread is recording.
    pub fn promote_i32(&mut self, val: i32) -> (r: bool)
        requires
            old(self).wf(),
        ensures
            r,
            final(self).wf(),
            !(old(self).top() is Tracing) ==> final(self).tstate@ == old(self).tstate@,
            old(self).top() is Tracing ==> final(self).top() is Tracing && promoted_value(
                old(self).top()->Tracing_0,
                final(self).top()->Tracing_0,
                twos(val as int, 32),
                4,
            ) && final(self).with_frame(old(self), final(self).top()->Tracing_0),
    {
        let bytes = ne_bytes_i32(val);
        proof {
            if let MTThreadState::Tracing(f) = self.top() {
                assert((f.promotions@ + bytes@).subrange(0, f.promotions@.len() as int)
                    =~= f.promotions@);
                assert((f.promotions@ + bytes@).subrange(
                    f.promotions@.len() as int,
                    (f.promotions@ + bytes@).len() as int,
                ) =~= bytes@);
            }
        }
        self.promote_bytes(bytes)
    }

    /// Record `val` as a promoted value, if the thread is recording.
    pub fn promote_u32(&mut self, val: u32) -> (r: bool)
        requires
            old(self).wf(),
        ensures
            r,
            final(self).wf(),
            !(old(self).top() is Tracing) ==> final(self).tstate@ == old(self).tstate@,
            old(self).top() is Tracing ==> final(self).top() is Tracing && promoted_value(
                old(self).top()->Tracing_0,
                final(self).top()->Tracing_0,
                val as nat,
                4,
            ) && final(self).with_frame(old(self), final(self).top()->Tracing_0),
    {
        let bytes = ne_bytes_u32(val);
        proof {
            if let MTThreadState::Tracing(f) = self.top() {
                assert((f.promotions@ + bytes@).subrange(0, f.promotions@.len() as int)
                    =~= f.promotions@);
                assert((f.promotions@ + bytes@).subrange(
                    f.promotions@.len() as int,
                    (f.promotions@ + bytes@).len() as int,
                ) =~= bytes@);
            }
        }
        self.promote_bytes(bytes)
    }

    /// Record `val` as a promoted value, if the thread is recording.
    pub fn promote_i64(&mut self, val: i64) -> (r: bool)
        requires
            old(self).wf(),
        ensures
            r,
            final(self).wf(),
            !(old(self).top() is Tracing) ==> final(self).tstate@ == old(self).tstate@,
            old(self).top() is Tracing ==> final(self).top() is Tracing && promoted_value(
                old(self).top()->Tracing_0,
                final(self).top()->Tracing_0,
                twos(val as int, 64),
                8,
            ) && final(self).with_frame(old(self), final(self).top()->Tracing_0),
    {
        let bytes = ne_bytes_i64(val);
        proof {
            if let MTThreadState::Tracing(f) = self.top() {
                assert((f.promotions@ + bytes@).subrange(0, f.promotions@.len() as int)
                    =~= f.promotions@);
                assert((f.promotions@ + bytes@).subrange(
                    f.promotions@.len() as int,
                    (f.promotions@ + bytes@).len() as int,
                ) =~= bytes@);
            }
        }
        self.promote_bytes(bytes)
    }

    /// Record `val` as a promoted value, if the thread is recording.
    pub fn promote_usize(&mut self, val: usize) -> (r: bool)
        requires
            old(self).wf(),
        ensures
            r,
            final(self).wf(),
            !(old(self).top() is Tracing) ==> final(self).tstate@ == old(self).tstate@,
            old(self).top() is Tracing ==> final(self).top() is Tracing && promoted_value(
                old(self).top()->Tracing_0,
                final(self).top()->Tracing_0,
                val as nat,
                (usize::BITS / 8) as nat,
            ) && final(self).with_frame(old(self), final(self).top()->Tracing_0),
    {
        let bytes = ne_bytes_usize(val);
        proof {
            if let MTThreadState::Tracing(f) = self.top() {
                assert((f.promotions@ + bytes@).subrange(0, f.promotions@.len() as int)
                    =~= f.promotions@);
                assert((f.promotions@ + bytes@).subrange(
                    f.promotions@.len() as int,
                    (f.promotions@ + bytes@).len() as int,
                ) =~= bytes@);
            }
        }
        self.promote_bytes(bytes)
    }

    /// Record a debug string, if the thread is recording. Always returns
    /// `true`.
    pub fn insert_debug_str(&mut self, msg: String) -> (r: bool)
        requires
            old(self).wf(),
        ensures
            r,
            final(self).wf(),
            match old(self).top() {
                MTThreadState::Tracing(f) => match final(self).top() {
                    MTThreadState::Tracing(g) => {
                        &&& final(self).with_frame(old(self), g)
                        &&& g.debug_strs@ == f.debug_strs@.push(msg)
                        &&& g.seen_hls == f.seen_hls
                        &&& g.cp_idx == f.cp_idx
                        &&& g.hl == f.hl
                        &&& g.promotions == f.promotions
                        &&& g.frameaddr == f.frameaddr
                    },
                    _ => false,
                },
                _ => final(self).tstate@ == old(self).tstate@,
            },
    {
        let ghost pre = self.tstate@;
        match self.tstate.pop().unwrap() {
            MTThreadState::Tracing(mut f) => {
                f.debug_strs.push(msg);
                self.tstate.push(MTThreadState::Tracing(f));
            },
            other => {
                self.tstate.push(other);
                proof {
                    assert(self.tstate@ =~= pre);
                }
            },
        }
        true
    }
}

/// The recording `g` is the recording `f` with `n` more bytes of promoted
/// values at its end.
pub open spec fn promoted(f: TracingFrame, g: TracingFrame, n: nat) -> bool {
    &&& g.promotions@.len() == f.promotions@.len() + n
    &&& g.promotions@.subrange(0, f.promotions@.len() as int) == f.promotions@
    &&& g.seen_hls == f.seen_hls
    &&& g.cp_idx == f.cp_idx
    &&& g.hl == f.hl
    &&& g.debug_strs == f.debug_strs
    &&& g.frameaddr == f.frameaddr
}

/// The number that the `bits` bits of the two's complement representation
/// of `v` spell.
pub open spec fn twos(v: int, bits: nat) -> nat {
    if v >= 0 {
        v as nat
    } else {
        (v + vstd::arithmetic::power2::pow2(bits)) as nat
    }
}

/// The `n` low bytes of `v`, lowest first.
pub open spec fn low_bytes_first(v: nat, n: nat) -> Seq<u8>
    decreases n,
{
    if n == 0 {
        Seq::empty()
    } else {
        seq![(v % 256) as u8] + low_bytes_first(v / 256, (n - 1) as nat)
    }
}

/// Is `bytes` the `n` low bytes of `v`, in one of the two orders in which
/// machines keep them?
pub open spec fn native_bytes(v: nat, n: nat, bytes: Seq<u8>) -> bool {
    bytes == low_bytes_first(v, n) || bytes == low_bytes_first(v, n).reverse()
}

/// `g` is the frame `f` with the `n` bytes of the promoted value `v` at its
/// end, in the machine's order.
pub open spec fn promoted_value(f: TracingFrame, g: TracingFrame, v: nat, n: nat) -> bool {
    &&& promoted(f, g, n)
    &&& native_bytes(v, n, g.promotions@.subrange(f.promotions@.len() as int, g.promotions@.len() as int))
}

/// The bytes of `val` in the order in which the machine keeps them: std's
/// `i32::to_ne_bytes`, which gives the bytes of the value's representation
/// lowest first on some machines and highest first on the others.
#[verifier::external_body]
fn ne_bytes_i32(val: i32) -> (r: Vec<u8>)
    ensures
        r@.len() == 4,
        native_bytes(twos(val as int, 32), 4, r@),
{
    val.to_ne_bytes().to_vec()
}

/// The bytes of `val` in the order in which the machine keeps them: std's
/// `u32::to_ne_bytes`, which gives the bytes of the value's representation
/// lowest first on some machines and highest first on the others.
#[verifier::external_body]
fn ne_bytes_u32(val: u32) -> (r: Vec<u8>)
    ensures
        r@.len() == 4,
        native_bytes(val as nat, 4, r@),
{
    val.to_ne_bytes().to_vec()
}

/// The bytes of `val` in the order in which the machine keeps them: std's
/// `i64::to_ne_bytes`, which gives the bytes of the value's representation
/// lowest first on some machines and highest first on the others.
#[verifier::external_body]
fn ne_bytes_i64(val: i64) -> (r: Vec<u8>)
    ensures
        r@.len() == 8,
        native_bytes(twos(val as int, 64), 8, r@),
{
    val.to_ne_bytes().to_vec()
}

/// The bytes of `val` in the order in which the machine keeps them: std's
/// `usize::to_ne_bytes`, which gives as many bytes as the machine's word
/// has, lowest first on some machines and highest first on the others.
#[verifier::external_body]
fn ne_bytes_usize(val: usize) -> (r: Vec<u8>)
    ensures
        r@.len() == usize::BITS / 8,
        native_bytes(val as nat, (usize::BITS / 8) as nat, r@),
{
    val.to_ne_bytes().to_vec()
}

} // verus!
