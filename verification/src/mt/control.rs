//! The meta-tracer's state and its steps.

use crate::jit_ir::CompilationError;
use crate::location::{
    CompiledTraceId, GuardIdx, HotLocation, HotLocationId, HotLocationKind, HotThreshold,
    Location, LocationState, TraceCompilationErrorThreshold, TraceFailed,
};
use crate::mt::{
    AbortKind, CompiledTrace, Guard, MTThread, MTThreadState, TracingFrame,
    TransitionControlPoint, TransitionGuardFailure, DEFAULT_HOT_THRESHOLD,
    DEFAULT_SIDETRACE_THRESHOLD, DEFAULT_TRACECOMPILATION_ERROR_THRESHOLD, REG64_SIZE,
};
use vstd::prelude::*;
use vstd::string::StringSliceAdditionalSpecFns;

verus! {

broadcast use vstd::std_specs::hash::group_hash_axioms;

/// How loudly something is logged.
#[derive(Debug, Clone, Copy, PartialEq, Eq, Structural)]
pub enum Verbosity {
    /// An event in the life of a trace.
    JITEvent,
    /// Something went wrong, and the program carries on unharmed.
    Warning,
    /// Something went wrong that should not have.
    Error,
}

/// What a step at the control point leaves for the caller to do.
#[derive(Debug)]
pub enum ControlPointAction {
    /// Go on interpreting.
    NoAction,
    /// The recording has been abandoned: stop the recorder and throw away
    /// what it recorded.
    AbortTracing(AbortKind),
    /// Jump into the compiled trace.
    Execute(CompiledTraceId),
    /// Start a recorder; then report whether that worked.
    StartTracing(HotLocationId),
    /// Stop the recorder and queue the trace for compilation, with what was
    /// gathered while recording.
    StopTracing { hl: HotLocationId, start_cp_idx: usize, promotions: Vec<u8>, debug_strs: Vec<String> },
    /// Stop the recorder and queue the side-trace for compilation, with what
    /// was gathered while recording.
    StopSideTracing {
        hl: HotLocationId,
        gidx: GuardIdx,
        parent_ctr: CompiledTraceId,
        root_ctr: CompiledTraceId,
        promotions: Vec<u8>,
        debug_strs: Vec<String>,
    },
}

/// What a thread that records a trace contributes to a step: where the trace
/// will end, where it started, and what it has seen.
pub struct FrameView {
    pub hl: HotLocationId,
    pub frameaddr: usize,
    pub seen: Map<HotLocationId, usize>,
    pub cp_idx: usize,
}

/// What a step at the control point comes to.
pub struct Outcome {
    /// What the thread is to do.
    pub action: TransitionControlPoint,
    /// The hot locations after the step.
    pub hls: Seq<HotLocation>,
    /// The location after the step.
    pub loc: Location,
    /// The thread's recording after the step, if it is recording.
    pub frame: Option<FrameView>,
}

/// One holder more, unless that cannot be counted.
pub open spec fn inc(n: usize) -> usize {
    if n < usize::MAX {
        (n + 1) as usize
    } else {
        n
    }
}

/// One holder less, if there is one.
pub open spec fn dec(n: usize) -> usize {
    if n > 0 {
        (n - 1) as usize
    } else {
        n
    }
}

/// The step for a hot location `hl` of index `h` whose state decides it: the
/// thread records a trace that ends at `tracing_hl`, or does not record.
///
/// A compiled trace is executed, unless the thread is recording, which then
/// ends. A location that counts is counted up to the threshold and then
/// traced, by a thread that is not recording already. A location that is
/// being traced is left to its tracer; when the tracer arrives, recording
/// stops and compilation starts; when the tracer has gone missing, that is a
/// failure, and the thread takes over unless there were too many.
pub open spec fn kind_step(
    hl: HotLocation,
    h: HotLocationId,
    tracing_hl: Option<HotLocationId>,
    hot_threshold: HotThreshold,
    failure_threshold: TraceCompilationErrorThreshold,
) -> (TransitionControlPoint, HotLocation) {
    match hl.kind {
        HotLocationKind::Compiled(ctr) => (
            if tracing_hl is Some {
                TransitionControlPoint::AbortTracing(AbortKind::EncounteredCompiledTrace)
            } else {
                TransitionControlPoint::Execute(ctr)
            },
            hl,
        ),
        HotLocationKind::Compiling => (TransitionControlPoint::NoAction, hl),
        HotLocationKind::DontTrace => (TransitionControlPoint::NoAction, hl),
        HotLocationKind::Counting(c) => if tracing_hl is Some {
            (TransitionControlPoint::NoAction, hl)
        } else if c < hot_threshold {
            (
                TransitionControlPoint::NoAction,
                HotLocation { kind: HotLocationKind::Counting((c + 1) as u32), ..hl },
            )
        } else {
            (
                TransitionControlPoint::StartTracing(h),
                HotLocation { kind: HotLocationKind::Tracing, tracers: inc(hl.tracers), ..hl },
            )
        },
        HotLocationKind::Tracing => match tracing_hl {
            Some(t) => if t == h {
                (
                    TransitionControlPoint::StopTracing { start_cp_idx: 0 },
                    HotLocation { kind: HotLocationKind::Compiling, ..hl },
                )
            } else {
                (TransitionControlPoint::NoAction, hl)
            },
            None => if hl.tracers == 0 {
                let (verdict, failed) = hl.spec_failed(failure_threshold);
                if verdict is KeepTrying {
                    (
                        TransitionControlPoint::StartTracing(h),
                        HotLocation { kind: HotLocationKind::Tracing, tracers: 1, ..failed },
                    )
                } else {
                    (
                        TransitionControlPoint::NoAction,
                        HotLocation { kind: HotLocationKind::DontTrace, ..failed },
                    )
                }
            } else {
                (TransitionControlPoint::NoAction, hl)
            },
        },
        HotLocationKind::SideTracing { root_ctr, gidx, parent_ctr } => match tracing_hl {
            Some(t) => if t == h {
                (
                    TransitionControlPoint::StopSideTracing { gidx, parent_ctr, root_ctr },
                    HotLocation { kind: HotLocationKind::Compiled(root_ctr), ..hl },
                )
            } else {
                (TransitionControlPoint::NoAction, hl)
            },
            None => (TransitionControlPoint::Execute(root_ctr), hl),
        },
    }
}

/// The step at the control point for the location `loc`, reached in the
/// interpreter frame at `frameaddr` by a thread whose recording, if it has
/// one, is `frame`. `lock_free` says whether a thread that is not recording
/// got hold of the hot location without waiting; if it did not, it does
/// nothing this time.
///
/// A location that is not hot is counted. Met by a recording thread it
/// becomes a hot location that counts, so that the recording can tell it
/// from others; met for the last time before the threshold by a thread that
/// does not record, it becomes a hot location that this thread traces.
///
/// A recording thread that meets a hot location it has seen before has
/// found an inner loop. If that location counts, the thread switches to it:
/// the location it set out from counts again from zero, and the recording
/// ends, to be compiled from the inner loop's first control point on.
/// Otherwise the recording is abandoned, as it is when the thread has left
/// the frame in which it started, or has met a compiled trace. Whenever a
/// recording is abandoned, that is a failure of the location that it was
/// made for, which counts again from zero, or is not traced any more.
pub open spec fn spec_transition(
    hls: Seq<HotLocation>,
    hot_threshold: HotThreshold,
    failure_threshold: TraceCompilationErrorThreshold,
    frame: Option<FrameView>,
    loc: Location,
    frameaddr: usize,
    lock_free: bool,
) -> Outcome {
    match loc.state {
        LocationState::Counting(c) => {
            let n = if c < HotThreshold::MAX {
                (c + 1) as u32
            } else {
                c
            };
            let id = hls.len() as usize;
            let hot = Location { state: LocationState::Hot(id) };
            match frame {
                Some(f) => {
                    let hls2 = hls.push(
                        HotLocation {
                            kind: HotLocationKind::Counting(n),
                            tracecompilation_errors: 0,
                            tracers: 0,
                        },
                    );
                    if frameaddr != f.frameaddr {
                        Outcome {
                            action: TransitionControlPoint::AbortTracing(AbortKind::OutOfFrame),
                            hls: hls2.update(
                                f.hl as int,
                                hls2[f.hl as int].spec_abandoned(failure_threshold),
                            ),
                            loc: hot,
                            frame: Some(f),
                        }
                    } else {
                        Outcome {
                            action: TransitionControlPoint::NoAction,
                            hls: hls2,
                            loc: hot,
                            frame: Some(FrameView { seen: seen_after(f, id), ..f }),
                        }
                    }
                },
                None => if n <= hot_threshold {
                    Outcome {
                        action: TransitionControlPoint::NoAction,
                        hls,
                        loc: Location { state: LocationState::Counting(n) },
                        frame: None,
                    }
                } else {
                    Outcome {
                        action: TransitionControlPoint::StartTracing(id),
                        hls: hls.push(
                            HotLocation {
                                kind: HotLocationKind::Tracing,
                                tracecompilation_errors: 0,
                                tracers: 1,
                            },
                        ),
                        loc: hot,
                        frame: None,
                    }
                },
            }
        },
        LocationState::Hot(h) => match frame {
            Some(f) => {
                if f.seen.contains_key(h) && hls[h as int].kind is Counting {
                    let left = hls[f.hl as int];
                    let hls1 = hls.update(
                        f.hl as int,
                        HotLocation {
                            kind: HotLocationKind::Counting(0),
                            tracers: dec(left.tracers),
                            ..left
                        },
                    );
                    let inner = hls1[h as int];
                    Outcome {
                        action: TransitionControlPoint::StopTracing { start_cp_idx: f.seen[h] },
                        hls: hls1.update(
                            h as int,
                            HotLocation {
                                kind: HotLocationKind::Compiling,
                                tracers: inc(inner.tracers),
                                ..inner
                            },
                        ),
                        loc,
                        frame: Some(FrameView { hl: h, ..f }),
                    }
                } else {
                    let f2 = FrameView { seen: seen_after(f, h), ..f };
                    let reason = if f.seen.contains_key(h) {
                        Some(AbortKind::Unrolled)
                    } else if frameaddr != f.frameaddr {
                        Some(AbortKind::OutOfFrame)
                    } else {
                        None
                    };
                    match reason {
                        Some(k) => Outcome {
                            action: TransitionControlPoint::AbortTracing(k),
                            hls: hls.update(
                                f.hl as int,
                                hls[f.hl as int].spec_abandoned(failure_threshold),
                            ),
                            loc,
                            frame: Some(f2),
                        },
                        None => {
                            let (action, hl2) = kind_step(
                                hls[h as int],
                                h,
                                Some(f.hl),
                                hot_threshold,
                                failure_threshold,
                            );
                            let hls2 = hls.update(h as int, hl2);
                            Outcome {
                                action,
                                hls: if action is AbortTracing {
                                    hls2.update(
                                        f.hl as int,
                                        hls2[f.hl as int].spec_abandoned(failure_threshold),
                                    )
                                } else {
                                    hls2
                                },
                                loc,
                                frame: Some(f2),
                            }
                        },
                    }
                }
            },
            None => if !lock_free {
                Outcome { action: TransitionControlPoint::NoAction, hls, loc, frame: None }
            } else {
                let (action, hl2) = kind_step(
                    hls[h as int],
                    h,
                    None,
                    hot_threshold,
                    failure_threshold,
                );
                Outcome { action, hls: hls.update(h as int, hl2), loc, frame: None }
            },
        },
    }
}

/// What a recording has seen once it has met the hot location `h`: the first
/// meeting is noted with the index of the control point.
pub open spec fn seen_after(f: FrameView, h: HotLocationId) -> Map<HotLocationId, usize> {
    if f.seen.contains_key(h) {
        f.seen
    } else {
        f.seen.insert(h, f.cp_idx)
    }
}

impl TracingFrame {
    /// What the recording contributes to a step.
    pub open spec fn key(&self) -> FrameView {
        FrameView { hl: self.hl, frameaddr: self.frameaddr, seen: self.seen_hls@, cp_idx: self.cp_idx }
    }

    /// `self` is `o` but for where the trace will end and what it has seen.
    pub open spec fn same_record(&self, o: &Self) -> bool {
        &&& self.promotions == o.promotions
        &&& self.debug_strs == o.debug_strs
        &&& self.frameaddr == o.frameaddr
        &&& self.cp_idx == o.cp_idx
    }
}

impl MTThread {
    /// What the thread contributes to a step at the control point.
    pub open spec fn frame_view(&self) -> Option<FrameView> {
        match self.top() {
            MTThreadState::Tracing(f) => Some(f.key()),
            _ => None,
        }
    }

    /// The hot locations that the thread's recording names exist in a table
    /// of `n` hot locations.
    pub open spec fn within(&self, n: nat) -> bool {
        match self.top() {
            MTThreadState::Tracing(f) => f.hl < n && forall|h: HotLocationId|
                f.seen_hls@.contains_key(h) ==> h < n,
            _ => true,
        }
    }
}

/// The meta-tracer.
#[derive(Debug)]
pub struct MT {
    /// Has `shutdown` been called?
    pub shutdown: bool,
    /// How often a location is hit before it is traced.
    pub hot_threshold: HotThreshold,
    /// How often a guard fails before a side-trace is recorded for it.
    pub sidetrace_threshold: HotThreshold,
    /// How often tracing or compiling a location may fail.
    pub trace_failure_threshold: TraceCompilationErrorThreshold,
    /// How many threads may compile traces at a time.
    pub max_worker_threads: usize,
    /// The number of the next compiled trace.
    pub compiled_trace_id: u64,
    /// The hot locations. One is never removed.
    pub hls: Vec<HotLocation>,
    /// The compiled traces, in the order in which they were registered.
    pub compiled_traces: Vec<CompiledTrace>,
}

/// The hot threshold as a decimal number was not understood.
#[derive(Debug, Clone, Copy, PartialEq, Eq, Structural)]
pub struct InvalidHotThreshold;

/// The number that the decimal digits `s` stand for.
pub open spec fn decimal_value(s: Seq<u8>) -> nat
    decreases s.len(),
{
    if s.len() == 0 {
        0
    } else {
        decimal_value(s.drop_last()) * 10 + (s.last() - 0x30) as nat
    }
}

/// Are all of `s` decimal digits?
pub open spec fn all_digits(s: Seq<u8>) -> bool {
    forall|i: int| 0 <= i < s.len() ==> 0x30 <= #[trigger] s[i] <= 0x39
}

/// The number that the text `s` stands for as a hot threshold: decimal
/// digits, at least one, after an optional plus sign, that make a number a
/// threshold can hold. `None` for any other text.
pub open spec fn spec_parse_threshold(s: Seq<u8>) -> Option<HotThreshold> {
    let digits = if s.len() > 0 && s[0] == 0x2b {
        s.subrange(1, s.len() as int)
    } else {
        s
    };
    if digits.len() > 0 && all_digits(digits) && decimal_value(digits) <= HotThreshold::MAX {
        Some(decimal_value(digits) as HotThreshold)
    } else {
        None
    }
}

/// A number does not get smaller when digits are added to it.
proof fn lemma_decimal_grows(s: Seq<u8>, k: int)
    requires
        all_digits(s),
        0 <= k <= s.len(),
    ensures
        decimal_value(s.subrange(0, k)) <= decimal_value(s),
    decreases s.len() - k,
{
    if k < s.len() {
        let next = s.subrange(0, k + 1);
        assert(next.drop_last() =~= s.subrange(0, k));
        assert(0x30 <= s[k] <= 0x39);
        lemma_decimal_grows(s, k + 1);
    } else {
        assert(s.subrange(0, k) =~= s);
    }
}

/// Read a hot threshold from its text.
pub fn parse_hot_threshold(s: &[u8]) -> (r: Option<HotThreshold>)
    ensures
        r == spec_parse_threshold(s@),
{
    let start: usize = if s.len() > 0 && s[0] == 0x2b {
        1
    } else {
        0
    };
    let ghost digits = s@.subrange(start as int, s@.len() as int);
    proof {
        assert(s@.subrange(0, s@.len() as int) =~= s@);
    }
    if start == s.len() {
        return None;
    }
    let mut v: u64 = 0;
    let mut i: usize = start;
    while i < s.len()
        invariant
            start <= i <= s@.len(),
            start < s@.len(),
            digits == s@.subrange(start as int, s@.len() as int),
            digits == if s@.len() > 0 && s@[0] == 0x2b {
                s@.subrange(1, s@.len() as int)
            } else {
                s@
            },
            all_digits(digits.subrange(0, i - start)),
            v == decimal_value(digits.subrange(0, i - start)),
            v <= HotThreshold::MAX,
        decreases s@.len() - i,
    {
        let b = s[i];
        if b < 0x30 || b > 0x39 {
            proof {
                assert(digits[i - start] == b);
            }
            return None;
        }
        let ghost pre = digits.subrange(0, i - start);
        let ghost next = digits.subrange(0, i - start + 1);
        proof {
            assert(next.drop_last() =~= pre);
            assert(next.last() == b);
            assert forall|j: int| 0 <= j < next.len() implies 0x30 <= #[trigger] next[j] <= 0x39 by {
                if j < pre.len() {
                    assert(next[j] == pre[j]);
                }
            }
        }
        let nv: u64 = v * 10 + (b - 0x30) as u64;
        if nv > HotThreshold::MAX as u64 {
            proof {
                // The digits that follow cannot make the number smaller.
                if all_digits(digits) {
                    lemma_decimal_grows(digits, i - start + 1);
                }
            }
            return None;
        }
        v = nv;
        i = i + 1;
    }
    proof {
        assert(digits.subrange(0, i - start) =~= digits);
    }
    Some(v as HotThreshold)
}

/// How many threads compile traces unless told otherwise: one less than the
/// machine has processors, and one at least.
pub fn default_max_worker_threads(cpus: usize) -> (n: usize)
    ensures
        n == if cpus >= 2 {
            (cpus - 1) as usize
        } else {
            1usize
        },
{
    if cpus >= 2 {
        cpus - 1
    } else {
        1
    }
}

/// The number of processors that this process may use: `num_cpus::get`.
/// What it returns depends on the machine and on the moment, so nothing is
/// said of it.
#[verifier::external_body]
fn logical_cpus() -> (n: usize) {
    num_cpus::get()
}

/// The stack pointer with which a compiled trace is entered from a control
/// point in the frame at `frameaddr`: the end of that frame, which is
/// `frame_size` bytes long counted from the saved base pointer if it has
/// one. Addresses wrap around.
pub fn exec_trace_rsp(frameaddr: usize, frame_size: usize, hasfp: bool) -> (rsp: usize)
    ensures
        ({
            let base: int = if frameaddr >= frame_size {
                frameaddr - frame_size
            } else {
                frameaddr - frame_size + usize::MAX + 1
            };
            rsp == if !hasfp {
                base
            } else if base + REG64_SIZE > usize::MAX {
                base + REG64_SIZE - usize::MAX - 1
            } else {
                base + REG64_SIZE
            }
        }),
{
    let base = frameaddr.wrapping_sub(frame_size);
    if hasfp {
        base.wrapping_add(REG64_SIZE)
    } else {
        base
    }
}

/// How loudly the failure of a compilation is logged: as a warning if the
/// trace was at fault, as an error if the compiler or the machine was.
pub fn compile_error_verbosity(e: CompilationError) -> (v: Verbosity)
    ensures
        v == match e {
            CompilationError::General => Verbosity::Warning,
            CompilationError::LimitExceeded => Verbosity::Warning,
            CompilationError::InternalError => Verbosity::Error,
            CompilationError::ResourceExhausted => Verbosity::Error,
        },
{
    match e {
        CompilationError::General | CompilationError::LimitExceeded => Verbosity::Warning,
        CompilationError::InternalError | CompilationError::ResourceExhausted => Verbosity::Error,
    }
}

impl MT {
    /// The registry names hot locations that exist, and holds no identifier
    /// twice nor one that has not been handed out. A location may always
    /// fail once.
    pub open spec fn wf(&self) -> bool {
        &&& self.trace_failure_threshold >= 1
        &&& forall|i: int|
            0 <= i < self.compiled_traces@.len() ==> {
                &&& (#[trigger] self.compiled_traces@[i]).ctrid.0 < self.compiled_trace_id
                &&& match self.compiled_traces@[i].hl {
                    Some(h) => h < self.hls@.len(),
                    None => true,
                }
            }
        &&& forall|i: int, j: int|
            0 <= i < j < self.compiled_traces@.len() ==> (#[trigger] self.compiled_traces@[i]).ctrid
                != (#[trigger] self.compiled_traces@[j]).ctrid
    }

    /// Every hot location is held by as many threads as its state allows: by
    /// one at most while it is traced, and by none otherwise.
    pub open spec fn quiet(&self) -> bool {
        forall|h: int|
            0 <= h < self.hls@.len() ==> if (#[trigger] self.hls@[h]).being_traced() {
                self.hls@[h].tracers <= 1
            } else {
                self.hls@[h].tracers == 0
            }
    }

    /// `self` is `o` but for the hot locations.
    /// `self` has the settings of `o`: the thresholds, the limit on worker
    /// threads, and whether it has been shut down.
    pub open spec fn same_settings(&self, o: &Self) -> bool {
        &&& self.shutdown == o.shutdown
        &&& self.hot_threshold == o.hot_threshold
        &&& self.sidetrace_threshold == o.sidetrace_threshold
        &&& self.trace_failure_threshold == o.trace_failure_threshold
        &&& self.max_worker_threads == o.max_worker_threads
    }

    pub open spec fn same_config(&self, o: &Self) -> bool {
        &&& self.shutdown == o.shutdown
        &&& self.hot_threshold == o.hot_threshold
        &&& self.sidetrace_threshold == o.sidetrace_threshold
        &&& self.trace_failure_threshold == o.trace_failure_threshold
        &&& self.max_worker_threads == o.max_worker_threads
        &&& self.compiled_trace_id == o.compiled_trace_id
        &&& self.compiled_traces == o.compiled_traces
    }

    /// `self` is `o` after a call of `shutdown` that returned `first`: the
    /// call says whether it was the first, and leaves the meta-tracer shut
    /// down and otherwise as it was.
    pub open spec fn shut_down_from(&self, o: &Self, first: bool) -> bool {
        &&& first == !o.shutdown
        &&& self.shutdown
        &&& self.hot_threshold == o.hot_threshold
        &&& self.sidetrace_threshold == o.sidetrace_threshold
        &&& self.trace_failure_threshold == o.trace_failure_threshold
        &&& self.max_worker_threads == o.max_worker_threads
        &&& self.compiled_trace_id == o.compiled_trace_id
        &&& self.hls == o.hls
        &&& self.compiled_traces == o.compiled_traces
    }

    /// Shutting down is idempotent: of two calls of `shutdown` in a row the
    /// second does no work, and finds and leaves the meta-tracer as the
    /// first left it.
    pub proof fn lemma_shutdown_once(a: &Self, b: &Self, c: &Self, first: bool, second: bool)
        requires
            b.shut_down_from(a, first),
            c.shut_down_from(b, second),
        ensures
            !second,
            c.shutdown == b.shutdown,
            c.same_config(b),
            c.hls == b.hls,
    {
    }

    /// The step that `transition_control_point` takes for `mtt` and `loc`.
    pub open spec fn spec_tcp(&self, mtt: &MTThread, loc: Location, frameaddr: usize, lock_free: bool) -> Outcome {
        spec_transition(
            self.hls@,
            self.hot_threshold,
            self.trace_failure_threshold,
            mtt.frame_view(),
            loc,
            frameaddr,
            lock_free,
        )
    }

    /// Create a meta-tracer. `hot_threshold` is the text of the hot
    /// threshold that the environment asks for, if it asks for one.
    pub fn new(hot_threshold: Option<&str>) -> (r: Result<Self, InvalidHotThreshold>)
        ensures
            match r {
                Ok(mt) => {
                    &&& mt.wf()
                    &&& mt.quiet()
                    &&& !mt.shutdown
                    &&& match hot_threshold {
                        Some(s) => spec_parse_threshold(s.spec_bytes()) == Some(mt.hot_threshold),
                        None => mt.hot_threshold == DEFAULT_HOT_THRESHOLD,
                    }
                    &&& mt.sidetrace_threshold == DEFAULT_SIDETRACE_THRESHOLD
                    &&& mt.trace_failure_threshold == DEFAULT_TRACECOMPILATION_ERROR_THRESHOLD
                    &&& mt.max_worker_threads >= 1
                    &&& mt.compiled_trace_id == 0
                    &&& mt.hls@.len() == 0
                    &&& mt.compiled_traces@.len() == 0
                },
                Err(_) => hot_threshold is Some && spec_parse_threshold(
                    hot_threshold.unwrap().spec_bytes(),
                ) is None,
            },
    {
        let threshold = match hot_threshold {
            Some(s) => match parse_hot_threshold(s.as_bytes()) {
                Some(t) => t,
                None => {
                    return Err(InvalidHotThreshold);
                },
            },
            None => DEFAULT_HOT_THRESHOLD,
        };
        Ok(Self::with_threshold(threshold, default_max_worker_threads(logical_cpus())))
    }

    /// Create a meta-tracer with the hot threshold `hot_threshold` that
    /// compiles on up to `max_worker_threads` threads.
    pub fn with_threshold(hot_threshold: HotThreshold, max_worker_threads: usize) -> (mt: Self)
        ensures
            mt.wf(),
            mt.quiet(),
            !mt.shutdown,
            mt.hot_threshold == hot_threshold,
            mt.sidetrace_threshold == DEFAULT_SIDETRACE_THRESHOLD,
            mt.trace_failure_threshold == DEFAULT_TRACECOMPILATION_ERROR_THRESHOLD,
            mt.max_worker_threads == max_worker_threads,
            mt.compiled_trace_id == 0,
            mt.hls@.len() == 0,
            mt.compiled_traces@.len() == 0,
    {
        MT {
            shutdown: false,
            hot_threshold,
            sidetrace_threshold: DEFAULT_SIDETRACE_THRESHOLD,
            trace_failure_threshold: DEFAULT_TRACECOMPILATION_ERROR_THRESHOLD,
            max_worker_threads,
            compiled_trace_id: 0,
            hls: Vec::new(),
            compiled_traces: Vec::new(),
        }
    }

    /// Put the meta-tracer into shutdown mode. Returns `true` the first
    /// time: the caller then prints statistics and joins the worker threads
    /// that have finished. Any later call changes nothing and returns
    /// `false`.
    pub fn shutdown(&mut self) -> (first: bool)
        ensures
            final(self).shut_down_from(old(self), first),
    {
        let first = !self.shutdown;
        self.shutdown = true;
        first
    }

    /// The hot threshold.
    pub fn hot_threshold(&self) -> (t: HotThreshold)
        ensures
            t == self.hot_threshold,
    {
        self.hot_threshold
    }

    /// Set the threshold at which locations are considered hot.
    pub fn set_hot_threshold(&mut self, hot_threshold: HotThreshold)
        ensures
            *final(self) == (MT { hot_threshold, ..*old(self) }),
    {
        self.hot_threshold = hot_threshold;
    }

    /// The side-trace threshold.
    pub fn sidetrace_threshold(&self) -> (t: HotThreshold)
        ensures
            t == self.sidetrace_threshold,
    {
        self.sidetrace_threshold
    }

    /// Set the threshold at which the failures of a guard are considered
    /// hot.
    pub fn set_sidetrace_threshold(&mut self, hot_threshold: HotThreshold)
        ensures
            *final(self) == (MT { sidetrace_threshold: hot_threshold, ..*old(self) }),
    {
        self.sidetrace_threshold = hot_threshold;
    }

    /// The trace failure threshold.
    pub fn trace_failure_threshold(&self) -> (t: TraceCompilationErrorThreshold)
        ensures
            t == self.trace_failure_threshold,
    {
        self.trace_failure_threshold
    }

    /// Set how often tracing or compiling a location may fail before the
    /// location is not traced again. That must be once at least.
    pub fn set_trace_failure_threshold(&mut self, trace_failure_threshold: TraceCompilationErrorThreshold)
        requires
            trace_failure_threshold >= 1,
        ensures
            *final(self) == (MT { trace_failure_threshold, ..*old(self) }),
    {
        self.trace_failure_threshold = trace_failure_threshold;
    }

    /// The largest number of worker threads.
    pub fn max_worker_threads(&self) -> (n: usize)
        ensures
            n == self.max_worker_threads,
    {
        self.max_worker_threads
    }

    /// With `active` worker threads running and a job just queued: is
    /// another worker thread to be started?
    pub fn wants_worker(&self, active: usize) -> (r: bool)
        ensures
            r == (active < self.max_worker_threads),
    {
        active < self.max_worker_threads
    }

    /// Hand out the identifier for the next compiled trace: each is handed
    /// out once. There must be one left.
    pub fn next_compiled_trace_id(&mut self) -> (id: CompiledTraceId)
        requires
            old(self).wf(),
            old(self).compiled_trace_id < u64::MAX,
        ensures
            final(self).wf(),
            final(self).hls == old(self).hls,
            final(self).compiled_traces == old(self).compiled_traces,
            final(self).shutdown == old(self).shutdown,
            final(self).hot_threshold == old(self).hot_threshold,
            final(self).sidetrace_threshold == old(self).sidetrace_threshold,
            final(self).trace_failure_threshold == old(self).trace_failure_threshold,
            final(self).max_worker_threads == old(self).max_worker_threads,
            id.0 == old(self).compiled_trace_id,
            final(self).compiled_trace_id == id.0 + 1,
            forall|i: int|
                0 <= i < old(self).compiled_traces@.len() ==> (#[trigger] old(self).compiled_traces@[i]).ctrid
                    != id,
    {
        let id = self.compiled_trace_id;
        self.compiled_trace_id = id + 1;
        CompiledTraceId(id)
    }

    /// The record of the hot location `id`.
    pub fn hot_location(&self, id: HotLocationId) -> (hl: HotLocation)
        requires
            id < self.hls@.len(),
        ensures
            hl == self.hls@[id as int],
    {
        self.hls[id]
    }

    /// Where in the registry the compiled trace `ctrid` is.
    pub fn find_trace(&self, ctrid: CompiledTraceId) -> (r: Option<usize>)
        ensures
            match r {
                Some(i) => i < self.compiled_traces@.len() && self.compiled_traces@[i as int].ctrid
                    == ctrid,
                None => forall|i: int|
                    0 <= i < self.compiled_traces@.len() ==> (#[trigger] self.compiled_traces@[i]).ctrid
                        != ctrid,
            },
    {
        let mut i: usize = 0;
        while i < self.compiled_traces.len()
            invariant
                i <= self.compiled_traces@.len(),
                forall|j: int| 0 <= j < i ==> (#[trigger] self.compiled_traces@[j]).ctrid != ctrid,
            decreases self.compiled_traces@.len() - i,
        {
            if self.compiled_traces[i].ctrid == ctrid {
                return Some(i);
            }
            i = i + 1;
        }
        None
    }

    /// Add a hot location to the table and return its index.
    fn add_hot_location(&mut self, hl: HotLocation) -> (id: HotLocationId)
        requires
            old(self).wf(),
        ensures
            final(self).wf(),
            final(self).same_config(old(self)),
            id == old(self).hls@.len(),
            final(self).hls@ == old(self).hls@.push(hl),
    {
        let id = self.hls.len();
        self.hls.push(hl);
        id
    }

    /// Take the next step for `loc`, which the thread of `mtt` has reached at
    /// the control point in the interpreter frame at `frameaddr`, and return
    /// what the thread is to do.
    ///
    /// `lock_free` says whether the thread got hold of the hot location
    /// without waiting. A thread that records a trace always waits; any other
    /// gives up for this time.
    pub fn transition_control_point(&mut self, mtt: &mut MTThread, loc: &mut Location, frameaddr: usize, lock_free: bool) -> (r: TransitionControlPoint)
        requires
            old(self).wf(),
            old(mtt).wf(),
            old(mtt).within(old(self).hls@.len()),
            old(loc).state matches LocationState::Hot(h) ==> h < old(self).hls@.len(),
        ensures
            final(self).wf(),
            final(mtt).wf(),
            final(self).same_config(old(self)),
            ({
                let out = old(self).spec_tcp(old(mtt), *old(loc), frameaddr, lock_free);
                &&& r == out.action
                &&& final(self).hls@ == out.hls
                &&& *final(loc) == out.loc
                &&& match old(mtt).top() {
                    MTThreadState::Tracing(f) => match final(mtt).top() {
                        MTThreadState::Tracing(g) => {
                            &&& final(mtt).with_frame(old(mtt), g)
                            &&& Some(g.key()) == out.frame
                            &&& g.same_record(&f)
                        },
                        _ => false,
                    },
                    _ => final(mtt).tstate@ == old(mtt).tstate@,
                }
            }),
            final(mtt).within(final(self).hls@.len()),
            final(self).hls@.len() >= old(self).hls@.len(),
            final(loc).state matches LocationState::Hot(h) ==> h < final(self).hls@.len(),
            // A location counts upwards until it becomes hot, and stays hot.
            match old(loc).state {
                LocationState::Counting(c) => match final(loc).state {
                    LocationState::Counting(d) => c <= d,
                    LocationState::Hot(_) => true,
                },
                LocationState::Hot(_) => *final(loc) == *old(loc),
            },
    {
        let ghost pre_stack = mtt.tstate@;
        let ghost o0 = *self;
        let top = mtt.tstate.pop().unwrap();
        match top {
            MTThreadState::Tracing(mut f) => {
                let ghost f0 = f;
                let r = match loc.hot_location() {
                    Some(h) => {
                        let seen = f.seen_hls.contains_key(&h);
                        let hl = self.hls[h];
                        if seen && matches!(hl.kind, HotLocationKind::Counting(_)) {
                            // An inner loop: trace that instead.
                            let start_cp_idx = *f.seen_hls.get(&h).unwrap();
                            let mut left = self.hls[f.hl];
                            left.kind = HotLocationKind::Counting(0);
                            if left.tracers > 0 {
                                left.tracers = left.tracers - 1;
                            }
                            self.hls.set(f.hl, left);
                            let mut inner = self.hls[h];
                            inner.kind = HotLocationKind::Compiling;
                            if inner.tracers < usize::MAX {
                                inner.tracers = inner.tracers + 1;
                            }
                            self.hls.set(h, inner);
                            f.hl = h;
                            TransitionControlPoint::StopTracing { start_cp_idx }
                        } else {
                            let reason = if seen {
                                Some(AbortKind::Unrolled)
                            } else {
                                f.seen_hls.insert(h, f.cp_idx);
                                if frameaddr != f.frameaddr {
                                    Some(AbortKind::OutOfFrame)
                                } else {
                                    None
                                }
                            };
                            match reason {
                                Some(k) => {
                                    let mut left = self.hls[f.hl];
                                    left.abandon(self.trace_failure_threshold);
                                    self.hls.set(f.hl, left);
                                    TransitionControlPoint::AbortTracing(k)
                                },
                                None => {
                                    let r = self.step_hot(h, Some(f.hl));
                                    if let TransitionControlPoint::AbortTracing(_) = r {
                                        let mut left = self.hls[f.hl];
                                        left.abandon(self.trace_failure_threshold);
                                        self.hls.set(f.hl, left);
                                    }
                                    r
                                },
                            }
                        }
                    },
                    None => {
                        // So that the recording can tell this location from
                        // others, it becomes a hot location.
                        let count = loc.inc_count().unwrap();
                        let id = self.add_hot_location(
                            HotLocation {
                                kind: HotLocationKind::Counting(count),
                                tracecompilation_errors: 0,
                                tracers: 0,
                            },
                        );
                        loc.count_to_hot_location(count, id);
                        if frameaddr != f.frameaddr {
                            let mut left = self.hls[f.hl];
                            left.abandon(self.trace_failure_threshold);
                            self.hls.set(f.hl, left);
                            TransitionControlPoint::AbortTracing(AbortKind::OutOfFrame)
                        } else {
                            if !f.seen_hls.contains_key(&id) {
                                f.seen_hls.insert(id, f.cp_idx);
                            }
                            TransitionControlPoint::NoAction
                        }
                    },
                };
                proof {
                    assert(f.key().seen =~= old(self).spec_tcp(
                        old(mtt),
                        *old(loc),
                        frameaddr,
                        lock_free,
                    ).frame.unwrap().seen);
                }
                mtt.tstate.push(MTThreadState::Tracing(f));
                proof {
                    assert(mtt.tstate@ =~= pre_stack.drop_last().push(MTThreadState::Tracing(f)));
                }
                r
            },
            other => {
                mtt.tstate.push(other);
                proof {
                    assert(mtt.tstate@ =~= pre_stack);
                }
                match loc.hot_location() {
                    Some(h) => {
                        if !lock_free {
                            proof {
                                assert(self.hls@ =~= old(self).hls@);
                            }
                            TransitionControlPoint::NoAction
                        } else {
                            self.step_hot(h, None)
                        }
                    },
                    None => {
                        let x = loc.inc_count().unwrap();
                        if x <= self.hot_threshold {
                            TransitionControlPoint::NoAction
                        } else {
                            let id = self.add_hot_location(
                                HotLocation {
                                    kind: HotLocationKind::Tracing,
                                    tracecompilation_errors: 0,
                                    tracers: 1,
                                },
                            );
                            loc.count_to_hot_location(x, id);
                            TransitionControlPoint::StartTracing(id)
                        }
                    },
                }
            },
        }
    }

    /// Take the step that the state of the hot location `h` decides.
    fn step_hot(&mut self, h: HotLocationId, tracing_hl: Option<HotLocationId>) -> (r:
        TransitionControlPoint)
        requires
            old(self).wf(),
            h < old(self).hls@.len(),
        ensures
            final(self).wf(),
            final(self).same_config(old(self)),
            ({
                let (action, hl2) = kind_step(
                    old(self).hls@[h as int],
                    h,
                    tracing_hl,
                    old(self).hot_threshold,
                    old(self).trace_failure_threshold,
                );
                r == action && final(self).hls@ == old(self).hls@.update(h as int, hl2)
            }),
    {
        let mut hl = self.hls[h];
        let r = match hl.kind {
            HotLocationKind::Compiled(ctr) => {
                if tracing_hl.is_some() {
                    TransitionControlPoint::AbortTracing(AbortKind::EncounteredCompiledTrace)
                } else {
                    TransitionControlPoint::Execute(ctr)
                }
            },
            HotLocationKind::Compiling => TransitionControlPoint::NoAction,
            HotLocationKind::DontTrace => TransitionControlPoint::NoAction,
            HotLocationKind::Counting(c) => {
                if tracing_hl.is_some() {
                    TransitionControlPoint::NoAction
                } else if c < self.hot_threshold {
                    hl.kind = HotLocationKind::Counting(c + 1);
                    TransitionControlPoint::NoAction
                } else {
                    hl.kind = HotLocationKind::Tracing;
                    if hl.tracers < usize::MAX {
                        hl.tracers = hl.tracers + 1;
                    }
                    TransitionControlPoint::StartTracing(h)
                }
            },
            HotLocationKind::Tracing => match tracing_hl {
                Some(t) => {
                    if t == h {
                        hl.kind = HotLocationKind::Compiling;
                        TransitionControlPoint::StopTracing { start_cp_idx: 0 }
                    } else {
                        TransitionControlPoint::NoAction
                    }
                },
                None => {
                    if hl.tracers == 0 {
                        // The thread that was tracing this location has gone.
                        match hl.tracecompilation_error(self.trace_failure_threshold) {
                            TraceFailed::KeepTrying => {
                                hl.kind = HotLocationKind::Tracing;
                                hl.tracers = 1;
                                TransitionControlPoint::StartTracing(h)
                            },
                            TraceFailed::DontTrace => {
                                hl.kind = HotLocationKind::DontTrace;
                                TransitionControlPoint::NoAction
                            },
                        }
                    } else {
                        TransitionControlPoint::NoAction
                    }
                },
            },
            HotLocationKind::SideTracing { root_ctr, gidx, parent_ctr } => match tracing_hl {
                Some(t) => {
                    if t == h {
                        hl.kind = HotLocationKind::Compiled(root_ctr);
                        TransitionControlPoint::StopSideTracing { gidx, parent_ctr, root_ctr }
                    } else {
                        TransitionControlPoint::NoAction
                    }
                },
                None => TransitionControlPoint::Execute(root_ctr),
            },
        };
        self.hls.set(h, hl);
        r
    }
}

} // verus!
