//! What happens around a step at the control point: the thread's stack is
//! brought up to date, recorders start and fail to start, guards fail,
//! compiled code is left, compile jobs finish, threads end.

use crate::jit_ir::CompilationError;
use crate::location::{
    CompiledTraceId, GuardIdx, HotLocation, HotLocationId, HotLocationKind, HotThreshold,
    Location, LocationState, TraceCompilationErrorThreshold, TraceFailed,
};
use crate::mt::control::{
    compile_error_verbosity, dec, inc, kind_step, spec_transition, ControlPointAction, FrameView,
    Outcome, Verbosity, MT,
};
use crate::mt::{
    AbortKind, CompiledTrace, Guard, MTThread, MTThreadState, TracingFrame,
    TransitionControlPoint, TransitionGuardFailure,
};
use vstd::prelude::*;

verus! {

broadcast use vstd::std_specs::hash::group_hash_axioms;

/// The hot locations `hls` once a thread has let go of the hot location `h`.
pub open spec fn released(hls: Seq<HotLocation>, h: HotLocationId) -> Seq<HotLocation> {
    hls.update(h as int, HotLocation { tracers: dec(hls[h as int].tracers), ..hls[h as int] })
}

/// Every hot location of `hls` is held by as many threads as its state
/// allows.
pub open spec fn quiet_hls(hls: Seq<HotLocation>) -> bool {
    forall|h: int|
        0 <= h < hls.len() ==> if (#[trigger] hls[h]).being_traced() {
            hls[h].tracers <= 1
        } else {
            hls[h].tracers == 0
        }
}

/// Hot locations stay held by as many threads as their states allow where
/// each of them is as it was or is held so by itself.
pub proof fn lemma_quiet_kept(before: Seq<HotLocation>, after: Seq<HotLocation>)
    requires
        quiet_hls(before),
        after.len() == before.len(),
        forall|h: int|
            0 <= h < after.len() ==> (#[trigger] after[h]) == before[h] || if after[h].being_traced() {
                after[h].tracers <= 1
            } else {
                after[h].tracers == 0
            },
    ensures
        quiet_hls(after),
{
    assert forall|h: int| 0 <= h < after.len() implies if (#[trigger] after[h]).being_traced() {
        after[h].tracers <= 1
    } else {
        after[h].tracers == 0
    } by {
        assert(before[h].being_traced() ==> before[h].tracers <= 1);
        assert(!before[h].being_traced() ==> before[h].tracers == 0);
    }
}

/// How many of the calls `calls` of the control point of one location start
/// a recording. Each call is made by a thread that does not record, in the
/// frame at the address that the call names, and with or without having got
/// hold of the hot location without waiting, as the call says. Nothing else
/// happens between the calls.
pub open spec fn starts(
    hls: Seq<HotLocation>,
    hot_threshold: HotThreshold,
    failure_threshold: TraceCompilationErrorThreshold,
    loc: Location,
    calls: Seq<(usize, bool)>,
) -> nat
    decreases calls.len(),
{
    if calls.len() == 0 {
        0
    } else {
        let out = spec_transition(
            hls,
            hot_threshold,
            failure_threshold,
            None,
            loc,
            calls[0].0,
            calls[0].1,
        );
        let rest = starts(
            out.hls,
            hot_threshold,
            failure_threshold,
            out.loc,
            calls.subrange(1, calls.len() as int),
        );
        if out.action is StartTracing {
            rest + 1
        } else {
            rest
        }
    }
}

/// A location that a thread is tracing is left to that thread: no call of
/// its control point by a thread that does not record starts a recording.
pub proof fn lemma_traced_is_left_alone(
    hls: Seq<HotLocation>,
    hot_threshold: HotThreshold,
    failure_threshold: TraceCompilationErrorThreshold,
    loc: Location,
    calls: Seq<(usize, bool)>,
)
    requires
        loc.state matches LocationState::Hot(h) && h < hls.len() && hls[h as int].kind is Tracing
            && hls[h as int].tracers >= 1,
    ensures
        starts(hls, hot_threshold, failure_threshold, loc, calls) == 0,
    decreases calls.len(),
{
    if calls.len() > 0 {
        let out = spec_transition(
            hls,
            hot_threshold,
            failure_threshold,
            None,
            loc,
            calls[0].0,
            calls[0].1,
        );
        lemma_traced_is_left_alone(
            out.hls,
            hot_threshold,
            failure_threshold,
            out.loc,
            calls.subrange(1, calls.len() as int),
        );
    }
}

/// However many threads that do not record come to the control point of a
/// location, and however often, one of them at most starts to record.
pub proof fn lemma_one_thread_starts(
    hls: Seq<HotLocation>,
    hot_threshold: HotThreshold,
    failure_threshold: TraceCompilationErrorThreshold,
    loc: Location,
    calls: Seq<(usize, bool)>,
)
    requires
        loc.state matches LocationState::Hot(h) ==> h < hls.len(),
        hls.len() < usize::MAX,
    ensures
        starts(hls, hot_threshold, failure_threshold, loc, calls) <= 1,
    decreases calls.len(),
{
    if calls.len() > 0 {
        let out = spec_transition(
            hls,
            hot_threshold,
            failure_threshold,
            None,
            loc,
            calls[0].0,
            calls[0].1,
        );
        let rest = calls.subrange(1, calls.len() as int);
        if out.action is StartTracing {
            lemma_traced_is_left_alone(out.hls, hot_threshold, failure_threshold, out.loc, rest);
        } else {
            lemma_one_thread_starts(out.hls, hot_threshold, failure_threshold, out.loc, rest);
        }
    }
}

/// The hot locations after a step at the control point and after the thread
/// has brought its stack up to date: a thread whose recording has ended, for
/// whatever reason, has let go of the location at which it was to end.
pub open spec fn settled(out: Outcome) -> Seq<HotLocation> {
    match out.action {
        TransitionControlPoint::AbortTracing(_) => released(out.hls, out.frame.unwrap().hl),
        TransitionControlPoint::StopTracing { .. } => released(out.hls, out.frame.unwrap().hl),
        TransitionControlPoint::StopSideTracing { .. } => released(out.hls, out.frame.unwrap().hl),
        _ => out.hls,
    }
}

/// A recording ends only for a thread that records, and a trace is executed
/// or started only by a thread that does not.
pub proof fn lemma_action_fits_thread(
    hls: Seq<HotLocation>,
    hot_threshold: HotThreshold,
    failure_threshold: TraceCompilationErrorThreshold,
    frame: Option<FrameView>,
    loc: Location,
    frameaddr: usize,
    lock_free: bool,
)
    ensures
        ({
            let out = spec_transition(
                hls,
                hot_threshold,
                failure_threshold,
                frame,
                loc,
                frameaddr,
                lock_free,
            );
            match out.action {
                TransitionControlPoint::NoAction => true,
                TransitionControlPoint::Execute(_) => frame is None,
                TransitionControlPoint::StartTracing(_) => frame is None,
                _ => frame is Some && out.frame is Some,
            }
        }),
{
}

/// While every hot location is held by as many threads as its state allows,
/// it stays so across a step at the control point: in particular, no
/// location that is being traced is ever held by two threads.
pub proof fn lemma_step_keeps_quiet(
    hls: Seq<HotLocation>,
    hot_threshold: HotThreshold,
    failure_threshold: TraceCompilationErrorThreshold,
    frame: Option<FrameView>,
    loc: Location,
    frameaddr: usize,
    lock_free: bool,
)
    requires
        quiet_hls(hls),
        loc.state matches LocationState::Hot(h) ==> h < hls.len(),
        frame matches Some(f) ==> f.hl < hls.len(),
        hls.len() < usize::MAX,
    ensures
        quiet_hls(
            settled(
                spec_transition(
                    hls,
                    hot_threshold,
                    failure_threshold,
                    frame,
                    loc,
                    frameaddr,
                    lock_free,
                ),
            ),
        ),
{
    let out = spec_transition(
        hls,
        hot_threshold,
        failure_threshold,
        frame,
        loc,
        frameaddr,
        lock_free,
    );
    let fin = settled(out);
    assert forall|h: int| 0 <= h < fin.len() implies if (#[trigger] fin[h]).being_traced() {
        fin[h].tracers <= 1
    } else {
        fin[h].tracers == 0
    } by {
        if h < hls.len() {
            assert(hls[h].being_traced() ==> hls[h].tracers <= 1);
            assert(!hls[h].being_traced() ==> hls[h].tracers == 0);
        }
        if let Some(f) = frame {
            assert(hls[f.hl as int].being_traced() ==> hls[f.hl as int].tracers <= 1);
            assert(!hls[f.hl as int].being_traced() ==> hls[f.hl as int].tracers == 0);
        }
        if let LocationState::Hot(x) = loc.state {
            assert(hls[x as int].being_traced() ==> hls[x as int].tracers <= 1);
            assert(!hls[x as int].being_traced() ==> hls[x as int].tracers == 0);
        }
    }
}

/// A recording that is abandoned, for whatever reason, is a failure of the
/// location that was being traced: the failure is counted, and the location
/// counts from zero again, or is never to be traced again.
pub proof fn lemma_abort_resets_location(
    hls: Seq<HotLocation>,
    hot_threshold: HotThreshold,
    failure_threshold: TraceCompilationErrorThreshold,
    f: FrameView,
    loc: Location,
    frameaddr: usize,
    lock_free: bool,
)
    requires
        f.hl < hls.len(),
        loc.state matches LocationState::Hot(h) ==> h < hls.len(),
        hls[f.hl as int].kind is Tracing,
        spec_transition(
            hls,
            hot_threshold,
            failure_threshold,
            Some(f),
            loc,
            frameaddr,
            lock_free,
        ).action is AbortTracing,
    ensures
        ({
            let after = spec_transition(
                hls,
                hot_threshold,
                failure_threshold,
                Some(f),
                loc,
                frameaddr,
                lock_free,
            ).hls[f.hl as int];
            &&& after.kind == HotLocationKind::Counting(0) || after.kind
                == HotLocationKind::DontTrace
            &&& after.kind == HotLocationKind::DontTrace <==> after.tracecompilation_errors
                > failure_threshold
            &&& after.tracecompilation_errors == if hls[f.hl as int].tracecompilation_errors
                < u16::MAX {
                hls[f.hl as int].tracecompilation_errors + 1
            } else {
                u16::MAX as int
            }
        }),
{
}

impl MT {
    /// Every identifier that has been handed out to a trace of the registry
    /// belongs to that trace alone.
    pub proof fn lemma_ids_unique(&self, i: int, j: int)
        requires
            self.wf(),
            0 <= i < self.compiled_traces@.len(),
            0 <= j < self.compiled_traces@.len(),
            i != j,
        ensures
            self.compiled_traces@[i].ctrid != self.compiled_traces@[j].ctrid,
            self.compiled_traces@[i].ctrid.0 < self.compiled_trace_id,
    {
        if i < j {
            assert(self.compiled_traces@[i].ctrid != self.compiled_traces@[j].ctrid);
        } else {
            assert(self.compiled_traces@[j].ctrid != self.compiled_traces@[i].ctrid);
        }
    }

    /// The thread of `mtt` has reached the control point for `loc` in the
    /// interpreter frame at `frameaddr`: take the step, bring the thread's
    /// stack up to date, and return what is left for the caller to do.
    ///
    /// A recording that ends, because it is complete or because it is
    /// abandoned, leaves the stack, and the thread lets go of the hot
    /// location; a thread that is to execute a trace notes so on its stack.
    pub fn control_point(&mut self, mtt: &mut MTThread, loc: &mut Location, frameaddr: usize, lock_free: bool) -> (r: ControlPointAction)
        requires
            old(self).wf(),
            old(mtt).wf(),
            old(mtt).within(old(self).hls@.len()),
            old(loc).state matches LocationState::Hot(h) ==> h < old(self).hls@.len(),
            old(self).hls@.len() < usize::MAX,
        ensures
            final(self).wf(),
            final(mtt).wf(),
            final(self).same_config(old(self)),
            final(mtt).within(final(self).hls@.len()),
            final(loc).state matches LocationState::Hot(h) ==> h < final(self).hls@.len(),
            ({
                let out = old(self).spec_tcp(old(mtt), *old(loc), frameaddr, lock_free);
                &&& *final(loc) == out.loc
                &&& final(self).hls@ == settled(out)
                &&& match out.action {
                    TransitionControlPoint::NoAction => {
                        &&& r is NoAction
                        &&& match old(mtt).top() {
                            MTThreadState::Tracing(f) => match final(mtt).top() {
                                MTThreadState::Tracing(g) => final(mtt).with_frame(old(mtt), g)
                                    && Some(g.key()) == out.frame && g.same_record(&f),
                                _ => false,
                            },
                            _ => final(mtt).tstate@ == old(mtt).tstate@,
                        }
                    },
                    TransitionControlPoint::AbortTracing(k) => {
                        &&& r matches ControlPointAction::AbortTracing(k2) && k2 == k
                        &&& final(mtt).tstate@ == old(mtt).tstate@.drop_last()
                    },
                    TransitionControlPoint::Execute(ctr) => {
                        &&& r matches ControlPointAction::Execute(c2) && c2 == ctr
                        &&& final(mtt).tstate@ == old(mtt).tstate@.push(
                            MTThreadState::Executing { ctr },
                        )
                    },
                    TransitionControlPoint::StartTracing(h) => {
                        &&& r matches ControlPointAction::StartTracing(h2) && h2 == h
                        &&& final(mtt).tstate@ == old(mtt).tstate@
                    },
                    TransitionControlPoint::StopTracing { start_cp_idx } => {
                        &&& r matches ControlPointAction::StopTracing {
                            hl,
                            start_cp_idx: idx,
                            promotions,
                            debug_strs,
                        } && hl == out.frame.unwrap().hl && idx == start_cp_idx && promotions
                            == old(mtt).top()->Tracing_0.promotions && debug_strs
                            == old(mtt).top()->Tracing_0.debug_strs
                        &&& final(mtt).tstate@ == old(mtt).tstate@.drop_last()
                    },
                    TransitionControlPoint::StopSideTracing { gidx, parent_ctr, root_ctr } => {
                        &&& r matches ControlPointAction::StopSideTracing {
                            hl,
                            gidx: g2,
                            parent_ctr: p2,
                            root_ctr: r2,
                            promotions,
                            debug_strs,
                        } && hl == out.frame.unwrap().hl && g2 == gidx && p2 == parent_ctr && r2
                            == root_ctr && promotions == old(mtt).top()->Tracing_0.promotions
                            && debug_strs == old(mtt).top()->Tracing_0.debug_strs
                        &&& final(mtt).tstate@ == old(mtt).tstate@.drop_last()
                    },
                }
            }),
            old(self).quiet() ==> final(self).quiet(),
    {
        proof {
            lemma_action_fits_thread(
                self.hls@,
                self.hot_threshold,
                self.trace_failure_threshold,
                mtt.frame_view(),
                *loc,
                frameaddr,
                lock_free,
            );
            if self.quiet() {
                lemma_step_keeps_quiet(
                    self.hls@,
                    self.hot_threshold,
                    self.trace_failure_threshold,
                    mtt.frame_view(),
                    *loc,
                    frameaddr,
                    lock_free,
                );
            }
        }
        let ghost pre_stack = mtt.tstate@;
        match self.transition_control_point(mtt, loc, frameaddr, lock_free) {
            TransitionControlPoint::NoAction => ControlPointAction::NoAction,
            TransitionControlPoint::AbortTracing(k) => {
                match mtt.tstate.pop().unwrap() {
                    MTThreadState::Tracing(f) => {
                        self.release(f.hl);
                    },
                    _ => {},
                }
                proof {
                    assert(mtt.tstate@ =~= pre_stack.drop_last());
                }
                ControlPointAction::AbortTracing(k)
            },
            TransitionControlPoint::Execute(ctr) => {
                mtt.tstate.push(MTThreadState::Executing { ctr });
                ControlPointAction::Execute(ctr)
            },
            TransitionControlPoint::StartTracing(h) => ControlPointAction::StartTracing(h),
            TransitionControlPoint::StopTracing { start_cp_idx } => {
                match mtt.tstate.pop().unwrap() {
                    MTThreadState::Tracing(f) => {
                        self.release(f.hl);
                        proof {
                            assert(mtt.tstate@ =~= pre_stack.drop_last());
                        }
                        ControlPointAction::StopTracing {
                            hl: f.hl,
                            start_cp_idx,
                            promotions: f.promotions,
                            debug_strs: f.debug_strs,
                        }
                    },
                    _ => ControlPointAction::NoAction,
                }
            },
            TransitionControlPoint::StopSideTracing { gidx, parent_ctr, root_ctr } => {
                match mtt.tstate.pop().unwrap() {
                    MTThreadState::Tracing(f) => {
                        self.release(f.hl);
                        proof {
                            assert(mtt.tstate@ =~= pre_stack.drop_last());
                        }
                        ControlPointAction::StopSideTracing {
                            hl: f.hl,
                            gidx,
                            parent_ctr,
                            root_ctr,
                            promotions: f.promotions,
                            debug_strs: f.debug_strs,
                        }
                    },
                    _ => ControlPointAction::NoAction,
                }
            },
        }
    }

    /// A thread lets go of the hot location `h`.
    pub fn release(&mut self, h: HotLocationId)
        requires
            old(self).wf(),
            h < old(self).hls@.len(),
        ensures
            final(self).wf(),
            final(self).same_config(old(self)),
            final(self).hls@ == released(old(self).hls@, h),
    {
        let mut hl = self.hls[h];
        if hl.tracers > 0 {
            hl.tracers = hl.tracers - 1;
        }
        self.hls.set(h, hl);
    }

    /// The recorder that the thread of `mtt` was to start for the hot
    /// location `hl` is running: the thread records, from the interpreter
    /// frame at `frameaddr` on.
    pub fn tracing_started(&self, mtt: &mut MTThread, hl: HotLocationId, frameaddr: usize)
        requires
            old(mtt).wf(),
            !(old(mtt).top() is Tracing),
            hl < self.hls@.len(),
        ensures
            final(mtt).wf(),
            final(mtt).within(self.hls@.len()),
            final(mtt).tstate@.len() == old(mtt).tstate@.len() + 1,
            final(mtt).tstate@.drop_last() == old(mtt).tstate@,
            final(mtt).frame_view() == Some(
                FrameView { hl, frameaddr, seen: Map::<HotLocationId, usize>::empty(), cp_idx: 0 },
            ),
            final(mtt).top()->Tracing_0.promotions@.len() == 0,
            final(mtt).top()->Tracing_0.debug_strs@.len() == 0,
    {
        let ghost pre = mtt.tstate@;
        mtt.tstate.push(MTThreadState::Tracing(TracingFrame::new(hl, frameaddr)));
        proof {
            assert(mtt.tstate@.drop_last() =~= pre);
        }
    }

    /// The recorder that a thread was to start for the hot location `hl`
    /// could not be started: the failure is counted, the location is not
    /// traced again, and the thread lets go of it.
    pub fn tracing_start_failed(&mut self, hl: HotLocationId)
        requires
            old(self).wf(),
            hl < old(self).hls@.len(),
        ensures
            final(self).wf(),
            final(self).same_config(old(self)),
            final(self).hls@ == old(self).hls@.update(
                hl as int,
                HotLocation {
                    kind: HotLocationKind::DontTrace,
                    tracers: dec(old(self).hls@[hl as int].tracers),
                    ..old(self).hls@[hl as int].spec_failed(old(self).trace_failure_threshold).1
                },
            ),
            old(self).quiet() ==> final(self).quiet(),
    {
        let mut rec = self.hls[hl];
        rec.tracecompilation_error(self.trace_failure_threshold);
        rec.kind = HotLocationKind::DontTrace;
        if rec.tracers > 0 {
            rec.tracers = rec.tracers - 1;
        }
        self.hls.set(hl, rec);
        proof {
            if old(self).quiet() {
                lemma_quiet_kept(old(self).hls@, self.hls@);
            }
        }
    }

    /// The step for the failure of guard `gidx` of the trace at position `i`
    /// of the registry: the failure is counted, and once the guard has
    /// failed often enough, and the trace's location has its compiled trace
    /// and nothing else going on, a side-trace is recorded for the guard.
    pub open spec fn spec_guard_failure(&self, i: int, gidx: GuardIdx) -> (
        TransitionGuardFailure,
        Guard,
        Seq<HotLocation>,
    ) {
        let ctr = self.compiled_traces@[i];
        let g = ctr.guards@[gidx as int];
        let failed = if g.failed < HotThreshold::MAX {
            (g.failed + 1) as u32
        } else {
            g.failed
        };
        let g2 = Guard { failed, ..g };
        if g.failed < self.sidetrace_threshold && failed >= self.sidetrace_threshold && ctr.hl
            is Some && self.hls@[ctr.hl.unwrap() as int].kind is Compiled {
            let h = ctr.hl.unwrap();
            let hl = self.hls@[h as int];
            (
                TransitionGuardFailure::StartSideTracing(h),
                g2,
                self.hls@.update(
                    h as int,
                    HotLocation {
                        kind: HotLocationKind::SideTracing {
                            root_ctr: hl.kind->Compiled_0,
                            gidx,
                            parent_ctr: ctr.ctrid,
                        },
                        tracers: inc(hl.tracers),
                        ..hl
                    },
                ),
            )
        } else {
            (TransitionGuardFailure::NoAction, g2, self.hls@)
        }
    }

    /// Guard `gidx` of the compiled trace `parent_ctr` has failed: take the
    /// next step. Nothing happens for a trace or a guard that does not
    /// exist.
    pub fn transition_guard_failure(&mut self, parent_ctr: CompiledTraceId, gidx: GuardIdx) -> (r:
        TransitionGuardFailure)
        requires
            old(self).wf(),
        ensures
            final(self).wf(),
            final(self).shutdown == old(self).shutdown,
            final(self).hot_threshold == old(self).hot_threshold,
            final(self).sidetrace_threshold == old(self).sidetrace_threshold,
            final(self).trace_failure_threshold == old(self).trace_failure_threshold,
            final(self).max_worker_threads == old(self).max_worker_threads,
            final(self).compiled_trace_id == old(self).compiled_trace_id,
            final(self).compiled_traces@.len() == old(self).compiled_traces@.len(),
            final(self).hls@.len() == old(self).hls@.len(),
            ({
                let found = exists|i: int|
                    0 <= i < old(self).compiled_traces@.len() && (#[trigger] old(
                        self,
                    ).compiled_traces@[i]).ctrid == parent_ctr && gidx < old(self).compiled_traces@[i].guards@.len();
                &&& !found ==> r is NoAction && final(self).hls@ == old(self).hls@
                    && final(self).compiled_traces@ == old(self).compiled_traces@
                &&& found ==> exists|i: int|
                    0 <= i < old(self).compiled_traces@.len() && (#[trigger] old(
                        self,
                    ).compiled_traces@[i]).ctrid == parent_ctr && gidx < old(self).compiled_traces@[i].guards@.len()
                        && final(self).guard_failed_at(old(self), i, gidx, r)
            }),
            old(self).quiet() ==> final(self).quiet(),
    {
        let i = match self.find_trace(parent_ctr) {
            Some(i) => i,
            None => {
                return TransitionGuardFailure::NoAction;
            },
        };
        if gidx >= self.compiled_traces[i].guards.len() {
            proof {
                assert forall|k: int|
                    0 <= k < self.compiled_traces@.len() && (#[trigger] self.compiled_traces@[k]).ctrid
                        == parent_ctr implies k == i by {
                    if k < i {
                        assert(self.compiled_traces@[k].ctrid != self.compiled_traces@[i as int].ctrid);
                    } else if i < k {
                        assert(self.compiled_traces@[i as int].ctrid != self.compiled_traces@[k].ctrid);
                    }
                }
            }
            return TransitionGuardFailure::NoAction;
        }
        let ghost o0 = *self;
        let mut g = self.compiled_traces[i].guards[gidx];
        let hot = g.inc_failed(self.sidetrace_threshold);
        let hl_id = self.compiled_traces[i].hl;
        let ctrid = self.compiled_traces[i].ctrid;
        self.set_guard(i, gidx, g);
        let r = if hot {
            match hl_id {
                Some(h) => {
                    let mut hl = self.hls[h];
                    match hl.kind {
                        HotLocationKind::Compiled(root_ctr) => {
                            hl.kind = HotLocationKind::SideTracing {
                                root_ctr,
                                gidx,
                                parent_ctr: ctrid,
                            };
                            if hl.tracers < usize::MAX {
                                hl.tracers = hl.tracers + 1;
                            }
                            self.hls.set(h, hl);
                            TransitionGuardFailure::StartSideTracing(h)
                        },
                        _ => TransitionGuardFailure::NoAction,
                    }
                },
                None => TransitionGuardFailure::NoAction,
            }
        } else {
            TransitionGuardFailure::NoAction
        };
        proof {
            assert(self.hls@ =~= o0.spec_guard_failure(i as int, gidx).2);
            if o0.quiet() {
                lemma_quiet_kept(o0.hls@, self.hls@);
            }
        }
        r
    }

    /// `self` is `o` after the step for the failure of guard `gidx` of the
    /// trace at position `i` of the registry, which came to `r`.
    pub open spec fn guard_failed_at(&self, o: &Self, i: int, gidx: GuardIdx, r: TransitionGuardFailure) -> bool {
        let (action, g2, hls2) = o.spec_guard_failure(i, gidx);
        &&& r == action
        &&& self.hls@ == hls2
        &&& self.compiled_traces@[i].ctrid == o.compiled_traces@[i].ctrid
        &&& self.compiled_traces@[i].hl == o.compiled_traces@[i].hl
        &&& self.compiled_traces@[i].guards@ == o.compiled_traces@[i].guards@.update(gidx as int, g2)
        &&& forall|j: int|
            0 <= j < o.compiled_traces@.len() && j != i ==> #[trigger] self.compiled_traces@[j]
                == o.compiled_traces@[j]
    }

    /// Replace guard `gidx` of the trace at position `i` of the registry.
    fn set_guard(&mut self, i: usize, gidx: GuardIdx, g: Guard)
        requires
            old(self).wf(),
            i < old(self).compiled_traces@.len(),
            gidx < old(self).compiled_traces@[i as int].guards@.len(),
        ensures
            final(self).wf(),
            final(self).shutdown == old(self).shutdown,
            final(self).hot_threshold == old(self).hot_threshold,
            final(self).sidetrace_threshold == old(self).sidetrace_threshold,
            final(self).trace_failure_threshold == old(self).trace_failure_threshold,
            final(self).max_worker_threads == old(self).max_worker_threads,
            final(self).compiled_trace_id == old(self).compiled_trace_id,
            final(self).hls == old(self).hls,
            final(self).compiled_traces@.len() == old(self).compiled_traces@.len(),
            final(self).compiled_traces@[i as int].ctrid == old(self).compiled_traces@[i as int].ctrid,
            final(self).compiled_traces@[i as int].hl == old(self).compiled_traces@[i as int].hl,
            final(self).compiled_traces@[i as int].guards@ == old(self).compiled_traces@[i as int].guards@.update(
                gidx as int,
                g,
            ),
            forall|j: int|
                0 <= j < old(self).compiled_traces@.len() && j != i
                    ==> #[trigger] final(self).compiled_traces@[j] == old(self).compiled_traces@[j],
    {
        let ghost pre = self.compiled_traces@;
        let mut tail = self.compiled_traces.split_off(i);
        let mut ctr = tail.remove(0);
        ctr.guards.set(gidx, g);
        self.compiled_traces.push(ctr);
        self.compiled_traces.append(&mut tail);
        proof {
            assert(self.compiled_traces@.len() == pre.len());
            assert forall|j: int| 0 <= j < pre.len() && j != i implies #[trigger] self.compiled_traces@[j]
                == pre[j] by {}
            assert forall|a: int, b: int| 0 <= a < b < self.compiled_traces@.len() implies (
            #[trigger] self.compiled_traces@[a]).ctrid != (#[trigger] self.compiled_traces@[b]).ctrid by {
                assert(self.compiled_traces@[a].ctrid == pre[a].ctrid);
                assert(self.compiled_traces@[b].ctrid == pre[b].ctrid);
            }
            assert forall|a: int| 0 <= a < self.compiled_traces@.len() implies {
                &&& (#[trigger] self.compiled_traces@[a]).ctrid.0 < self.compiled_trace_id
                &&& match self.compiled_traces@[a].hl {
                    Some(h) => h < self.hls@.len(),
                    None => true,
                }
            } by {
                assert(self.compiled_traces@[a].ctrid == pre[a].ctrid);
                assert(self.compiled_traces@[a].hl == pre[a].hl);
            }
        }
    }

    /// The thread of `mtt` has left compiled code after a guard failed:
    /// bring its stack up to date. A side-trace that the thread was
    /// recording is abandoned, and `true` is returned, so that the caller
    /// stops the recorder; the thread is back in the interpreter.
    pub fn deopt(&mut self, mtt: &mut MTThread) -> (aborted: bool)
        requires
            old(self).wf(),
            old(mtt).wf(),
            old(mtt).within(old(self).hls@.len()),
            old(mtt).top() is Executing || (old(mtt).top() is Tracing && old(mtt).tstate@[old(
                mtt,
            ).tstate@.len() - 2] is Executing),
        ensures
            final(self).wf(),
            final(mtt).wf(),
            final(self).same_config(old(self)),
            aborted == old(mtt).top() is Tracing,
            !(final(mtt).top() is Tracing),
            match old(mtt).top() {
                MTThreadState::Tracing(f) => {
                    &&& final(mtt).tstate@ == old(mtt).tstate@.drop_last().drop_last().push(
                        MTThreadState::Interpreting,
                    )
                    &&& final(self).hls@ == released(
                        old(self).hls@.update(
                            f.hl as int,
                            old(self).hls@[f.hl as int].spec_abandoned(
                                old(self).trace_failure_threshold,
                            ),
                        ),
                        f.hl,
                    )
                },
                _ => {
                    &&& final(mtt).tstate@ == old(mtt).tstate@.drop_last().push(
                        MTThreadState::Interpreting,
                    )
                    &&& final(self).hls@ == old(self).hls@
                },
            },
            old(self).quiet() ==> final(self).quiet(),
    {
        let ghost pre = mtt.tstate@;
        let mut aborted = false;
        match mtt.tstate.pop().unwrap() {
            MTThreadState::Tracing(f) => {
                let mut hl = self.hls[f.hl];
                hl.abandon(self.trace_failure_threshold);
                self.hls.set(f.hl, hl);
                self.release(f.hl);
                aborted = true;
                mtt.tstate.pop();
                proof {
                    if old(self).quiet() {
                        lemma_quiet_kept(old(self).hls@, self.hls@);
                    }
                }
            },
            _ => {
                proof {
                    assert(self.hls@ =~= old(self).hls@);
                }
            },
        }
        mtt.tstate.push(MTThreadState::Interpreting);
        proof {
            if aborted {
                assert(mtt.tstate@ =~= pre.drop_last().drop_last().push(MTThreadState::Interpreting));
            } else {
                assert(mtt.tstate@ =~= pre.drop_last().push(MTThreadState::Interpreting));
            }
        }
        aborted
    }

    /// The thread of `mtt` has ended. If it was recording a trace, it lets
    /// go of the hot location, which stays as it is until another thread
    /// finds it abandoned.
    pub fn thread_exit(&mut self, mtt: MTThread)
        requires
            old(self).wf(),
            mtt.wf(),
            mtt.within(old(self).hls@.len()),
        ensures
            final(self).wf(),
            final(self).same_config(old(self)),
            final(self).hls@ == match mtt.top() {
                MTThreadState::Tracing(f) => released(old(self).hls@, f.hl),
                _ => old(self).hls@,
            },
            old(self).quiet() ==> final(self).quiet(),
    {
        let mut mtt = mtt;
        match mtt.tstate.pop().unwrap() {
            MTThreadState::Tracing(f) => {
                self.release(f.hl);
                proof {
                    if old(self).quiet() {
                        lemma_quiet_kept(old(self).hls@, self.hls@);
                    }
                }
            },
            _ => {
                proof {
                    assert(self.hls@ =~= old(self).hls@);
                }
            },
        }
    }

    /// Can `ctr` join the registry: has its identifier been handed out, is
    /// it borne by no other trace, and does the hot location it names exist?
    pub open spec fn registrable(&self, ctr: &CompiledTrace) -> bool {
        &&& ctr.ctrid.0 < self.compiled_trace_id
        &&& forall|i: int|
            0 <= i < self.compiled_traces@.len() ==> (#[trigger] self.compiled_traces@[i]).ctrid
                != ctr.ctrid
        &&& match ctr.hl {
            Some(h) => h < self.hls@.len(),
            None => true,
        }
    }

    /// Add `ctr` to the registry if it can join it, and say whether it was
    /// added.
    pub fn register(&mut self, ctr: CompiledTrace) -> (r: bool)
        requires
            old(self).wf(),
        ensures
            final(self).wf(),
            r == old(self).registrable(&ctr),
            final(self).shutdown == old(self).shutdown,
            final(self).hot_threshold == old(self).hot_threshold,
            final(self).sidetrace_threshold == old(self).sidetrace_threshold,
            final(self).trace_failure_threshold == old(self).trace_failure_threshold,
            final(self).max_worker_threads == old(self).max_worker_threads,
            final(self).compiled_trace_id == old(self).compiled_trace_id,
            final(self).hls == old(self).hls,
            final(self).compiled_traces@ == if r {
                old(self).compiled_traces@.push(ctr)
            } else {
                old(self).compiled_traces@
            },
    {
        if ctr.ctrid.0 >= self.compiled_trace_id {
            return false;
        }
        if self.find_trace(ctr.ctrid).is_some() {
            return false;
        }
        if let Some(h) = ctr.hl {
            if h >= self.hls.len() {
                return false;
            }
        }
        self.compiled_traces.push(ctr);
        true
    }

    /// The trace that was recorded for the hot location `hl` has been
    /// compiled to `ctr`: the trace joins the registry and becomes the
    /// location's compiled trace. Returns `false`, and changes nothing, if
    /// the trace cannot join the registry.
    pub fn root_compile_succeeded(&mut self, hl: HotLocationId, ctr: CompiledTrace) -> (r: bool)
        requires
            old(self).wf(),
            hl < old(self).hls@.len(),
        ensures
            final(self).wf(),
            final(self).same_settings(old(self)),
            r == old(self).registrable(&ctr),
            final(self).compiled_trace_id == old(self).compiled_trace_id,
            final(self).compiled_traces@ == if r {
                old(self).compiled_traces@.push(ctr)
            } else {
                old(self).compiled_traces@
            },
            final(self).hls@ == if r {
                old(self).hls@.update(
                    hl as int,
                    HotLocation {
                        kind: HotLocationKind::Compiled(ctr.ctrid),
                        ..old(self).hls@[hl as int]
                    },
                )
            } else {
                old(self).hls@
            },
    {
        let ctrid = ctr.ctrid;
        if !self.register(ctr) {
            return false;
        }
        let mut rec = self.hls[hl];
        rec.kind = HotLocationKind::Compiled(ctrid);
        self.hls.set(hl, rec);
        true
    }

    /// Compiling the trace that was recorded for the hot location `hl` has
    /// failed with `e`: the failure is counted, and the location counts
    /// again from zero, unless it has failed too often and is not traced any
    /// more. Returns how loudly the failure is to be logged.
    pub fn root_compile_failed(&mut self, hl: HotLocationId, e: CompilationError) -> (v: Verbosity)
        requires
            old(self).wf(),
            hl < old(self).hls@.len(),
        ensures
            final(self).wf(),
            final(self).same_config(old(self)),
            v == match e {
                CompilationError::General => Verbosity::Warning,
                CompilationError::LimitExceeded => Verbosity::Warning,
                CompilationError::InternalError => Verbosity::Error,
                CompilationError::ResourceExhausted => Verbosity::Error,
            },
            ({
                let (verdict, failed) = old(self).hls@[hl as int].spec_failed(
                    old(self).trace_failure_threshold,
                );
                final(self).hls@ == old(self).hls@.update(
                    hl as int,
                    HotLocation {
                        kind: if verdict is DontTrace {
                            HotLocationKind::DontTrace
                        } else {
                            HotLocationKind::Counting(0)
                        },
                        ..failed
                    },
                )
            }),
    {
        let mut rec = self.hls[hl];
        match rec.tracecompilation_error(self.trace_failure_threshold) {
            TraceFailed::DontTrace => {
                rec.kind = HotLocationKind::DontTrace;
            },
            TraceFailed::KeepTrying => {
                rec.kind = HotLocationKind::Counting(0);
            },
        }
        self.hls.set(hl, rec);
        compile_error_verbosity(e)
    }

    /// The side-trace that was recorded for guard `gidx` of the trace
    /// `parent_ctr` has been compiled to `ctr`: the side-trace joins the
    /// registry and becomes the guard's. Returns `false`, and changes
    /// nothing, if the guard does not exist or the side-trace cannot join
    /// the registry.
    pub fn sidetrace_compile_succeeded(&mut self, parent_ctr: CompiledTraceId, gidx: GuardIdx, ctr: CompiledTrace) -> (r: bool)
        requires
            old(self).wf(),
        ensures
            final(self).wf(),
            final(self).same_settings(old(self)),
            final(self).hls == old(self).hls,
            final(self).compiled_trace_id == old(self).compiled_trace_id,
            r == (old(self).has_guard(parent_ctr, gidx) && old(self).registrable(&ctr)),
            !r ==> final(self).compiled_traces@ == old(self).compiled_traces@,
            r ==> {
                &&& old(self).registrable(&ctr)
                &&& final(self).compiled_traces@.len() == old(self).compiled_traces@.len() + 1
                &&& final(self).compiled_traces@.last() == ctr
                &&& forall|i: int|
                    0 <= i < old(self).compiled_traces@.len() ==> {
                        let was = #[trigger] old(self).compiled_traces@[i];
                        let is = final(self).compiled_traces@[i];
                        if was.ctrid == parent_ctr {
                            &&& is.ctrid == was.ctrid
                            &&& is.hl == was.hl
                            &&& gidx < was.guards@.len()
                            &&& is.guards@ == was.guards@.update(
                                gidx as int,
                                Guard { ctr: Some(ctr.ctrid), ..was.guards@[gidx as int] },
                            )
                        } else {
                            is == was
                        }
                    }
            },
    {
        let i = match self.find_trace(parent_ctr) {
            Some(i) => i,
            None => {
                return false;
            },
        };
        if gidx >= self.compiled_traces[i].guards.len() {
            return false;
        }
        let ctrid = ctr.ctrid;
        let ghost pre = self.compiled_traces@;
        if !self.register(ctr) {
            return false;
        }
        let mut g = self.compiled_traces[i].guards[gidx];
        g.set_ctr(ctrid);
        self.set_guard(i, gidx, g);
        proof {
            assert(pre[i as int].ctrid == parent_ctr);
            assert forall|j: int| 0 <= j < pre.len() && j != i implies pre[j].ctrid
                != parent_ctr by {
                old(self).lemma_ids_unique(i as int, j);
            }
        }
        true
    }

    /// Has the compiled trace `ctrid` a guard `gidx`?
    pub open spec fn has_guard(&self, ctrid: CompiledTraceId, gidx: GuardIdx) -> bool {
        exists|i: int|
            0 <= i < self.compiled_traces@.len() && (#[trigger] self.compiled_traces@[i]).ctrid
                == ctrid && gidx < self.compiled_traces@[i].guards@.len()
    }
}

} // verus!
