use yk::jit_ir::CompilationError;
use yk::location::{
    CompiledTraceId, HotLocation, HotLocationId, HotLocationKind, HotThreshold, Location,
    LocationState, TraceFailed,
};
use yk::mt::control::{
    compile_error_verbosity, default_max_worker_threads, exec_trace_rsp, parse_hot_threshold,
    ControlPointAction, InvalidHotThreshold, Verbosity, MT,
};
use yk::mt::{
    AbortKind, CompiledTrace, Guard, MTThread, MTThreadState, TransitionControlPoint,
    TransitionGuardFailure, DEFAULT_HOT_THRESHOLD, DEFAULT_SIDETRACE_THRESHOLD,
    DEFAULT_TRACECOMPILATION_ERROR_THRESHOLD, DEFAULT_TRACE_TOO_LONG,
};

/// Whether every hot location is held by as many recorders as its kind
/// allows: one at most where it is being traced, none elsewhere.
fn quiet(mt: &MT) -> bool {
    mt.hls.iter().all(|h| match h.kind {
        HotLocationKind::Tracing | HotLocationKind::SideTracing { .. } => h.tracers <= 1,
        _ => h.tracers == 0,
    })
}

fn kind(mt: &MT, loc: &Location) -> HotLocationKind {
    mt.hot_location(loc.hot_location().unwrap()).kind
}

fn expect_start_tracing(mt: &mut MT, mtt: &mut MTThread, loc: &mut Location) {
    let TransitionControlPoint::StartTracing(hl) = mt.transition_control_point(mtt, loc, 0, true)
    else {
        panic!()
    };
    mt.tracing_started(mtt, hl, 0);
}

fn expect_stop_tracing(mt: &mut MT, mtt: &mut MTThread, loc: &mut Location) {
    let TransitionControlPoint::StopTracing { .. } =
        mt.transition_control_point(mtt, loc, 0, true)
    else {
        panic!()
    };
    let MTThreadState::Tracing(f) = mtt.pop_tstate() else {
        panic!()
    };
    mt.release(f.hl);
    mtt.push_tstate(MTThreadState::Interpreting);
}

fn expect_start_side_tracing(mt: &mut MT, mtt: &mut MTThread, ctr: CompiledTraceId) {
    let TransitionGuardFailure::StartSideTracing(hl) = mt.transition_guard_failure(ctr, 0) else {
        panic!()
    };
    mt.tracing_started(mtt, hl, 0);
}

/// Registers a compiled trace with one guard for the location, as a compile
/// job does when it has finished.
fn compiled(mt: &mut MT, loc: &Location) -> CompiledTraceId {
    let hl = loc.hot_location().unwrap();
    let ctrid = mt.next_compiled_trace_id();
    assert!(mt.root_compile_succeeded(
        hl,
        CompiledTrace {
            ctrid,
            hl: Some(hl),
            guards: vec![Guard::new()],
        },
    ));
    ctrid
}

#[test]
fn basic_transitions() {
    let hot_thrsh = 5;
    let mut mt = MT::new(None).unwrap();
    let mut mtt = MTThread::new();
    mt.set_hot_threshold(hot_thrsh);
    mt.set_sidetrace_threshold(1);
    let mut loc = Location::new();
    for i in 0..mt.hot_threshold() {
        assert_eq!(
            mt.transition_control_point(&mut mtt, &mut loc, 0, true),
            TransitionControlPoint::NoAction
        );
        assert_eq!(loc.count(), Some(i + 1));
    }
    expect_start_tracing(&mut mt, &mut mtt, &mut loc);
    assert!(matches!(kind(&mt, &loc), HotLocationKind::Tracing));
    expect_stop_tracing(&mut mt, &mut mtt, &mut loc);
    assert!(matches!(kind(&mt, &loc), HotLocationKind::Compiling));
    let ctr = compiled(&mut mt, &loc);
    assert!(matches!(kind(&mt, &loc), HotLocationKind::Compiled(c) if c == ctr));
    assert!(matches!(
        mt.transition_control_point(&mut mtt, &mut loc, 0, true),
        TransitionControlPoint::Execute(c) if c == ctr
    ));
    expect_start_side_tracing(&mut mt, &mut mtt, ctr);

    match mt.transition_control_point(&mut mtt, &mut loc, 0, true) {
        TransitionControlPoint::StopSideTracing {
            gidx,
            parent_ctr,
            root_ctr,
        } => {
            assert_eq!(gidx, 0);
            assert_eq!(parent_ctr, ctr);
            assert_eq!(root_ctr, ctr);
            let MTThreadState::Tracing(f) = mtt.pop_tstate() else {
                panic!()
            };
            mt.release(f.hl);
            mtt.push_tstate(MTThreadState::Interpreting);
            assert!(matches!(kind(&mt, &loc), HotLocationKind::Compiled(_)));
        }
        _ => unreachable!(),
    }
    assert!(matches!(
        mt.transition_control_point(&mut mtt, &mut loc, 0, true),
        TransitionControlPoint::Execute(c) if c == ctr
    ));
}

#[test]
fn threaded_threshold() {
    // Several threads hit one location in turn, never often enough to make
    // it hot.
    let num_threads = u32::try_from(num_cpus::get() * 4).unwrap();
    let hot_thrsh = num_threads.saturating_mul(2500);
    let mut mt = MT::new(None).unwrap();
    mt.set_hot_threshold(hot_thrsh);
    let mut loc = Location::new();
    let mut threads: Vec<MTThread> = (0..num_threads).map(|_| MTThread::new()).collect();
    for _ in 0..hot_thrsh / (num_threads * 4) {
        for mtt in threads.iter_mut() {
            let mut last = loc.count().unwrap();
            for _ in 0..4 {
                assert_eq!(
                    mt.transition_control_point(mtt, &mut loc, 0, true),
                    TransitionControlPoint::NoAction
                );
                let c = loc.count();
                assert!(c.is_some());
                assert!(c.unwrap() >= last);
                last = c.unwrap();
            }
        }
    }
    assert!(loc.count().is_some());
    assert!(loc.count().unwrap() <= hot_thrsh);
    let mut starts = 0;
    loop {
        match mt.transition_control_point(&mut threads[0], &mut loc, 0, true) {
            TransitionControlPoint::NoAction => (),
            TransitionControlPoint::StartTracing(hl) => {
                starts += 1;
                mt.tracing_started(&mut threads[0], hl, 0);
                break;
            }
            _ => unreachable!(),
        }
    }
    assert_eq!(starts, 1);
    for mtt in threads.iter_mut().skip(1) {
        assert_eq!(
            mt.transition_control_point(mtt, &mut loc, 0, true),
            TransitionControlPoint::NoAction
        );
    }
    expect_stop_tracing(&mut mt, &mut threads[0], &mut loc);
}

#[test]
fn locations_dont_get_stuck_tracing() {
    // If tracing a location fails too many times (e.g. because the thread
    // terminates before tracing is complete), the location must be marked
    // as DontTrace.
    const THRESHOLD: HotThreshold = 5;
    let mut mt = MT::new(None).unwrap();
    mt.set_hot_threshold(THRESHOLD);
    let mut main = MTThread::new();
    let mut loc = Location::new();

    for _ in 0..THRESHOLD {
        assert_eq!(
            mt.transition_control_point(&mut main, &mut loc, 0, true),
            TransitionControlPoint::NoAction
        );
    }

    for i in 0..mt.trace_failure_threshold() + 1 {
        let mut t = MTThread::new();
        expect_start_tracing(&mut mt, &mut t, &mut loc);
        mt.thread_exit(t);
        assert!(matches!(kind(&mt, &loc), HotLocationKind::Tracing));
        assert_eq!(
            mt.hot_location(loc.hot_location().unwrap())
                .tracecompilation_errors,
            i
        );
    }

    assert!(matches!(kind(&mt, &loc), HotLocationKind::Tracing));
    assert_eq!(
        mt.transition_control_point(&mut main, &mut loc, 0, true),
        TransitionControlPoint::NoAction
    );
    assert!(matches!(kind(&mt, &loc), HotLocationKind::DontTrace));
    // Every failure has been counted, the one that was one too many too.
    assert_eq!(
        mt.hot_location(loc.hot_location().unwrap())
            .tracecompilation_errors,
        mt.trace_failure_threshold() + 1
    );
    for _ in 0..3 {
        assert_eq!(
            mt.transition_control_point(&mut main, &mut loc, 0, true),
            TransitionControlPoint::NoAction
        );
    }
}

#[test]
fn locations_can_fail_tracing_before_succeeding() {
    const THRESHOLD: HotThreshold = 5;
    let mut mt = MT::new(None).unwrap();
    mt.set_hot_threshold(THRESHOLD);
    let mut main = MTThread::new();
    let mut loc = Location::new();

    for _ in 0..THRESHOLD {
        assert_eq!(
            mt.transition_control_point(&mut main, &mut loc, 0, true),
            TransitionControlPoint::NoAction
        );
    }

    for i in 0..mt.trace_failure_threshold() {
        let mut t = MTThread::new();
        expect_start_tracing(&mut mt, &mut t, &mut loc);
        mt.thread_exit(t);
        assert!(matches!(kind(&mt, &loc), HotLocationKind::Tracing));
        assert_eq!(
            mt.hot_location(loc.hot_location().unwrap())
                .tracecompilation_errors,
            i
        );
    }

    assert!(matches!(kind(&mt, &loc), HotLocationKind::Tracing));
    // Start tracing again...
    expect_start_tracing(&mut mt, &mut main, &mut loc);
    assert!(matches!(kind(&mt, &loc), HotLocationKind::Tracing));
    // ...and this time let tracing succeed.
    expect_stop_tracing(&mut mt, &mut main, &mut loc);
    // If tracing succeeded, we'll now be in the Compiling state.
    assert!(matches!(kind(&mt, &loc), HotLocationKind::Compiling));
    let ctr = compiled(&mut mt, &loc);
    assert!(matches!(kind(&mt, &loc), HotLocationKind::Compiled(c) if c == ctr));
}

#[test]
fn locations_can_fail_multiple_times() {
    let hot_thrsh = 5;
    let mut mt = MT::new(None).unwrap();
    let mut mtt = MTThread::new();
    mt.set_hot_threshold(hot_thrsh);
    let mut loc = Location::new();
    for i in 0..mt.hot_threshold() {
        assert_eq!(
            mt.transition_control_point(&mut mtt, &mut loc, 0, true),
            TransitionControlPoint::NoAction
        );
        assert_eq!(loc.count(), Some(i + 1));
    }
    expect_start_tracing(&mut mt, &mut mtt, &mut loc);
    expect_stop_tracing(&mut mt, &mut mtt, &mut loc);

    let hl = loc.hot_location().unwrap();
    let threshold = mt.trace_failure_threshold();
    for _ in 0..threshold {
        assert!(matches!(
            mt.hls[hl].tracecompilation_error(threshold),
            TraceFailed::KeepTrying
        ));
    }
    assert!(matches!(
        mt.hls[hl].tracecompilation_error(threshold),
        TraceFailed::DontTrace
    ));
}

#[test]
fn dont_trace_two_locations_simultaneously_in_one_thread() {
    const THRESHOLD: HotThreshold = 5;
    let mut mt = MT::new(None).unwrap();
    let mut mtt = MTThread::new();
    mt.set_hot_threshold(THRESHOLD);
    let mut loc1 = Location::new();
    let mut loc2 = Location::new();

    for _ in 0..THRESHOLD {
        assert_eq!(
            mt.transition_control_point(&mut mtt, &mut loc1, 0, true),
            TransitionControlPoint::NoAction
        );
        assert_eq!(
            mt.transition_control_point(&mut mtt, &mut loc2, 0, true),
            TransitionControlPoint::NoAction
        );
    }
    expect_start_tracing(&mut mt, &mut mtt, &mut loc1);
    assert_eq!(
        mt.transition_control_point(&mut mtt, &mut loc2, 0, true),
        TransitionControlPoint::NoAction
    );
    assert!(matches!(kind(&mt, &loc1), HotLocationKind::Tracing));
    assert_eq!(loc2.count(), None);
    assert!(matches!(kind(&mt, &loc2), HotLocationKind::Counting(6)));
    expect_stop_tracing(&mut mt, &mut mtt, &mut loc1);
    assert!(matches!(kind(&mt, &loc1), HotLocationKind::Compiling));
    expect_start_tracing(&mut mt, &mut mtt, &mut loc2);
    expect_stop_tracing(&mut mt, &mut mtt, &mut loc2);
}

#[test]
fn only_one_thread_starts_tracing() {
    // If several threads hammer away at a location, only one of them gets
    // to trace it (and then compile it etc.). The threads take turns here.
    const THRESHOLD: HotThreshold = 100000;
    let mut mt = MT::new(None).unwrap();
    mt.set_hot_threshold(THRESHOLD);
    let mut loc = Location::new();
    let mut threads: Vec<MTThread> = (0..num_cpus::get()).map(|_| MTThread::new()).collect();
    let mut done = vec![false; threads.len()];
    let mut num_starts = 0;
    for _ in 0..THRESHOLD {
        for (t, mtt) in threads.iter_mut().enumerate() {
            if done[t] {
                continue;
            }
            match mt.transition_control_point(mtt, &mut loc, 0, true) {
                TransitionControlPoint::NoAction => (),
                TransitionControlPoint::AbortTracing(_) => panic!(),
                TransitionControlPoint::Execute(_) => (),
                TransitionControlPoint::StartTracing(hl) => {
                    num_starts += 1;
                    mt.tracing_started(mtt, hl, 0);
                    assert!(matches!(kind(&mt, &loc), HotLocationKind::Tracing));
                    expect_stop_tracing(&mut mt, mtt, &mut loc);
                    assert!(matches!(kind(&mt, &loc), HotLocationKind::Compiling));
                    assert_eq!(
                        mt.transition_control_point(mtt, &mut loc, 0, true),
                        TransitionControlPoint::NoAction
                    );
                    assert!(matches!(kind(&mt, &loc), HotLocationKind::Compiling));
                    compiled(&mut mt, &loc);
                    loop {
                        if let TransitionControlPoint::Execute(_) =
                            mt.transition_control_point(mtt, &mut loc, 0, true)
                        {
                            break;
                        }
                    }
                    done[t] = true;
                }
                TransitionControlPoint::StopTracing { .. }
                | TransitionControlPoint::StopSideTracing { .. } => unreachable!(),
            }
        }
    }
    assert_eq!(num_starts, 1);
    assert!(quiet(&mt));
}

#[test]
fn two_tracing_threads_must_not_stop_each_others_tracing_location() {
    const THRESHOLD: HotThreshold = 5;
    let mut mt = MT::new(None).unwrap();
    mt.set_hot_threshold(THRESHOLD);
    let mut main = MTThread::new();
    let mut other = MTThread::new();
    let mut loc1 = Location::new();
    let mut loc2 = Location::new();

    for _ in 0..THRESHOLD {
        assert_eq!(
            mt.transition_control_point(&mut main, &mut loc1, 0, true),
            TransitionControlPoint::NoAction
        );
        assert_eq!(
            mt.transition_control_point(&mut main, &mut loc2, 0, true),
            TransitionControlPoint::NoAction
        );
    }

    // The other thread starts to trace the first location, and ends.
    expect_start_tracing(&mut mt, &mut other, &mut loc1);
    mt.thread_exit(other);

    expect_start_tracing(&mut mt, &mut main, &mut loc2);
    assert_eq!(
        mt.transition_control_point(&mut main, &mut loc1, 0, true),
        TransitionControlPoint::NoAction
    );
    assert!(matches!(kind(&mt, &loc1), HotLocationKind::Tracing));
    expect_stop_tracing(&mut mt, &mut main, &mut loc2);
    assert!(matches!(kind(&mt, &loc1), HotLocationKind::Tracing));
    assert!(matches!(kind(&mt, &loc2), HotLocationKind::Compiling));
}

#[test]
fn two_threads_trace_two_locations_side_by_side() {
    const THRESHOLD: HotThreshold = 5;
    let mut mt = MT::new(None).unwrap();
    mt.set_hot_threshold(THRESHOLD);
    let mut main = MTThread::new();
    let mut other = MTThread::new();
    let mut loc1 = Location::new();
    let mut loc2 = Location::new();
    for _ in 0..THRESHOLD {
        mt.transition_control_point(&mut main, &mut loc1, 0, true);
        mt.transition_control_point(&mut main, &mut loc2, 0, true);
    }
    expect_start_tracing(&mut mt, &mut other, &mut loc1);
    expect_start_tracing(&mut mt, &mut main, &mut loc2);
    // Each is left alone by the other's tracer.
    assert_eq!(
        mt.transition_control_point(&mut main, &mut loc1, 0, true),
        TransitionControlPoint::NoAction
    );
    assert_eq!(
        mt.transition_control_point(&mut other, &mut loc2, 0, true),
        TransitionControlPoint::NoAction
    );
    // A third thread starts nothing either.
    let mut third = MTThread::new();
    assert_eq!(
        mt.transition_control_point(&mut third, &mut loc1, 0, true),
        TransitionControlPoint::NoAction
    );
    assert_eq!(mt.hot_location(loc1.hot_location().unwrap()).tracecompilation_errors, 0);
    expect_stop_tracing(&mut mt, &mut main, &mut loc2);
    assert!(matches!(kind(&mt, &loc1), HotLocationKind::Tracing));
    assert!(matches!(kind(&mt, &loc2), HotLocationKind::Compiling));
    expect_stop_tracing(&mut mt, &mut other, &mut loc1);
    assert!(matches!(kind(&mt, &loc1), HotLocationKind::Compiling));
    assert!(quiet(&mt));
}

#[test]
fn two_sidetracing_threads_must_not_stop_each_others_tracing_location() {
    const THRESHOLD: HotThreshold = 5;
    let mut mt = MT::new(None).unwrap();
    mt.set_hot_threshold(THRESHOLD);
    mt.set_sidetrace_threshold(1);
    let mut main = MTThread::new();
    let mut other = MTThread::new();
    let mut loc1 = Location::new();
    let mut loc2 = Location::new();

    fn to_compiled(mt: &mut MT, mtt: &mut MTThread, loc: &mut Location) -> CompiledTraceId {
        for _ in 0..THRESHOLD {
            assert_eq!(
                mt.transition_control_point(mtt, loc, 0, true),
                TransitionControlPoint::NoAction
            );
        }
        expect_start_tracing(mt, mtt, loc);
        assert!(matches!(kind(mt, loc), HotLocationKind::Tracing));
        expect_stop_tracing(mt, mtt, loc);
        assert!(matches!(kind(mt, loc), HotLocationKind::Compiling));
        compiled(mt, loc)
    }

    let ctr1 = to_compiled(&mut mt, &mut main, &mut loc1);
    let ctr2 = to_compiled(&mut mt, &mut main, &mut loc2);
    assert_ne!(ctr1, ctr2);

    // The other thread starts a side-trace of the first trace, and ends.
    expect_start_side_tracing(&mut mt, &mut other, ctr1);
    mt.thread_exit(other);

    expect_start_side_tracing(&mut mt, &mut main, ctr2);
    assert!(matches!(
        mt.transition_control_point(&mut main, &mut loc1, 0, true),
        TransitionControlPoint::NoAction
    ));
    assert!(matches!(
        mt.transition_control_point(&mut main, &mut loc2, 0, true),
        TransitionControlPoint::StopSideTracing { .. }
    ));
}

#[test]
fn traces_can_be_executed_during_tracing() {
    let mut mt = MT::new(None).unwrap();
    let mut mtt = MTThread::new();
    mt.set_hot_threshold(0);
    let mut loc1 = Location::new();
    let mut loc2 = Location::new();

    // Get `loc1` to the point where there's a compiled trace for it.
    expect_start_tracing(&mut mt, &mut mtt, &mut loc1);
    expect_stop_tracing(&mut mt, &mut mtt, &mut loc1);
    let ctr = compiled(&mut mt, &loc1);

    expect_start_tracing(&mut mt, &mut mtt, &mut loc2);
    assert!(matches!(
        mt.transition_control_point(&mut mtt, &mut loc1, 0, true),
        TransitionControlPoint::AbortTracing(AbortKind::EncounteredCompiledTrace)
    ));
    // The recording is abandoned, which is a failure of the location that
    // was being traced: it counts again from zero. The compiled trace is as
    // it was, and has not been executed.
    assert_eq!(kind(&mt, &loc2), HotLocationKind::Counting(0));
    assert_eq!(
        mt.hot_location(loc2.hot_location().unwrap())
            .tracecompilation_errors,
        1
    );
    assert_eq!(kind(&mt, &loc1), HotLocationKind::Compiled(ctr));
    let MTThreadState::Tracing(f) = mtt.pop_tstate() else {
        panic!()
    };
    mt.release(f.hl);

    expect_start_tracing(&mut mt, &mut mtt, &mut loc2);
    expect_stop_tracing(&mut mt, &mut mtt, &mut loc2);
    assert!(matches!(
        mt.transition_control_point(&mut mtt, &mut loc1, 0, true),
        TransitionControlPoint::Execute(c) if c == ctr
    ));
}

#[test]
fn control_point_keeps_the_thread_stack_up_to_date() {
    let mut mt = MT::new(None).unwrap();
    let mut mtt = MTThread::new();
    mt.set_hot_threshold(1);
    let mut loc = Location::new();
    assert!(matches!(
        mt.control_point(&mut mtt, &mut loc, 0x100, true),
        ControlPointAction::NoAction
    ));
    let ControlPointAction::StartTracing(hl) = mt.control_point(&mut mtt, &mut loc, 0x100, true)
    else {
        panic!()
    };
    assert_eq!(mtt.tstate.len(), 1);
    mt.tracing_started(&mut mtt, hl, 0x100);
    assert!(mtt.is_tracing());
    assert_eq!(mt.hot_location(hl).tracers, 1);
    assert!(mtt.promote_u32(7));
    assert!(mtt.insert_debug_str("here".to_string()));
    mtt.inc_cp_idx();
    let ControlPointAction::StopTracing {
        hl: stopped,
        start_cp_idx,
        promotions,
        debug_strs,
    } = mt.control_point(&mut mtt, &mut loc, 0x100, true)
    else {
        panic!()
    };
    assert_eq!(stopped, hl);
    assert_eq!(start_cp_idx, 0);
    assert_eq!(promotions.len(), 4);
    assert_eq!(u32::from_ne_bytes(promotions.try_into().unwrap()), 7);
    assert_eq!(debug_strs, vec!["here".to_string()]);
    assert!(!mtt.is_tracing());
    assert_eq!(mtt.tstate.len(), 1);
    assert_eq!(mt.hot_location(hl).tracers, 0);
    assert!(matches!(mt.hot_location(hl).kind, HotLocationKind::Compiling));

    let ctr = compiled(&mut mt, &loc);
    let ControlPointAction::Execute(c) = mt.control_point(&mut mtt, &mut loc, 0x100, true) else {
        panic!()
    };
    assert_eq!(c, ctr);
    assert_eq!(mtt.running_trace(), Some(ctr));
    assert_eq!(mtt.tstate.len(), 2);
    assert!(!mt.deopt(&mut mtt));
    assert_eq!(mtt.running_trace(), None);
    assert_eq!(mtt.tstate.len(), 2);
    assert!(quiet(&mt));
}

#[test]
fn leaving_the_frame_aborts_the_trace() {
    let mut mt = MT::new(None).unwrap();
    let mut mtt = MTThread::new();
    mt.set_hot_threshold(0);
    let mut loc = Location::new();
    let mut other = Location::new();
    let ControlPointAction::StartTracing(hl) = mt.control_point(&mut mtt, &mut loc, 0x100, true)
    else {
        panic!()
    };
    mt.tracing_started(&mut mtt, hl, 0x100);
    // A location that is met in the starting frame is only noted.
    assert!(matches!(
        mt.control_point(&mut mtt, &mut other, 0x100, true),
        ControlPointAction::NoAction
    ));
    assert!(matches!(kind(&mt, &other), HotLocationKind::Counting(1)));
    // A location that is not hot yet, met in another frame, ends the
    // recording: that is a failure of the location that was being traced,
    // which counts again from zero.
    let mut third = Location::new();
    third.state = LocationState::Hot(loc.hot_location().unwrap());
    let mut fresh = Location::new();
    assert!(matches!(
        mt.control_point(&mut mtt, &mut fresh, 0x200, true),
        ControlPointAction::AbortTracing(AbortKind::OutOfFrame)
    ));
    assert!(!mtt.is_tracing());
    assert_eq!(mt.hot_location(hl).kind, HotLocationKind::Counting(0));
    assert_eq!(mt.hot_location(hl).tracers, 0);
    assert_eq!(mt.hot_location(hl).tracecompilation_errors, 1);
    assert!(matches!(
        mt.control_point(&mut mtt, &mut third, 0x300, true),
        ControlPointAction::StartTracing(h) if h == hl
    ));
    assert_eq!(mt.hot_location(hl).tracecompilation_errors, 1);
    mt.tracing_started(&mut mtt, hl, 0x300);
    // Now the thread meets, in another frame, a hot location that it has
    // not seen: the recording is abandoned and the location counts again.
    assert!(matches!(
        mt.control_point(&mut mtt, &mut other, 0x400, true),
        ControlPointAction::AbortTracing(AbortKind::OutOfFrame)
    ));
    assert_eq!(mt.hot_location(hl).kind, HotLocationKind::Counting(0));
    assert_eq!(mt.hot_location(hl).tracecompilation_errors, 2);
    assert_eq!(mt.compiled_traces.len(), 0);
    assert!(quiet(&mt));
}

#[test]
fn an_inner_loop_is_traced_instead() {
    let mut mt = MT::new(None).unwrap();
    let mut mtt = MTThread::new();
    mt.set_hot_threshold(0);
    let mut outer = Location::new();
    let mut inner = Location::new();
    let ControlPointAction::StartTracing(hl) = mt.control_point(&mut mtt, &mut outer, 1, true)
    else {
        panic!()
    };
    mt.tracing_started(&mut mtt, hl, 1);
    mtt.inc_cp_idx();
    mtt.inc_cp_idx();
    assert!(matches!(
        mt.control_point(&mut mtt, &mut inner, 1, true),
        ControlPointAction::NoAction
    ));
    let inner_hl = inner.hot_location().unwrap();
    mtt.inc_cp_idx();
    let ControlPointAction::StopTracing {
        hl: stopped,
        start_cp_idx,
        ..
    } = mt.control_point(&mut mtt, &mut inner, 1, true)
    else {
        panic!()
    };
    assert_eq!(stopped, inner_hl);
    assert_eq!(start_cp_idx, 2);
    assert_eq!(mt.hot_location(hl).kind, HotLocationKind::Counting(0));
    assert_eq!(mt.hot_location(inner_hl).kind, HotLocationKind::Compiling);
    assert!(quiet(&mt));
}

#[test]
fn a_seen_location_that_does_not_count_unrolls() {
    let mut mt = MT::new(None).unwrap();
    let mut mtt = MTThread::new();
    mt.set_hot_threshold(0);
    let mut outer = Location::new();
    let mut inner = Location::new();
    let ControlPointAction::StartTracing(hl) = mt.control_point(&mut mtt, &mut outer, 1, true)
    else {
        panic!()
    };
    mt.tracing_started(&mut mtt, hl, 1);
    assert!(matches!(
        mt.control_point(&mut mtt, &mut inner, 1, true),
        ControlPointAction::NoAction
    ));
    let inner_hl = inner.hot_location().unwrap();
    mt.hls[inner_hl].kind = HotLocationKind::DontTrace;
    assert!(matches!(
        mt.control_point(&mut mtt, &mut inner, 1, true),
        ControlPointAction::AbortTracing(AbortKind::Unrolled)
    ));
    assert_eq!(mt.hot_location(hl).kind, HotLocationKind::Counting(0));
    assert_eq!(mt.hot_location(hl).tracecompilation_errors, 1);
}

#[test]
fn a_thread_that_does_not_get_the_lock_does_nothing() {
    let mut mt = MT::new(None).unwrap();
    let mut mtt = MTThread::new();
    mt.set_hot_threshold(0);
    let mut loc = Location::new();
    expect_start_tracing(&mut mt, &mut mtt, &mut loc);
    expect_stop_tracing(&mut mt, &mut mtt, &mut loc);
    let ctr = compiled(&mut mt, &loc);
    assert_eq!(
        mt.transition_control_point(&mut mtt, &mut loc, 0, false),
        TransitionControlPoint::NoAction
    );
    assert_eq!(
        mt.transition_control_point(&mut mtt, &mut loc, 0, true),
        TransitionControlPoint::Execute(ctr)
    );
}

#[test]
fn guards_fail_until_a_side_trace_is_recorded() {
    let mut mt = MT::new(None).unwrap();
    let mut mtt = MTThread::new();
    mt.set_hot_threshold(0);
    mt.set_sidetrace_threshold(3);
    let mut loc = Location::new();
    expect_start_tracing(&mut mt, &mut mtt, &mut loc);
    expect_stop_tracing(&mut mt, &mut mtt, &mut loc);
    let ctr = compiled(&mut mt, &loc);
    let hl = loc.hot_location().unwrap();
    assert_eq!(mt.transition_guard_failure(ctr, 0), TransitionGuardFailure::NoAction);
    assert_eq!(mt.transition_guard_failure(ctr, 0), TransitionGuardFailure::NoAction);
    assert_eq!(mt.compiled_traces[0].guards[0].failed, 2);
    // No such guard, no such trace.
    assert_eq!(mt.transition_guard_failure(ctr, 1), TransitionGuardFailure::NoAction);
    assert_eq!(
        mt.transition_guard_failure(CompiledTraceId::from_u64(99), 0),
        TransitionGuardFailure::NoAction
    );
    assert_eq!(
        mt.transition_guard_failure(ctr, 0),
        TransitionGuardFailure::StartSideTracing(hl)
    );
    assert_eq!(
        mt.hot_location(hl).kind,
        HotLocationKind::SideTracing {
            root_ctr: ctr,
            gidx: 0,
            parent_ctr: ctr
        }
    );
    // While the side-trace is recorded, further failures start nothing.
    assert_eq!(mt.transition_guard_failure(ctr, 0), TransitionGuardFailure::NoAction);
    mt.tracing_started(&mut mtt, hl, 0);
    // Another thread executes the trace meanwhile.
    let mut other = MTThread::new();
    assert_eq!(
        mt.transition_control_point(&mut other, &mut loc, 0, true),
        TransitionControlPoint::Execute(ctr)
    );
    let ControlPointAction::StopSideTracing {
        hl: stopped,
        gidx,
        parent_ctr,
        root_ctr,
        ..
    } = mt.control_point(&mut mtt, &mut loc, 0, true)
    else {
        panic!()
    };
    assert_eq!((stopped, gidx, parent_ctr, root_ctr), (hl, 0, ctr, ctr));
    let side = mt.next_compiled_trace_id();
    assert!(mt.sidetrace_compile_succeeded(
        ctr,
        0,
        CompiledTrace {
            ctrid: side,
            hl: Some(hl),
            guards: vec![],
        },
    ));
    assert_eq!(mt.compiled_traces[0].guards[0].ctr, Some(side));
    assert_eq!(mt.find_trace(side), Some(1));
    assert!(quiet(&mt));
}

#[test]
fn deopt_abandons_a_side_trace() {
    let mut mt = MT::new(None).unwrap();
    let mut mtt = MTThread::new();
    mt.set_hot_threshold(0);
    mt.set_sidetrace_threshold(1);
    let mut loc = Location::new();
    expect_start_tracing(&mut mt, &mut mtt, &mut loc);
    expect_stop_tracing(&mut mt, &mut mtt, &mut loc);
    let ctr = compiled(&mut mt, &loc);
    let hl = loc.hot_location().unwrap();
    let ControlPointAction::Execute(_) = mt.control_point(&mut mtt, &mut loc, 0, true) else {
        panic!()
    };
    expect_start_side_tracing(&mut mt, &mut mtt, ctr);
    assert_eq!(mtt.tstate.len(), 4);
    assert!(mt.deopt(&mut mtt));
    assert_eq!(mtt.tstate.len(), 3);
    assert!(matches!(mtt.tstate[2], MTThreadState::Interpreting));
    assert_eq!(mt.hot_location(hl).kind, HotLocationKind::Compiled(ctr));
    assert_eq!(mt.hot_location(hl).tracers, 0);
}

#[test]
fn compile_failures_are_counted() {
    let mut mt = MT::new(None).unwrap();
    let mut mtt = MTThread::new();
    mt.set_hot_threshold(0);
    mt.set_trace_failure_threshold(2);
    let mut loc = Location::new();
    expect_start_tracing(&mut mt, &mut mtt, &mut loc);
    expect_stop_tracing(&mut mt, &mut mtt, &mut loc);
    let hl = loc.hot_location().unwrap();
    assert_eq!(
        mt.root_compile_failed(hl, CompilationError::General),
        Verbosity::Warning
    );
    assert_eq!(mt.hot_location(hl).kind, HotLocationKind::Counting(0));
    assert_eq!(
        mt.root_compile_failed(hl, CompilationError::InternalError),
        Verbosity::Error
    );
    assert_eq!(mt.hot_location(hl).kind, HotLocationKind::Counting(0));
    assert_eq!(mt.hot_location(hl).tracecompilation_errors, 2);
    assert_eq!(
        mt.root_compile_failed(hl, CompilationError::LimitExceeded),
        Verbosity::Warning
    );
    assert_eq!(mt.hot_location(hl).kind, HotLocationKind::DontTrace);
    assert_eq!(
        compile_error_verbosity(CompilationError::ResourceExhausted),
        Verbosity::Error
    );
    assert_eq!(mt.compiled_traces.len(), 0);
}

#[test]
fn a_recorder_that_does_not_start_gives_the_location_up() {
    let mut mt = MT::new(None).unwrap();
    let mut mtt = MTThread::new();
    mt.set_hot_threshold(0);
    let mut loc = Location::new();
    let TransitionControlPoint::StartTracing(hl) =
        mt.transition_control_point(&mut mtt, &mut loc, 0, true)
    else {
        panic!()
    };
    mt.tracing_start_failed(hl);
    assert_eq!(
        mt.hot_location(hl),
        HotLocation {
            kind: HotLocationKind::DontTrace,
            tracecompilation_errors: 1,
            tracers: 0
        }
    );
    assert_eq!(
        mt.transition_control_point(&mut mtt, &mut loc, 0, true),
        TransitionControlPoint::NoAction
    );
}

#[test]
fn trace_ids_are_handed_out_once() {
    let mut mt = MT::new(None).unwrap();
    let a = mt.next_compiled_trace_id();
    let b = mt.next_compiled_trace_id();
    assert_eq!(a.as_u64(), 0);
    assert_eq!(b.as_u64(), 1);
    assert_eq!(CompiledTraceId::from_u64(1), b);
    assert_eq!(CompiledTraceId::testing().as_u64(), 0);
    let trace = |id: CompiledTraceId, hl: Option<HotLocationId>| CompiledTrace {
        ctrid: id,
        hl,
        guards: vec![],
    };
    assert!(mt.register(trace(b, None)));
    // The same identifier again, one that was never handed out, a location
    // that there is not.
    assert!(!mt.register(trace(b, None)));
    assert!(!mt.register(trace(CompiledTraceId::from_u64(2), None)));
    assert!(!mt.register(trace(a, Some(0))));
    assert!(mt.register(trace(a, None)));
    assert_eq!(mt.find_trace(a), Some(1));
    assert_eq!(mt.find_trace(b), Some(0));
    assert_eq!(mt.compiled_trace_id, 2);
}

#[test]
fn shutdown_works_once() {
    let mut mt = MT::new(None).unwrap();
    mt.set_hot_threshold(17);
    assert!(mt.shutdown());
    assert!(!mt.shutdown());
    assert!(!mt.shutdown());
    assert_eq!(mt.hot_threshold(), 17);
}

#[test]
fn a_new_meta_tracer_has_the_defaults() {
    let mt = MT::new(None).unwrap();
    assert_eq!(mt.hot_threshold(), DEFAULT_HOT_THRESHOLD);
    assert_eq!(mt.hot_threshold(), 131);
    assert_eq!(mt.sidetrace_threshold(), DEFAULT_SIDETRACE_THRESHOLD);
    assert_eq!(mt.sidetrace_threshold(), 5);
    assert_eq!(
        mt.trace_failure_threshold(),
        DEFAULT_TRACECOMPILATION_ERROR_THRESHOLD
    );
    assert_eq!(mt.trace_failure_threshold(), 5);
    assert_eq!(DEFAULT_TRACE_TOO_LONG, 20000);
    assert!(mt.max_worker_threads() >= 1);
    assert!(mt.wants_worker(0));
    assert!(!mt.wants_worker(mt.max_worker_threads()));
    assert_eq!(default_max_worker_threads(0), 1);
    assert_eq!(default_max_worker_threads(1), 1);
    assert_eq!(default_max_worker_threads(2), 1);
    assert_eq!(default_max_worker_threads(8), 7);
    let with = MT::with_threshold(3, 2);
    assert_eq!(with.hot_threshold(), 3);
    assert_eq!(with.max_worker_threads(), 2);
}

#[test]
fn the_hot_threshold_is_read_from_its_text() {
    assert_eq!(MT::new(Some("42")).unwrap().hot_threshold(), 42);
    assert_eq!(MT::new(Some("+7")).unwrap().hot_threshold(), 7);
    assert_eq!(MT::new(Some("0")).unwrap().hot_threshold(), 0);
    assert_eq!(
        MT::new(Some("4294967295")).unwrap().hot_threshold(),
        u32::MAX
    );
    assert_eq!(MT::new(Some("4294967296")).err(), Some(InvalidHotThreshold));
    assert_eq!(MT::new(Some("")).err(), Some(InvalidHotThreshold));
    assert_eq!(MT::new(Some("+")).err(), Some(InvalidHotThreshold));
    assert_eq!(MT::new(Some("-1")).err(), Some(InvalidHotThreshold));
    assert_eq!(MT::new(Some("12a")).err(), Some(InvalidHotThreshold));
    assert_eq!(MT::new(Some(" 12")).err(), Some(InvalidHotThreshold));
    assert_eq!(parse_hot_threshold(b"007"), Some(7));
    assert_eq!(parse_hot_threshold(b"99999999999999999999999"), None);
}

#[test]
fn promotions_are_recorded_while_tracing() {
    let mut mtt = MTThread::new();
    // Nothing is recorded by a thread that does not trace.
    assert!(mtt.promote_i32(-1));
    assert!(mtt.insert_debug_str("lost".to_string()));
    mtt.inc_cp_idx();
    assert_eq!(mtt.tstate.len(), 1);
    let mt = MT::with_threshold(0, 1);
    let mut mt = mt;
    let mut loc = Location::new();
    expect_start_tracing(&mut mt, &mut mtt, &mut loc);
    assert!(mtt.promote_i32(-2));
    assert!(mtt.promote_u32(3));
    assert!(mtt.promote_i64(-4));
    assert!(mtt.promote_usize(5));
    mtt.inc_cp_idx();
    let MTThreadState::Tracing(f) = &mtt.tstate[1] else {
        panic!()
    };
    let word = std::mem::size_of::<usize>();
    assert_eq!(f.promotions.len(), 4 + 4 + 8 + word);
    assert_eq!(i32::from_ne_bytes(f.promotions[0..4].try_into().unwrap()), -2);
    // The bytes stand lowest first or highest first, as the machine has it.
    assert!(
        f.promotions[0..4] == [0xfe, 0xff, 0xff, 0xff] || f.promotions[0..4] == [0xff, 0xff, 0xff, 0xfe]
    );
    assert_eq!(u32::from_ne_bytes(f.promotions[4..8].try_into().unwrap()), 3);
    assert_eq!(i64::from_ne_bytes(f.promotions[8..16].try_into().unwrap()), -4);
    assert_eq!(
        usize::from_ne_bytes(f.promotions[16..16 + word].try_into().unwrap()),
        5
    );
    assert_eq!(f.cp_idx, 1);
    assert_eq!(f.frameaddr, 0);
}

#[test]
fn abort_kinds_are_described() {
    assert_eq!(
        AbortKind::BackIntoExecution.describe(),
        "tracing continued into a JIT frame"
    );
    assert_eq!(
        AbortKind::EncounteredCompiledTrace.describe(),
        "encountered compiled trace"
    );
    assert_eq!(
        AbortKind::OutOfFrame.describe(),
        "tracing went outside of starting frame"
    );
    assert_eq!(AbortKind::Unrolled.describe(), "tracing unrolled a loop");
}

#[test]
fn compiled_code_is_entered_at_the_end_of_the_frame() {
    assert_eq!(exec_trace_rsp(0x1000, 0x40, false), 0xfc0);
    assert_eq!(exec_trace_rsp(0x1000, 0x40, true), 0xfc8);
    assert_eq!(exec_trace_rsp(0, 8, false), usize::MAX - 7);
    assert_eq!(exec_trace_rsp(0, 8, true), 0);
}

#[test]
fn locations_count_up_and_become_hot_once() {
    let mut loc = Location::new();
    assert_eq!(loc.count(), Some(0));
    assert_eq!(loc.hot_location(), None);
    assert_eq!(loc.inc_count(), Some(1));
    assert_eq!(loc.inc_count(), Some(2));
    assert!(!loc.count_to_hot_location(1, 7));
    assert_eq!(loc.count(), Some(2));
    assert!(loc.count_to_hot_location(2, 7));
    assert_eq!(loc.count(), None);
    assert_eq!(loc.hot_location(), Some(7));
    assert_eq!(loc.inc_count(), None);
    assert!(!loc.count_to_hot_location(2, 8));
    assert_eq!(loc.hot_location(), Some(7));
    let mut full = Location {
        state: LocationState::Counting(u32::MAX),
    };
    assert_eq!(full.inc_count(), Some(u32::MAX));
}

#[test]
fn abandoned_traces_reset_their_location() {
    let mut hl = HotLocation {
        kind: HotLocationKind::Tracing,
        tracecompilation_errors: 0,
        tracers: 1,
    };
    hl.abandon(1);
    assert_eq!(hl.kind, HotLocationKind::Counting(0));
    assert_eq!(hl.tracecompilation_errors, 1);
    hl.kind = HotLocationKind::Tracing;
    hl.abandon(1);
    assert_eq!(hl.kind, HotLocationKind::DontTrace);
    assert_eq!(hl.tracecompilation_errors, 2);
    hl.kind = HotLocationKind::Tracing;
    hl.tracecompilation_errors = u16::MAX;
    hl.abandon(u16::MAX);
    assert_eq!(hl.kind, HotLocationKind::Counting(0));
    assert_eq!(hl.tracecompilation_errors, u16::MAX);
    let ctr = CompiledTraceId::from_u64(4);
    hl.kind = HotLocationKind::SideTracing {
        root_ctr: ctr,
        gidx: 2,
        parent_ctr: CompiledTraceId::from_u64(5),
    };
    hl.abandon(1);
    assert_eq!(hl.kind, HotLocationKind::Compiled(ctr));
    hl.abandon(1);
    assert_eq!(hl.kind, HotLocationKind::Compiled(ctr));
}

#[test]
fn guards_count_their_failures() {
    let mut g = Guard::new();
    assert!(!g.inc_failed(2));
    // Only the failure with which the count gets to the threshold says so.
    assert!(g.inc_failed(2));
    assert!(!g.inc_failed(2));
    assert_eq!(g.failed, 3);
    assert!(!g.inc_failed(0));
    g.failed = u32::MAX - 1;
    assert!(g.inc_failed(u32::MAX));
    assert!(!g.inc_failed(u32::MAX));
    assert_eq!(g.failed, u32::MAX);
    g.set_ctr(CompiledTraceId::from_u64(9));
    assert_eq!(g.ctr, Some(CompiledTraceId::from_u64(9)));
}

#[test]
fn compilation_can_fail_before_it_succeeds() {
    let mut mt = MT::new(None).unwrap();
    let mut mtt = MTThread::new();
    mt.set_hot_threshold(0);
    let mut loc = Location::new();
    for i in 1..mt.trace_failure_threshold() {
        expect_start_tracing(&mut mt, &mut mtt, &mut loc);
        assert_eq!(kind(&mt, &loc), HotLocationKind::Tracing);
        expect_stop_tracing(&mut mt, &mut mtt, &mut loc);
        assert_eq!(kind(&mt, &loc), HotLocationKind::Compiling);
        let hl = loc.hot_location().unwrap();
        mt.root_compile_failed(hl, CompilationError::General);
        assert_eq!(kind(&mt, &loc), HotLocationKind::Counting(0));
        assert_eq!(mt.hot_location(hl).tracecompilation_errors, i);
        assert_eq!(mt.hot_location(hl).tracers, 0);
    }
    expect_start_tracing(&mut mt, &mut mtt, &mut loc);
    expect_stop_tracing(&mut mt, &mut mtt, &mut loc);
    assert_eq!(kind(&mt, &loc), HotLocationKind::Compiling);
    let ctr = compiled(&mut mt, &loc);
    assert_eq!(kind(&mt, &loc), HotLocationKind::Compiled(ctr));
    assert_eq!(
        mt.transition_control_point(&mut mtt, &mut loc, 0, true),
        TransitionControlPoint::Execute(ctr)
    );
    assert_eq!(mt.compiled_traces.len(), 1);
    assert!(quiet(&mt));
}
