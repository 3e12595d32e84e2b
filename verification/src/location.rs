//! Locations: the points of the host program at which traces can start.
//!
//! A location starts out as a counter. Once it has been hit often enough it
//! is upgraded, once and for good, to a hot location that records where in
//! its life cycle of tracing, compiling and executing the location is.

use vstd::prelude::*;

verus! {

/// How often a location is hit before it is traced.
pub type HotThreshold = u32;

/// How often tracing or compiling a location may fail before it is given up.
pub type TraceCompilationErrorThreshold = u16;

/// The index of a hot location in the meta-tracer's table.
pub type HotLocationId = usize;

/// The index of a guard in a compiled trace.
pub type GuardIdx = usize;

/// The identifier of a compiled trace: no two traces share one.
#[derive(Debug, Clone, Copy, PartialEq, Eq, Hash, Structural)]
pub struct CompiledTraceId(pub u64);

impl CompiledTraceId {
    /// Create an identifier from a number that code generation has passed
    /// through a register.
    pub fn from_u64(ctrid: u64) -> (r: Self)
        ensures
            r.0 == ctrid,
    {
        CompiledTraceId(ctrid)
    }

    /// An identifier for a trace that is never registered. Several such
    /// traces share it.
    pub fn testing() -> (r: Self)
        ensures
            r.0 == 0,
    {
        CompiledTraceId(0)
    }

    /// The identifier as a number that can be turned back into it.
    pub fn as_u64(&self) -> (r: u64)
        ensures
            r == self.0,
    {
        self.0
    }
}

/// Where in its life cycle a hot location is.
#[derive(Debug, Clone, Copy, PartialEq, Eq, Structural)]
pub enum HotLocationKind {
    /// A trace for this location has been compiled.
    Compiled(CompiledTraceId),
    /// A trace for this location is being compiled.
    Compiling,
    /// The location is counting hits: it was hot once, and tracing or
    /// compiling it failed, or it was met while another location was traced.
    Counting(HotThreshold),
    /// Tracing or compiling this location failed too often: it stays as it is.
    DontTrace,
    /// A thread is recording a trace that starts here.
    Tracing,
    /// A thread is recording a side-trace for guard `gidx` of the trace
    /// `parent_ctr`, which belongs to the trace `root_ctr` of this location.
    SideTracing { root_ctr: CompiledTraceId, gidx: GuardIdx, parent_ctr: CompiledTraceId },
}

/// What to do with a location for which tracing or compiling has failed.
#[derive(Debug, Clone, Copy, PartialEq, Eq, Structural)]
pub enum TraceFailed {
    /// Try again later.
    KeepTrying,
    /// Never trace this location again.
    DontTrace,
}

/// The record behind a location that has become hot.
#[derive(Debug, Clone, Copy, PartialEq, Eq, Structural)]
pub struct HotLocation {
    /// Where in its life cycle the location is.
    pub kind: HotLocationKind,
    /// How often tracing or compiling this location has failed.
    pub tracecompilation_errors: TraceCompilationErrorThreshold,
    /// How many threads hold this location to record a trace for it: in a
    /// tracing frame of their state, or in an action that they are about to
    /// carry out.
    pub tracers: usize,
}

impl HotLocation {
    /// The record after one more failure, with the failure threshold
    /// `threshold`: every failure is counted, as far as the counter goes,
    /// and it is worth trying again until there have been more failures
    /// than the threshold allows.
    pub open spec fn spec_failed(self, threshold: TraceCompilationErrorThreshold) -> (
        TraceFailed,
        HotLocation,
    ) {
        let errors = if self.tracecompilation_errors < u16::MAX {
            (self.tracecompilation_errors + 1) as u16
        } else {
            self.tracecompilation_errors
        };
        (
            if errors > threshold {
                TraceFailed::DontTrace
            } else {
                TraceFailed::KeepTrying
            },
            HotLocation { tracecompilation_errors: errors, ..self },
        )
    }

    /// The record after the trace that was being recorded for it has been
    /// abandoned: a location that was being traced counts again from zero,
    /// unless it has failed too often and is not traced any more; a location
    /// that was being side-traced still has its compiled trace.
    pub open spec fn spec_abandoned(self, threshold: TraceCompilationErrorThreshold) -> HotLocation {
        match self.kind {
            HotLocationKind::Tracing => {
                let (verdict, hl) = self.spec_failed(threshold);
                if verdict is KeepTrying {
                    HotLocation { kind: HotLocationKind::Counting(0), ..hl }
                } else {
                    HotLocation { kind: HotLocationKind::DontTrace, ..hl }
                }
            },
            HotLocationKind::SideTracing { root_ctr, .. } => HotLocation {
                kind: HotLocationKind::Compiled(root_ctr),
                ..self
            },
            _ => self,
        }
    }

    /// Is a trace, or a side-trace, being recorded for this location?
    pub open spec fn being_traced(self) -> bool {
        self.kind is Tracing || self.kind is SideTracing
    }

    /// Count a failure to trace or compile this location, and say whether it
    /// is worth trying again: it is, until the number of failures exceeds
    /// `threshold`.
    pub fn tracecompilation_error(&mut self, threshold: TraceCompilationErrorThreshold) -> (r:
        TraceFailed)
        ensures
            (r, *final(self)) == old(self).spec_failed(threshold),
    {
        if self.tracecompilation_errors < u16::MAX {
            self.tracecompilation_errors = self.tracecompilation_errors + 1;
        }
        if self.tracecompilation_errors > threshold {
            TraceFailed::DontTrace
        } else {
            TraceFailed::KeepTrying
        }
    }

    /// Abandon the trace that is being recorded for this location.
    pub fn abandon(&mut self, threshold: TraceCompilationErrorThreshold)
        ensures
            *final(self) == old(self).spec_abandoned(threshold),
    {
        match self.kind {
            HotLocationKind::Tracing => {
                match self.tracecompilation_error(threshold) {
                    TraceFailed::KeepTrying => {
                        self.kind = HotLocationKind::Counting(0);
                    },
                    TraceFailed::DontTrace => {
                        self.kind = HotLocationKind::DontTrace;
                    },
                }
            },
            HotLocationKind::SideTracing { root_ctr, .. } => {
                self.kind = HotLocationKind::Compiled(root_ctr);
            },
            _ => {},
        }
    }
}

/// What a location is: a counter of hits, or a hot location.
#[derive(Debug, Clone, Copy, PartialEq, Eq, Structural)]
pub enum LocationState {
    /// The location has been hit this many times.
    Counting(HotThreshold),
    /// The location has become the hot location of this index.
    Hot(HotLocationId),
}

/// A point of the host program at which a trace can start.
#[derive(Debug, Clone, Copy, PartialEq, Eq, Structural)]
pub struct Location {
    pub state: LocationState,
}

impl Location {
    /// A location that has never been hit.
    pub fn new() -> (l: Self)
        ensures
            l.state == LocationState::Counting(0),
    {
        Location { state: LocationState::Counting(0) }
    }

    /// How often the location has been hit, if it is not hot yet.
    pub fn count(&self) -> (r: Option<HotThreshold>)
        ensures
            r == match self.state {
                LocationState::Counting(c) => Some(c),
                LocationState::Hot(_) => None::<HotThreshold>,
            },
    {
        match self.state {
            LocationState::Counting(c) => Some(c),
            LocationState::Hot(_) => None,
        }
    }

    /// The hot location that this location has become, if it has.
    pub fn hot_location(&self) -> (r: Option<HotLocationId>)
        ensures
            r == match self.state {
                LocationState::Counting(_) => None::<HotLocationId>,
                LocationState::Hot(id) => Some(id),
            },
    {
        match self.state {
            LocationState::Counting(_) => None,
            LocationState::Hot(id) => Some(id),
        }
    }

    /// Count a hit and return the new count, which does not go beyond the
    /// largest number; `None`, and no change, if the location is hot.
    pub fn inc_count(&mut self) -> (r: Option<HotThreshold>)
        ensures
            match old(self).state {
                LocationState::Counting(c) => {
                    let n = if c < HotThreshold::MAX {
                        (c + 1) as u32
                    } else {
                        c
                    };
                    r == Some(n) && final(self).state == LocationState::Counting(n)
                },
                LocationState::Hot(_) => r is None && *final(self) == *old(self),
            },
    {
        match self.state {
            LocationState::Counting(c) => {
                let n = if c < HotThreshold::MAX {
                    c + 1
                } else {
                    c
                };
                self.state = LocationState::Counting(n);
                Some(n)
            },
            LocationState::Hot(_) => None,
        }
    }

    /// Turn the location from a counter that stands at `count` into the hot
    /// location `id`. This succeeds, and returns `true`, only if the counter
    /// stands at `count`: a location is upgraded once.
    pub fn count_to_hot_location(&mut self, count: HotThreshold, id: HotLocationId) -> (r: bool)
        ensures
            r == (old(self).state == LocationState::Counting(count)),
            final(self).state == if r {
                LocationState::Hot(id)
            } else {
                old(self).state
            },
    {
        match self.state {
            LocationState::Counting(c) => {
                if c == count {
                    self.state = LocationState::Hot(id);
                    true
                } else {
                    false
                }
            },
            LocationState::Hot(_) => false,
        }
    }
}

} // verus!
