//! The fallback orchestrator: a state machine that tries the glibc
//! detectors in registry order, then the musl loaders in their fixed
//! order, and reports the first success — glibc evidence strictly
//! before musl evidence, exhaustion as absence.
//!
//! The machine is pure: the embedding program performs each requested
//! probe and feeds the captured event back in.  No state survives a
//! detection call.

use vstd::prelude::*;
use crate::LibCFamily;
use crate::outcome::{glibc_event_version, glibc_version_from_event, musl_event_version,
    musl_version_from_event, ProbeEvent};
use crate::registry::{glibc_detector_order, glibc_detectors, musl_loader_archs,
    musl_loader_order, GlibcArch, HostArch, MuslArch};

verus! {

/// A detected libc: its family and its `(major, minor)` version.
#[derive(Debug, Clone, Copy, Hash, PartialEq, Eq)]
pub struct LibCVersion {
    /// The family of the libc implementation.
    pub family: LibCFamily,
    /// The major and minor version of the library.
    pub version: (u32, u32),
}

/// Where a detection run stands: working through the glibc candidates,
/// working through the musl candidates, or finished.
#[derive(Debug, Clone, Copy)]
pub enum DetectState {
    /// Trying the glibc detector at `index` of the registry order for
    /// `host`.
    TryingGlibc { host: HostArch, index: usize },
    /// Trying the musl loader at `index` of the fixed loader order.
    TryingMusl { index: usize },
    /// Detection is over; `result` is its report.
    Done { result: Option<LibCVersion> },
}

/// The probe the embedding program is asked to perform next.
#[derive(Debug, Clone, Copy)]
pub enum ProbeAction {
    /// Execute the embedded glibc detector built for `arch`, tracelessly,
    /// and capture its outcome.
    RunGlibcDetector { arch: GlibcArch },
    /// Execute `/lib/ld-musl-<arch>.so.1` if it exists, and capture its
    /// outcome.
    RunMuslLoader { arch: MuslArch },
    /// Stop: detection has finished with `result`.
    Finish { result: Option<LibCVersion> },
}

/// An in-progress state never points past its candidate list.
pub open spec fn state_wf(s: DetectState) -> bool {
    match s {
        DetectState::TryingGlibc { host, index } => index < glibc_detector_order(host).len(),
        DetectState::TryingMusl { index } => index < musl_loader_order().len(),
        DetectState::Done { .. } => true,
    }
}

/// How many probe attempts can still lie ahead; strictly falls at every
/// step, so a detection run always ends.
pub open spec fn state_measure(s: DetectState) -> int {
    match s {
        DetectState::TryingGlibc { host, index } => glibc_detector_order(host).len() - index
            + musl_loader_order().len(),
        DetectState::TryingMusl { index } => musl_loader_order().len() - index,
        DetectState::Done { .. } => 0,
    }
}

/// Where detection starts: the first glibc candidate, or — on a host
/// with none embedded — the first musl candidate.
pub open spec fn initial_state(host: HostArch) -> DetectState {
    if glibc_detector_order(host).len() > 0 {
        DetectState::TryingGlibc { host: host, index: 0 }
    } else {
        DetectState::TryingMusl { index: 0 }
    }
}

/// The probe that each state calls for.
pub open spec fn action_of(s: DetectState) -> ProbeAction {
    match s {
        DetectState::TryingGlibc { host, index } => ProbeAction::RunGlibcDetector {
            arch: glibc_detector_order(host)[index as int],
        },
        DetectState::TryingMusl { index } => ProbeAction::RunMuslLoader {
            arch: musl_loader_order()[index as int],
        },
        DetectState::Done { result } => ProbeAction::Finish { result },
    }
}

/// One transition: a version ends the run with that family's report; a
/// yield of nothing — completed without a version, or skipped — moves to
/// the next candidate, from the last glibc candidate into the musl
/// phase, and from the last musl candidate to absence.
pub open spec fn step_spec(s: DetectState, e: ProbeEvent) -> DetectState {
    match s {
        DetectState::TryingGlibc { host, index } => match glibc_event_version(e) {
            Some(v) => DetectState::Done {
                result: Some(LibCVersion { family: LibCFamily::GLibC, version: v }),
            },
            None => {
                if index + 1 < glibc_detector_order(host).len() {
                    DetectState::TryingGlibc { host: host, index: (index + 1) as usize }
                } else {
                    DetectState::TryingMusl { index: 0 }
                }
            },
        },
        DetectState::TryingMusl { index } => match musl_event_version(e) {
            Some(v) => DetectState::Done {
                result: Some(LibCVersion { family: LibCFamily::Musl, version: v }),
            },
            None => {
                if index + 1 < musl_loader_order().len() {
                    DetectState::TryingMusl { index: (index + 1) as usize }
                } else {
                    DetectState::Done { result: None }
                }
            },
        },
        DetectState::Done { .. } => s,
    }
}

/// The first version that the glibc phase yields, in attempt order.
pub open spec fn first_glibc_hit(events: Seq<ProbeEvent>) -> Option<(u32, u32)>
    decreases events.len(),
{
    if events.len() == 0 {
        None
    } else if glibc_event_version(events[0]) is Some {
        glibc_event_version(events[0])
    } else {
        first_glibc_hit(events.drop_first())
    }
}

/// The first version that the musl phase yields, in attempt order.
pub open spec fn first_musl_hit(events: Seq<ProbeEvent>) -> Option<(u32, u32)>
    decreases events.len(),
{
    if events.len() == 0 {
        None
    } else if musl_event_version(events[0]) is Some {
        musl_event_version(events[0])
    } else {
        first_musl_hit(events.drop_first())
    }
}

/// What a whole detection run reports, given the events of every
/// attempt in order: the glibc candidates' events first, then the musl
/// candidates'.  The first glibc hit wins; failing that, the first musl
/// hit; failing both, absence.
pub open spec fn detection_result(host: HostArch, events: Seq<ProbeEvent>) -> Option<LibCVersion> {
    let g = glibc_detector_order(host).len() as int;
    match first_glibc_hit(events.take(g)) {
        Some(v) => Some(LibCVersion { family: LibCFamily::GLibC, version: v }),
        None => match first_musl_hit(events.skip(g)) {
            Some(v) => Some(LibCVersion { family: LibCFamily::Musl, version: v }),
            None => None,
        },
    }
}

proof fn lemma_first_glibc_at(events: Seq<ProbeEvent>, i: int)
    requires
        0 <= i < events.len(),
        forall|j: int| 0 <= j < i ==> glibc_event_version(events[j]) is None,
        glibc_event_version(events[i]) is Some,
    ensures
        first_glibc_hit(events) == glibc_event_version(events[i]),
    decreases i,
{
    if i > 0 {
        assert(events.drop_first()[i - 1] == events[i]);
        assert forall|j: int| 0 <= j < i - 1 implies glibc_event_version(
            events.drop_first()[j],
        ) is None by {
            assert(events.drop_first()[j] == events[j + 1]);
        }
        lemma_first_glibc_at(events.drop_first(), i - 1);
    }
}

proof fn lemma_first_glibc_some(events: Seq<ProbeEvent>, i: int)
    requires
        0 <= i < events.len(),
        glibc_event_version(events[i]) is Some,
    ensures
        first_glibc_hit(events) is Some,
    decreases i,
{
    if glibc_event_version(events[0]) is None {
        assert(events.drop_first()[i - 1] == events[i]);
        lemma_first_glibc_some(events.drop_first(), i - 1);
    }
}

proof fn lemma_first_glibc_none(events: Seq<ProbeEvent>)
    requires
        forall|j: int| 0 <= j < events.len() ==> glibc_event_version(events[j]) is None,
    ensures
        first_glibc_hit(events) is None,
    decreases events.len(),
{
    if events.len() > 0 {
        assert forall|j: int| 0 <= j < events.drop_first().len() implies glibc_event_version(
            events.drop_first()[j],
        ) is None by {
            assert(events.drop_first()[j] == events[j + 1]);
        }
        lemma_first_glibc_none(events.drop_first());
    }
}

proof fn lemma_first_musl_at(events: Seq<ProbeEvent>, i: int)
    requires
        0 <= i < events.len(),
        forall|j: int| 0 <= j < i ==> musl_event_version(events[j]) is None,
        musl_event_version(events[i]) is Some,
    ensures
        first_musl_hit(events) == musl_event_version(events[i]),
    decreases i,
{
    if i > 0 {
        assert(events.drop_first()[i - 1] == events[i]);
        assert forall|j: int| 0 <= j < i - 1 implies musl_event_version(
            events.drop_first()[j],
        ) is None by {
            assert(events.drop_first()[j] == events[j + 1]);
        }
        lemma_first_musl_at(events.drop_first(), i - 1);
    }
}

proof fn lemma_first_musl_none(events: Seq<ProbeEvent>)
    requires
        forall|j: int| 0 <= j < events.len() ==> musl_event_version(events[j]) is None,
    ensures
        first_musl_hit(events) is None,
    decreases events.len(),
{
    if events.len() > 0 {
        assert forall|j: int| 0 <= j < events.drop_first().len() implies musl_event_version(
            events.drop_first()[j],
        ) is None by {
            assert(events.drop_first()[j] == events[j + 1]);
        }
        lemma_first_musl_none(events.drop_first());
    }
}

impl DetectState {
    /// Whether detection has finished.
    pub fn is_done(&self) -> (r: bool)
        ensures
            r == (*self is Done),
    {
        match self {
            DetectState::Done { .. } => true,
            _ => false,
        }
    }
}

/// Returns the state a detection run for `host` starts in.
pub fn start(host: HostArch) -> (s: DetectState)
    ensures
        s == initial_state(host),
        state_wf(s),
{
    match host {
        HostArch::Other => DetectState::TryingMusl { index: 0 },
        _ => DetectState::TryingGlibc { host, index: 0 },
    }
}

/// Returns the probe that the embedding program should perform next, or
/// the final report.
pub fn next_action(s: &DetectState) -> (a: ProbeAction)
    requires
        state_wf(*s),
    ensures
        a == action_of(*s),
{
    match s {
        DetectState::TryingGlibc { host, index } => {
            let detectors = glibc_detectors(*host);
            ProbeAction::RunGlibcDetector { arch: detectors[*index] }
        },
        DetectState::TryingMusl { index } => {
            let archs = musl_loader_archs();
            ProbeAction::RunMuslLoader { arch: archs[*index] }
        },
        DetectState::Done { result } => ProbeAction::Finish { result: *result },
    }
}

/// Feeds one probe attempt's event into the machine, as
/// [`step_spec`] describes.  Every step brings the end strictly closer.
pub fn step(s: DetectState, e: &ProbeEvent) -> (s2: DetectState)
    requires
        state_wf(s),
        !(s is Done),
    ensures
        s2 == step_spec(s, *e),
        state_wf(s2),
        state_measure(s2) < state_measure(s),
{
    match s {
        DetectState::TryingGlibc { host, index } => match glibc_version_from_event(e) {
            Some(version) => DetectState::Done {
                result: Some(LibCVersion { family: LibCFamily::GLibC, version }),
            },
            None => {
                let glen = glibc_detectors(host).len();
                if index + 1 < glen {
                    DetectState::TryingGlibc { host, index: index + 1 }
                } else {
                    DetectState::TryingMusl { index: 0 }
                }
            },
        },
        DetectState::TryingMusl { index } => match musl_version_from_event(e) {
            Some(version) => DetectState::Done {
                result: Some(LibCVersion { family: LibCFamily::Musl, version }),
            },
            None => {
                let mlen = musl_loader_archs().len();
                if index + 1 < mlen {
                    DetectState::TryingMusl { index: index + 1 }
                } else {
                    DetectState::Done { result: None }
                }
            },
        },
        DetectState::Done { result } => DetectState::Done { result },
    }
}

/// Runs a whole detection over the recorded events of every attempt —
/// the glibc candidates' in registry order, then the musl candidates' —
/// and returns what [`detection_result`] says.
pub fn run_detection(host: HostArch, events: &Vec<ProbeEvent>) -> (r: Option<LibCVersion>)
    requires
        events@.len() == glibc_detector_order(host).len() + musl_loader_order().len(),
    ensures
        r == detection_result(host, events@),
{
    let ghost g = glibc_detector_order(host).len() as int;
    let mut st = start(host);
    let mut i: usize = 0;
    while !st.is_done()
        invariant
            state_wf(st),
            events@.len() == g + musl_loader_order().len(),
            g == glibc_detector_order(host).len(),
            i <= events@.len(),
            st matches DetectState::TryingGlibc { host: h, index } ==> h == host && i == index
                && (forall|j: int| 0 <= j < i ==> glibc_event_version(events@[j]) is None),
            st matches DetectState::TryingMusl { index } ==> i == g + index && (forall|j: int|
                0 <= j < g ==> glibc_event_version(events@[j]) is None) && (forall|j: int|
                g <= j < i ==> musl_event_version(events@[j]) is None),
            st matches DetectState::Done { result } ==> result == detection_result(host, events@),
        decreases state_measure(st),
    {
        let e = &events[i];
        let ghost old_st = st;
        st = step(st, e);
        proof {
            let gseq = events@.take(g);
            let mseq = events@.skip(g);
            match old_st {
                DetectState::TryingGlibc { host: h, index } => {
                    match glibc_event_version(*e) {
                        Some(v) => {
                            assert forall|j: int| 0 <= j < i implies glibc_event_version(
                                gseq[j],
                            ) is None by {
                                assert(gseq[j] == events@[j]);
                            }
                            assert(gseq[i as int] == events@[i as int]);
                            lemma_first_glibc_at(gseq, i as int);
                        },
                        None => {},
                    }
                },
                DetectState::TryingMusl { index } => {
                    match musl_event_version(*e) {
                        Some(v) => {
                            assert forall|j: int| 0 <= j < gseq.len() implies glibc_event_version(
                                gseq[j],
                            ) is None by {
                                assert(gseq[j] == events@[j]);
                            }
                            lemma_first_glibc_none(gseq);
                            assert forall|j: int| 0 <= j < i - g implies musl_event_version(
                                mseq[j],
                            ) is None by {
                                assert(mseq[j] == events@[g + j]);
                            }
                            assert(mseq[i - g] == events@[i as int]);
                            lemma_first_musl_at(mseq, i - g);
                        },
                        None => {
                            if st is Done {
                                assert forall|j: int| 0 <= j < gseq.len() implies
                                    glibc_event_version(gseq[j]) is None by {
                                    assert(gseq[j] == events@[j]);
                                }
                                lemma_first_glibc_none(gseq);
                                assert forall|j: int| 0 <= j < mseq.len() implies
                                    musl_event_version(mseq[j]) is None by {
                                    assert(mseq[j] == events@[g + j]);
                                    if g + j < i {
                                    } else {
                                        assert(g + j == i);
                                        assert(events@[i as int] == *e);
                                    }
                                }
                                lemma_first_musl_none(mseq);
                            }
                        },
                    }
                },
                DetectState::Done { .. } => {},
            }
        }
        i = i + 1;
    }
    match st {
        DetectState::Done { result } => result,
        _ => {
            proof {
                assert(false);
            }
            None
        },
    }
}

/// What a combined detection reports, given what each family's own
/// probe reported: glibc strictly preferred, then musl, then absence.
pub open spec fn combined_version(
    glibc: Option<(u32, u32)>,
    musl: Option<(u32, u32)>,
) -> Option<LibCVersion> {
    match glibc {
        Some(v) => Some(LibCVersion { family: LibCFamily::GLibC, version: v }),
        None => match musl {
            Some(v) => Some(LibCVersion { family: LibCFamily::Musl, version: v }),
            None => None,
        },
    }
}

/// Folds the two families' detection reports into the single most
/// likely libc: glibc evidence strictly takes priority over musl
/// evidence, and only total exhaustion reports absence.
pub fn libc_version(glibc: Option<(u32, u32)>, musl: Option<(u32, u32)>) -> (r: Option<
    LibCVersion,
>)
    ensures
        r == combined_version(glibc, musl),
{
    if let Some(version) = glibc {
        return Some(LibCVersion { family: LibCFamily::GLibC, version });
    }
    if let Some(version) = musl {
        return Some(LibCVersion { family: LibCFamily::Musl, version });
    }
    None
}

/// Glibc evidence strictly takes priority: if any attempt of the glibc
/// phase yields a version, the run reports the GLibC family, whatever
/// the musl phase holds.
pub proof fn lemma_glibc_priority(host: HostArch, events: Seq<ProbeEvent>, i: int)
    requires
        events.len() == glibc_detector_order(host).len() + musl_loader_order().len(),
        0 <= i < glibc_detector_order(host).len(),
        glibc_event_version(events[i]) is Some,
    ensures
        detection_result(host, events) is Some,
        detection_result(host, events)->Some_0.family == LibCFamily::GLibC,
{
    let g = glibc_detector_order(host).len() as int;
    let gseq = events.take(g);
    assert(gseq[i] == events[i]);
    lemma_first_glibc_some(gseq, i);
}

/// Exhaustion propagates as absence: when no attempt of either family
/// yields a version, the run reports no libc — a valid outcome, never
/// an error.
pub proof fn lemma_absence_propagation(host: HostArch, events: Seq<ProbeEvent>)
    requires
        events.len() == glibc_detector_order(host).len() + musl_loader_order().len(),
        forall|j: int| 0 <= j < events.len() ==> glibc_event_version(events[j]) is None,
        forall|j: int| 0 <= j < events.len() ==> musl_event_version(events[j]) is None,
    ensures
        detection_result(host, events) is None,
{
    let g = glibc_detector_order(host).len() as int;
    let gseq = events.take(g);
    let mseq = events.skip(g);
    assert forall|j: int| 0 <= j < gseq.len() implies glibc_event_version(gseq[j]) is None by {
        assert(gseq[j] == events[j]);
    }
    lemma_first_glibc_none(gseq);
    assert forall|j: int| 0 <= j < mseq.len() implies musl_event_version(mseq[j]) is None by {
        assert(mseq[j] == events[g + j]);
    }
    lemma_first_musl_none(mseq);
}

/// A probe that never ran — a foreign-architecture payload the kernel
/// refuses, a failed resource setup, an absent loader — is an ordinary
/// skip: the machine moves on, and never reports a version off such an
/// attempt.
pub proof fn lemma_skipped_probe_advances(s: DetectState, e: ProbeEvent)
    requires
        state_wf(s),
        !(s is Done),
        e is Skipped,
    ensures
        step_spec(s, e) matches DetectState::Done { result } ==> result is None,
{
}

} // verus!
