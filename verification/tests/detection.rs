//! The registry, the outcome rules, and the fallback machine.

use libc_detect::LibCFamily;
use libc_detect::detect::{libc_version, next_action, run_detection, start, step, DetectState,
    LibCVersion, ProbeAction};
use libc_detect::outcome::{glibc_version_from_output, musl_version_from_outcome,
    ExecutionOutcome, ProbeEvent};
use libc_detect::registry::{glibc_detectors, musl_loader_archs, GlibcArch, HostArch, MuslArch};

fn completed(exit_code: Option<i32>, stdout: &[u8], stderr: &[u8]) -> ProbeEvent {
    ProbeEvent::Completed(ExecutionOutcome {
        exit_code,
        stdout: stdout.to_vec(),
        stderr: stderr.to_vec(),
    })
}

#[test]
fn test_glibc_version() {
    let outcome = ExecutionOutcome {
        exit_code: Some(0),
        stdout: b"2.31\n".to_vec(),
        stderr: Vec::new(),
    };
    let version = glibc_version_from_output(&outcome);
    println!("glibc version: {:?}", version);
    assert_eq!(version, Some((2, 31)));
}

#[test]
fn test_glibc_nonzero_exit_is_skip() {
    let outcome = ExecutionOutcome {
        exit_code: Some(1),
        stdout: b"2.31\n".to_vec(),
        stderr: Vec::new(),
    };
    assert_eq!(glibc_version_from_output(&outcome), None);
}

#[test]
fn test_glibc_signal_death_is_skip() {
    let outcome = ExecutionOutcome { exit_code: None, stdout: b"2.31".to_vec(), stderr: Vec::new() };
    assert_eq!(glibc_version_from_output(&outcome), None);
}

#[test]
fn test_musl_version() {
    let outcome = ExecutionOutcome {
        exit_code: Some(127),
        stdout: Vec::new(),
        stderr: b"musl libc (x86_64)\nVersion 1.2.3\nUsage: ...".to_vec(),
    };
    let version = musl_version_from_outcome(&outcome);
    println!("musl version: {:?}", version);
    assert_eq!(version, Some((1, 2)));
}

#[test]
fn test_musl_exit_status_is_ignored() {
    let stderr = b"musl libc (x86_64)\nVersion 1.2.3\nUsage: ...";
    let zero = ExecutionOutcome {
        exit_code: Some(0),
        stdout: Vec::new(),
        stderr: stderr.to_vec(),
    };
    let nonzero = ExecutionOutcome {
        exit_code: Some(1),
        stdout: Vec::new(),
        stderr: stderr.to_vec(),
    };
    assert_eq!(musl_version_from_outcome(&zero), Some((1, 2)));
    assert_eq!(musl_version_from_outcome(&nonzero), Some((1, 2)));
}

#[test]
fn test_libc_version() {
    let version = libc_version(Some((2, 31)), None);
    match version {
        Some(version) => println!("libc version: {version:?}"),
        None => panic!("no libc version detected"),
    }
}

#[test]
fn test_libc_version_prefers_glibc() {
    let version = libc_version(Some((2, 31)), Some((1, 2)));
    assert_eq!(version, Some(LibCVersion { family: LibCFamily::GLibC, version: (2, 31) }));
}

#[test]
fn test_libc_version_falls_back_to_musl() {
    let version = libc_version(None, Some((1, 2)));
    assert_eq!(version, Some(LibCVersion { family: LibCFamily::Musl, version: (1, 2) }));
}

#[test]
fn test_libc_version_absent() {
    assert_eq!(libc_version(None, None), None);
}

#[test]
fn test_registry_orders() {
    assert_eq!(glibc_detectors(HostArch::X86), vec![GlibcArch::X8664, GlibcArch::I686]);
    assert_eq!(glibc_detectors(HostArch::Arm), vec![GlibcArch::Aarch64, GlibcArch::Armv7l]);
    assert_eq!(glibc_detectors(HostArch::Powerpc64), vec![GlibcArch::Ppc64le]);
    assert_eq!(glibc_detectors(HostArch::S390x), vec![GlibcArch::S390x]);
    assert_eq!(glibc_detectors(HostArch::Other), Vec::new());
    assert_eq!(
        musl_loader_archs(),
        vec![
            MuslArch::X8664,
            MuslArch::Aarch64,
            MuslArch::I386,
            MuslArch::Armhf,
            MuslArch::Powerpc64le,
            MuslArch::S390x,
        ]
    );
}

#[test]
fn test_arch_tags() {
    assert_eq!(GlibcArch::X8664.tag(), "x86_64");
    assert_eq!(GlibcArch::I686.tag(), "i686");
    assert_eq!(MuslArch::Armhf.tag(), "armhf");
    assert_eq!(MuslArch::Powerpc64le.tag(), "powerpc64le");
}

#[test]
fn test_fallback_ordering_prefers_glibc() {
    // both a working glibc probe and a present musl loader
    let events = vec![
        completed(Some(0), b"2.31\n", b""),
        ProbeEvent::Skipped,
        completed(Some(1), b"", b"musl libc\nVersion 1.2.3\n"),
        ProbeEvent::Skipped,
        ProbeEvent::Skipped,
        ProbeEvent::Skipped,
        ProbeEvent::Skipped,
        ProbeEvent::Skipped,
    ];
    let report = run_detection(HostArch::X86, &events);
    assert_eq!(report, Some(LibCVersion { family: LibCFamily::GLibC, version: (2, 31) }));
}

#[test]
fn test_musl_wins_when_glibc_fails() {
    let events = vec![
        completed(Some(1), b"", b""),
        ProbeEvent::Skipped,
        completed(Some(127), b"", b"musl libc (x86_64)\nVersion 1.2.3\nUsage: ..."),
        ProbeEvent::Skipped,
        ProbeEvent::Skipped,
        ProbeEvent::Skipped,
        ProbeEvent::Skipped,
        ProbeEvent::Skipped,
    ];
    let report = run_detection(HostArch::X86, &events);
    assert_eq!(report, Some(LibCVersion { family: LibCFamily::Musl, version: (1, 2) }));
}

#[test]
fn test_absence_propagation() {
    let events = vec![ProbeEvent::Skipped; 8];
    assert_eq!(run_detection(HostArch::X86, &events), None);
    let events = vec![ProbeEvent::Skipped; 6];
    assert_eq!(run_detection(HostArch::Other, &events), None);
}

#[test]
fn test_architecture_skip_moves_to_next_candidate() {
    // a foreign-architecture probe (refused by the kernel, reported as
    // Skipped) must not end detection: the 32-bit sibling still answers
    let events = vec![
        ProbeEvent::Skipped,
        completed(Some(0), b"2.31\n", b""),
        ProbeEvent::Skipped,
        ProbeEvent::Skipped,
        ProbeEvent::Skipped,
        ProbeEvent::Skipped,
        ProbeEvent::Skipped,
        ProbeEvent::Skipped,
    ];
    let report = run_detection(HostArch::X86, &events);
    assert_eq!(report, Some(LibCVersion { family: LibCFamily::GLibC, version: (2, 31) }));
}

#[test]
fn test_unparsable_probe_output_is_skip() {
    let events = vec![
        completed(Some(0), b"glibc!", b""),
        completed(Some(0), b"2.31", b""),
        ProbeEvent::Skipped,
        ProbeEvent::Skipped,
        ProbeEvent::Skipped,
        ProbeEvent::Skipped,
        ProbeEvent::Skipped,
        ProbeEvent::Skipped,
    ];
    let report = run_detection(HostArch::X86, &events);
    assert_eq!(report, Some(LibCVersion { family: LibCFamily::GLibC, version: (2, 31) }));
}

#[test]
fn test_detection_holds_no_state_across_runs() {
    // each run starts fresh: equal events give equal reports
    let events = vec![
        ProbeEvent::Skipped,
        completed(Some(0), b"2.31\n", b""),
        ProbeEvent::Skipped,
        ProbeEvent::Skipped,
        ProbeEvent::Skipped,
        ProbeEvent::Skipped,
        ProbeEvent::Skipped,
        ProbeEvent::Skipped,
    ];
    let first = run_detection(HostArch::X86, &events);
    let second = run_detection(HostArch::X86, &events);
    assert_eq!(first, second);
    assert_eq!(first, Some(LibCVersion { family: LibCFamily::GLibC, version: (2, 31) }));
}

#[test]
fn test_state_machine_walk() {
    // Powerpc64 has one glibc candidate, then the six musl candidates
    let mut st = start(HostArch::Powerpc64);
    match next_action(&st) {
        ProbeAction::RunGlibcDetector { arch } => assert_eq!(arch, GlibcArch::Ppc64le),
        _ => panic!("expected a glibc probe first"),
    }
    st = step(st, &ProbeEvent::Skipped);
    match next_action(&st) {
        ProbeAction::RunMuslLoader { arch } => assert_eq!(arch, MuslArch::X8664),
        _ => panic!("expected the musl phase after glibc exhaustion"),
    }
    for _ in 0..5 {
        st = step(st, &ProbeEvent::Skipped);
        assert!(!st.is_done());
    }
    st = step(st, &ProbeEvent::Skipped);
    assert!(st.is_done());
    match st {
        DetectState::Done { result } => assert_eq!(result, None),
        _ => panic!("expected a finished run"),
    }
    match next_action(&st) {
        ProbeAction::Finish { result } => assert_eq!(result, None),
        _ => panic!("expected the machine to ask for a stop"),
    }
}

#[test]
fn test_machine_reports_musl_success() {
    let mut st = start(HostArch::Other);
    match next_action(&st) {
        ProbeAction::RunMuslLoader { arch } => assert_eq!(arch, MuslArch::X8664),
        _ => panic!("expected the musl phase on an unsupported architecture"),
    }
    st = step(st, &completed(Some(127), b"", b"musl libc\nVersion 1.2.3\n"));
    match st {
        DetectState::Done { result } => {
            assert_eq!(result, Some(LibCVersion { family: LibCFamily::Musl, version: (1, 2) }));
        },
        _ => panic!("expected success to finish the run"),
    }
}
