use confuse_module::bootstrap::{expect_initialize, needs_exception_hook, needs_triple_hook, output_config};
use confuse_module::config::{Fault, InputConfig, MapType, ShmHandle};
use confuse_module::coverage::CoverageMap;
use confuse_module::error::HarnessError;
use confuse_module::harness::{Action, Harness, Phase, Signal, StopReason};
use confuse_module::inject::{PhysWrite, SizePolicy};
use confuse_module::message::{FuzzerEvent, SimicsEvent, StopType};

fn harness(faults: Vec<Fault>) -> Harness {
    let cfg = InputConfig::default().with_faults(faults);
    Harness::new(cfg, SizePolicy::Truncate, CoverageMap::new(8).unwrap())
}

fn start_first_iteration(h: &mut Harness, input: Vec<u8>) -> Action {
    assert!(h.on_magic(1));
    assert!(matches!(h.on_simulation_stopped(), Ok(Action::SaveSnapshot)));
    assert!(matches!(
        h.buffer_found(0x4000, 16),
        Ok(Action::SendAndReceive(SimicsEvent::Ready))
    ));
    h.on_message(FuzzerEvent::Run(input)).unwrap()
}

fn writes(a: Action) -> Vec<PhysWrite> {
    match a {
        Action::WriteAndResume(w) => w,
        other => panic!("unexpected action {:?}", other),
    }
}

#[test]
fn happy_path_first_and_second_iteration() {
    let mut h = harness(vec![]);
    assert_eq!(h.phase, Phase::WaitStart);
    let w = writes(start_first_iteration(&mut h, vec![0xAA; 16]));
    assert_eq!(
        w,
        vec![
            PhysWrite { addr: 0x4000, value: 0xAAAA_AAAA_AAAA_AAAA, width: 8 },
            PhysWrite { addr: 0x4008, value: 0xAAAA_AAAA_AAAA_AAAA, width: 8 },
        ]
    );
    assert_eq!(h.phase, Phase::Running);
    assert!(h.initialized);
    assert_eq!((h.buffer_address, h.buffer_size), (0x4000, 16));

    assert!(h.on_magic(2));
    assert!(matches!(
        h.on_simulation_stopped(),
        Ok(Action::SendAndReceive(SimicsEvent::Stopped(StopType::Normal)))
    ));
    assert!(h.stop_reason.is_none());
    assert!(matches!(h.on_message(FuzzerEvent::Reset), Ok(Action::RestoreAndReady)));
    assert_eq!(h.coverage.prev_loc, 0);
    let w = writes(h.on_message(FuzzerEvent::Run(vec![0xBB; 8])).unwrap());
    assert_eq!(w, vec![PhysWrite { addr: 0x4000, value: 0xBBBB_BBBB_BBBB_BBBB, width: 8 }]);
}

#[test]
fn start_marker_after_initialization_resumes() {
    let mut h = harness(vec![]);
    start_first_iteration(&mut h, vec![1]);
    assert!(h.on_magic(1));
    assert!(matches!(h.on_simulation_stopped(), Ok(Action::Resume)));
    assert_eq!(h.phase, Phase::Running);
}

#[test]
fn crash_path() {
    let mut h = harness(vec![Fault::Exception(14)]);
    start_first_iteration(&mut h, vec![1, 2, 3]);
    assert!(h.on_core_exception(14));
    assert!(matches!(
        h.on_simulation_stopped(),
        Ok(Action::SendAndReceive(SimicsEvent::Stopped(StopType::Crash)))
    ));
    assert!(matches!(h.on_message(FuzzerEvent::Reset), Ok(Action::RestoreAndReady)));
    assert_eq!(h.phase, Phase::AwaitRun);
}

#[test]
fn triple_fault_only() {
    let mut h = harness(vec![Fault::Triple]);
    start_first_iteration(&mut h, vec![1]);
    assert!(!h.on_core_exception(13));
    assert!(h.stop_reason.is_none());
    assert!(h.on_triple_fault());
    assert!(matches!(
        h.on_simulation_stopped(),
        Ok(Action::SendAndReceive(SimicsEvent::Stopped(StopType::Crash)))
    ));
}

#[test]
fn is_fault_follows_configuration() {
    let h = harness(vec![Fault::Exception(14)]);
    assert!(h.is_fault(Fault::Exception(14)));
    assert!(!h.is_fault(Fault::Exception(13)));
    assert!(!h.is_fault(Fault::Triple));
}

#[test]
fn unlisted_triple_fault_is_ignored() {
    let mut h = harness(vec![Fault::Exception(6)]);
    start_first_iteration(&mut h, vec![1]);
    assert!(!h.on_triple_fault());
    assert!(matches!(h.on_simulation_stopped(), Ok(Action::Nothing)));
}

#[test]
fn timeout_is_reported() {
    let mut h = harness(vec![]);
    start_first_iteration(&mut h, vec![1]);
    assert!(h.on_timeout());
    assert!(matches!(
        h.on_simulation_stopped(),
        Ok(Action::SendAndReceive(SimicsEvent::Stopped(StopType::Timeout)))
    ));
}

#[test]
fn first_stop_reason_wins() {
    let mut h = harness(vec![Fault::Exception(0)]);
    start_first_iteration(&mut h, vec![1]);
    assert!(h.on_magic(2));
    assert!(!h.on_core_exception(0));
    assert!(!h.on_timeout());
    assert_eq!(h.stop_reason, Some(StopReason::Magic(confuse_module::harness::Magic::Stop)));
    assert!(!h.on_magic(7));
}

#[test]
fn other_magic_numbers_are_ignored() {
    let mut h = harness(vec![]);
    assert!(!h.on_magic(3));
    assert!(h.stop_reason.is_none());
}

#[test]
fn clean_shutdown() {
    let mut h = harness(vec![]);
    start_first_iteration(&mut h, vec![1]);
    h.on_magic(2);
    h.on_simulation_stopped().unwrap();
    assert!(matches!(h.on_message(FuzzerEvent::Stop), Ok(Action::Shutdown)));
    assert_eq!(h.phase, Phase::Done);
}

#[test]
fn reset_instead_of_run_is_protocol_error() {
    let mut h = harness(vec![]);
    h.on_magic(1);
    h.on_simulation_stopped().unwrap();
    h.buffer_found(0x4000, 16).unwrap();
    assert!(matches!(h.on_message(FuzzerEvent::Reset), Err(HarnessError::Protocol)));
    assert_eq!(h.phase, Phase::AwaitRun);
}

#[test]
fn run_while_awaiting_verdict_is_protocol_error() {
    let mut h = harness(vec![]);
    start_first_iteration(&mut h, vec![1]);
    h.on_magic(2);
    h.on_simulation_stopped().unwrap();
    assert!(matches!(h.on_message(FuzzerEvent::Run(vec![1])), Err(HarnessError::Protocol)));
}

#[test]
fn stop_before_start_is_protocol_error() {
    let mut h = harness(vec![]);
    h.on_magic(2);
    assert!(matches!(h.on_simulation_stopped(), Err(HarnessError::Protocol)));
    assert!(h.stop_reason.is_none());
    assert_eq!(h.phase, Phase::WaitStart);
}

#[test]
fn buffer_found_outside_snapshot_is_protocol_error() {
    let mut h = harness(vec![]);
    assert!(matches!(h.buffer_found(1, 2), Err(HarnessError::Protocol)));
}

#[test]
fn oversize_run_under_reject_policy() {
    let cfg = InputConfig::default();
    let mut h = Harness::new(cfg, SizePolicy::Reject, CoverageMap::new(8).unwrap());
    h.on_magic(1);
    h.on_simulation_stopped().unwrap();
    h.buffer_found(0x4000, 4).unwrap();
    assert!(matches!(
        h.on_message(FuzzerEvent::Run(vec![0; 5])),
        Err(HarnessError::OutOfRange)
    ));
    assert_eq!(h.phase, Phase::AwaitRun);
}

#[test]
fn oversize_run_under_truncate_policy() {
    let mut h = harness(vec![]);
    h.on_magic(1);
    h.on_simulation_stopped().unwrap();
    h.buffer_found(0x4000, 4).unwrap();
    let w = writes(h.on_message(FuzzerEvent::Run(vec![7; 9])).unwrap());
    assert_eq!(w, vec![PhysWrite { addr: 0x4000, value: 0x0707_0707, width: 4 }]);
}

#[test]
fn empty_run_writes_nothing_and_resumes() {
    let mut h = harness(vec![]);
    let w = writes(start_first_iteration(&mut h, vec![]));
    assert!(w.is_empty());
    assert_eq!(h.phase, Phase::Running);
}

#[test]
fn reset_clears_prev_loc_but_not_map() {
    let mut h = harness(vec![]);
    start_first_iteration(&mut h, vec![1]);
    h.log(0x40);
    assert_eq!(h.coverage.prev_loc, 2);
    h.on_magic(2);
    h.on_simulation_stopped().unwrap();
    h.on_message(FuzzerEvent::Reset).unwrap();
    assert_eq!(h.coverage.prev_loc, 0);
    assert_eq!(h.coverage.map.read_byte(4), Ok(5));
}

#[test]
fn repeated_cycles_give_same_coverage_updates() {
    let pcs = [0x100u64, 0x40, 0x1234, 0x40, 0xfeed];
    let mut h = harness(vec![]);
    start_first_iteration(&mut h, vec![1]);
    let mut runs = Vec::new();
    for _ in 0..2 {
        h.on_magic(2);
        h.on_simulation_stopped().unwrap();
        h.on_message(FuzzerEvent::Reset).unwrap();
        let w = writes(h.on_message(FuzzerEvent::Run(vec![5; 12])).unwrap());
        let idx: Vec<usize> = pcs.iter().map(|pc| h.log(*pc)).collect();
        runs.push((w, idx));
    }
    assert_eq!(runs[0], runs[1]);
}

#[test]
fn signal_start_resumes() {
    let h = harness(vec![]);
    assert!(matches!(h.handle_signal(Signal::Start), Action::Resume));
}

#[test]
fn bootstrap_expects_initialize_first() {
    let cfg = InputConfig::default().with_fault(Fault::Triple);
    let got = expect_initialize(FuzzerEvent::Initialize(cfg)).unwrap();
    assert_eq!(got.faults, vec![Fault::Triple]);
    assert!(matches!(expect_initialize(FuzzerEvent::Reset), Err(HarnessError::Protocol)));
    assert!(matches!(expect_initialize(FuzzerEvent::Run(vec![])), Err(HarnessError::Protocol)));
}

#[test]
fn hooks_follow_configured_faults() {
    let only_triple = InputConfig::default().with_fault(Fault::Triple);
    assert!(needs_triple_hook(&only_triple));
    assert!(!needs_exception_hook(&only_triple));
    let both = only_triple.with_fault(Fault::Exception(13));
    assert!(needs_triple_hook(&both));
    assert!(needs_exception_hook(&both));
    let none = InputConfig::default();
    assert!(!needs_triple_hook(&none));
    assert!(!needs_exception_hook(&none));
}

#[test]
fn output_config_exports_coverage_map() {
    let h = ShmHandle { id: 3, len: 65536 };
    let mut out = output_config(h);
    assert_eq!(out.maps.len(), 1);
    assert!(matches!(out.maps[0], MapType::Coverage(x) if x == h));
    assert_eq!(out.coverage(), Some(h));
    assert_eq!(out.coverage(), None);
}
