use confuse_module::config::{trace_mode_from_lower, Fault, InputConfig, MapType, OutputConfig, ShmHandle, TraceMode};
use confuse_module::message::{
    decode_fuzzer_event, decode_simics_event, encode_fuzzer_event, encode_simics_event, FuzzerEvent,
    SimicsEvent, StopType,
};
use confuse_module::project::{PathError, ProjectPath, SimicsPath, SimicsPathMarker};

fn comps(parts: &[&str]) -> Vec<String> {
    parts.iter().map(|s| s.to_string()).collect()
}

#[test]
fn trace_mode_names() {
    assert_eq!(TraceMode::Once.to_string(), "once");
    assert_eq!(TraceMode::HitCount.to_string(), "hit_count");
}

#[test]
fn trace_mode_parsing_ignores_case() {
    assert_eq!(TraceMode::from_str("ONCE"), Some(TraceMode::Once));
    assert_eq!(TraceMode::from_str("Hit_Count"), Some(TraceMode::HitCount));
    assert_eq!(TraceMode::from_str("HITCOUNT"), Some(TraceMode::HitCount));
    assert_eq!(TraceMode::from_str("twice"), None);
    assert_eq!(trace_mode_from_lower(&"hitcount".to_string()), Some(TraceMode::HitCount));
    assert_eq!(trace_mode_from_lower(&"ONCE".to_string()), None);
}

#[test]
fn input_config_defaults_and_builders() {
    let c = InputConfig::default();
    assert!(c.faults.is_empty());
    assert_eq!(c.timeout_micros, u64::MAX);
    assert_eq!(c.trace_mode, TraceMode::HitCount);
    let c = c
        .with_fault(Fault::Triple)
        .with_fault(Fault::Triple)
        .with_faults(vec![Fault::Exception(14), Fault::Triple, Fault::Exception(14), Fault::Exception(6)])
        .with_trace_mode(TraceMode::Once)
        .with_timeout_microseconds(1500);
    assert_eq!(c.faults, vec![Fault::Triple, Fault::Exception(14), Fault::Exception(6)]);
    assert!(c.is_fault(Fault::Exception(6)));
    assert!(!c.is_fault(Fault::Exception(7)));
    assert_eq!(c.trace_mode, TraceMode::Once);
    assert_eq!(c.timeout_micros, 1500);
}

#[test]
fn output_config_maps() {
    let a = ShmHandle { id: 1, len: 8 };
    let b = ShmHandle { id: 2, len: 16 };
    let mut o = OutputConfig::default()
        .with_map(MapType::Coverage(a))
        .with_maps(vec![MapType::Coverage(b)]);
    assert_eq!(o.maps, vec![MapType::Coverage(a), MapType::Coverage(b)]);
    assert_eq!(o.coverage(), Some(a));
    assert_eq!(o.coverage(), Some(b));
    assert_eq!(o.coverage(), None);
}

fn fuzzer_round_trip(m: FuzzerEvent) -> FuzzerEvent {
    decode_fuzzer_event(&encode_fuzzer_event(&m)).expect("decodes")
}

#[test]
fn fuzzer_events_round_trip() {
    let cfg = InputConfig::default()
        .with_faults(vec![Fault::Triple, Fault::Exception(0xdead)])
        .with_trace_mode(TraceMode::Once)
        .with_timeout_microseconds(42);
    match fuzzer_round_trip(FuzzerEvent::Initialize(cfg.clone())) {
        FuzzerEvent::Initialize(c) => {
            assert_eq!(c.faults, cfg.faults);
            assert_eq!(c.timeout_micros, 42);
            assert_eq!(c.trace_mode, TraceMode::Once);
        }
        other => panic!("{:?}", other),
    }
    match fuzzer_round_trip(FuzzerEvent::Run(vec![1, 2, 3, 255])) {
        FuzzerEvent::Run(b) => assert_eq!(b, vec![1, 2, 3, 255]),
        other => panic!("{:?}", other),
    }
    assert!(matches!(fuzzer_round_trip(FuzzerEvent::Run(vec![])), FuzzerEvent::Run(b) if b.is_empty()));
    assert!(matches!(fuzzer_round_trip(FuzzerEvent::Reset), FuzzerEvent::Reset));
    assert!(matches!(fuzzer_round_trip(FuzzerEvent::Stop), FuzzerEvent::Stop));
}

#[test]
fn fuzzer_event_encoding_bytes() {
    assert_eq!(encode_fuzzer_event(&FuzzerEvent::Reset), vec![2]);
    assert_eq!(encode_fuzzer_event(&FuzzerEvent::Stop), vec![3]);
    assert_eq!(
        encode_fuzzer_event(&FuzzerEvent::Run(vec![9, 8])),
        vec![1, 2, 0, 0, 0, 0, 0, 0, 0, 9, 8]
    );
}

#[test]
fn malformed_fuzzer_events_are_refused() {
    assert!(decode_fuzzer_event(&[]).is_none());
    assert!(decode_fuzzer_event(&[2, 0]).is_none());
    assert!(decode_fuzzer_event(&[4]).is_none());
    assert!(decode_fuzzer_event(&[1, 3, 0, 0, 0, 0, 0, 0, 0, 9, 8]).is_none());
    // Initialize with a bad trace-mode tag.
    let mut b = encode_fuzzer_event(&FuzzerEvent::Initialize(InputConfig::default()));
    b[9] = 7;
    assert!(decode_fuzzer_event(&b).is_none());
    // Initialize whose fault count disagrees with its length.
    let mut b = encode_fuzzer_event(&FuzzerEvent::Initialize(InputConfig::default()));
    b[10] = 1;
    assert!(decode_fuzzer_event(&b).is_none());
    // A triple fault with a nonzero payload.
    let mut b = encode_fuzzer_event(&FuzzerEvent::Initialize(InputConfig::default().with_fault(Fault::Triple)));
    b[19] = 1;
    assert!(decode_fuzzer_event(&b).is_none());
}

#[test]
fn simics_events_round_trip() {
    for m in [
        SimicsEvent::SharedMem(ShmHandle { id: 0x0102_0304_0506_0708, len: 65536 }),
        SimicsEvent::Ready,
        SimicsEvent::Stopped(StopType::Normal),
        SimicsEvent::Stopped(StopType::Crash),
        SimicsEvent::Stopped(StopType::Timeout),
    ] {
        assert_eq!(decode_simics_event(&encode_simics_event(&m)), Some(m));
    }
    assert_eq!(encode_simics_event(&SimicsEvent::Stopped(StopType::Crash)), vec![2, 1]);
    assert_eq!(decode_simics_event(&[2, 3]), None);
    assert_eq!(decode_simics_event(&[1, 1]), None);
}

#[test]
fn simics_paths() {
    let p = SimicsPath::from_components(&comps(&["%simics%", "targets", "x.yml"]));
    assert_eq!(p.from, Some(SimicsPathMarker::Simics));
    assert_eq!(p.to, comps(&["targets", "x.yml"]));
    assert_eq!(
        p.canonicalize(&comps(&["/", "tmp", "proj"])),
        Ok(comps(&["/", "tmp", "proj", "targets", "x.yml"]))
    );
    let s = SimicsPath::from_components(&comps(&["%script%", "a"]));
    assert_eq!(s.from, Some(SimicsPathMarker::Script));
    assert_eq!(s.canonicalize(&comps(&["/"])), Err(PathError::ScriptRelative));
    let q = SimicsPath::from_components(&comps(&["/", "opt", "f"]));
    assert_eq!(q.from, None);
    assert_eq!(q.canonicalize(&comps(&["/", "tmp"])), Ok(comps(&["/", "opt", "f"])));
    assert_eq!(SimicsPath::simics(&comps(&["%simics%"])).to, Vec::<String>::new());
    assert_eq!(SimicsPath::script(&comps(&["m", "b"])).to, comps(&["b"]));
    assert_eq!(SimicsPath::path(&comps(&["m", "b"])).to, comps(&["m", "b"]));
    assert_eq!(SimicsPathMarker::Simics.as_string(), "%simics%");
}

#[test]
fn project_paths() {
    let p = ProjectPath::from_path(comps(&["/", "p"]));
    assert!(!p.temporary);
    let t = ProjectPath::temporary(comps(&["/", "tmp", "project1"]));
    assert!(t.temporary);
    assert_eq!(t.path, comps(&["/", "tmp", "project1"]));
}
