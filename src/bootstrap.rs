//! The one-shot rendezvous with the fuzzer.
use crate::config::{Fault, InputConfig, MapType, OutputConfig, ShmHandle};
use crate::error::HarnessError;
use crate::message::FuzzerEvent;
use vstd::prelude::*;

verus! {

/// The first message from the fuzzer must be `Initialize`; its configuration is returned.
/// Any other first message is a `Protocol` error.
pub fn expect_initialize(first: FuzzerEvent) -> (r: Result<InputConfig, HarnessError>)
    ensures
        match first {
            FuzzerEvent::Initialize(c) => r == Ok::<InputConfig, HarnessError>(c),
            _ => r == Err::<InputConfig, HarnessError>(HarnessError::Protocol),
        },
{
    match first {
        FuzzerEvent::Initialize(c) => Ok(c),
        _ => Err(HarnessError::Protocol),
    }
}

/// Whether the triple-fault hook is needed: the triple fault counts as a crash.
pub fn needs_triple_hook(config: &InputConfig) -> (r: bool)
    ensures
        r == config.faults@.contains(Fault::Triple),
{
    config.is_fault(Fault::Triple)
}

/// Whether the core-exception hook is needed: some fault other than the triple fault counts
/// as a crash.
pub fn needs_exception_hook(config: &InputConfig) -> (r: bool)
    ensures
        r == exists|i: int| 0 <= i < config.faults@.len() && config.faults@[i] != Fault::Triple,
{
    let mut i: usize = 0;
    while i < config.faults.len()
        invariant
            i <= config.faults@.len(),
            forall|k: int| 0 <= k < i ==> config.faults@[k] == Fault::Triple,
        decreases config.faults@.len() - i,
    {
        match config.faults[i] {
            Fault::Triple => {},
            Fault::Exception(_) => {
                return true;
            },
        }
        i = i + 1;
    }
    false
}

/// The configuration reported back to the fuzzer: the coverage map alone.
pub fn output_config(coverage: ShmHandle) -> (r: OutputConfig)
    ensures
        r.maps@ == seq![MapType::Coverage(coverage)],
{
    let r = OutputConfig::default().with_map(MapType::Coverage(coverage));
    proof {
        assert(r.maps@ =~= seq![MapType::Coverage(coverage)]);
    }
    r
}

} // verus!
