//! The coordinator: the state machine between the fuzzer and the simulator.
//!
//! Each handler takes one event, updates the state, and returns the action that the host
//! performs next; the host reports the outcome of that action as the next event.
use crate::config::{Fault, InputConfig};
use crate::coverage::{edge_cur, CoverageMap, EdgeCoverage};
use crate::error::HarnessError;
use crate::inject::{plan_input_writes, plan_spec, PhysWrite, SizePolicy};
use crate::message::{FuzzerEvent, SimicsEvent, StopType};
use vstd::prelude::*;

verus! {

/// The two magic-instruction markers of the guest.
#[derive(Debug, Clone, Copy, PartialEq, Eq, Structural)]
pub enum Magic {
    /// Magic number 1: the input buffer is in `rsi`, its capacity in `rdi`.
    Start,
    /// Magic number 2: the iteration ended normally.
    Stop,
}

/// Why the simulation stopped.
#[derive(Debug, Clone, Copy, PartialEq, Eq, Structural)]
pub enum StopReason {
    Magic(Magic),
    Crash,
    Timeout,
}

/// A value written to the harness's `signal` attribute.
#[derive(Debug, Clone, Copy, PartialEq, Eq, Structural)]
pub enum Signal {
    Start,
}

/// Where the coordinator stands.
#[derive(Debug, Clone, Copy, PartialEq, Eq, Structural)]
pub enum Phase {
    /// Waiting for the guest's first start marker.
    WaitStart,
    /// The snapshot is being taken; the buffer registers are to be read.
    Snapshotting,
    /// `Ready` was sent; a `Run` is awaited.
    AwaitRun,
    /// The guest runs an input.
    Running,
    /// `Stopped` was sent; a `Reset` or a `Stop` is awaited.
    AwaitVerdict,
    /// Shut down cleanly.
    Done,
}

/// What the host does next.
#[derive(Debug, Clone)]
pub enum Action {
    /// Nothing.
    Nothing,
    /// Resume the simulation.
    Resume,
    /// Save the snapshot `origin` (user, persistent), read registers `rsi` and `rdi`, and hand
    /// them to `buffer_found`.
    SaveSnapshot,
    /// Send the message, receive the next one and hand it to `on_message`.
    SendAndReceive(SimicsEvent),
    /// Restore the snapshot, discard future events, send `Ready`, receive the next message and
    /// hand it to `on_message`.
    RestoreAndReady,
    /// Perform the writes in order, then resume the simulation.
    WriteAndResume(Vec<PhysWrite>),
    /// Leave the loop without restoring.
    Shutdown,
}

/// A pending reason after an event offers `r`: the first one stays.
pub open spec fn offer(pending: Option<StopReason>, r: StopReason) -> Option<StopReason> {
    if pending is None {
        Some(r)
    } else {
        pending
    }
}

/// The kind of stop that a reason reports to the fuzzer, if it ends an iteration.
pub open spec fn stop_kind(r: StopReason) -> Option<StopType> {
    match r {
        StopReason::Magic(Magic::Start) => None,
        StopReason::Magic(Magic::Stop) => Some(StopType::Normal),
        StopReason::Crash => Some(StopType::Crash),
        StopReason::Timeout => Some(StopType::Timeout),
    }
}

/// The map indices that the program counters `pcs` update, from previous location `prev`.
pub open spec fn edge_indices(prev: u64, mask: u64, pcs: Seq<u64>) -> Seq<u64>
    decreases pcs.len(),
{
    if pcs.len() == 0 {
        Seq::empty()
    } else {
        let cur = edge_cur(pcs[0], mask);
        seq![cur ^ prev] + edge_indices(cur >> 1u64, mask, pcs.drop_first())
    }
}

/// The state of the coordinator.
pub struct Harness {
    pub phase: Phase,
    pub config: InputConfig,
    pub policy: SizePolicy,
    pub coverage: EdgeCoverage,
    pub stop_reason: Option<StopReason>,
    pub initialized: bool,
    pub buffer_address: u64,
    pub buffer_size: u64,
    /// `Ready` messages sent so far.
    pub ready_sent: Ghost<nat>,
    /// `Run` messages accepted so far.
    pub runs_accepted: Ghost<nat>,
    /// `Stopped` messages sent so far.
    pub stopped_sent: Ghost<nat>,
    /// `Reset` and `Stop` messages accepted so far.
    pub verdicts: Ghost<nat>,
    /// Snapshots saved so far.
    pub snapshots: Ghost<nat>,
    /// Snapshot restores so far.
    pub restores: Ghost<nat>,
}

impl Harness {
    pub open spec fn wf(&self) -> bool {
        &&& self.coverage.wf()
        &&& self.snapshots@ <= 1
        &&& self.initialized <==> self.snapshots@ == 1
        &&& self.phase == Phase::WaitStart <==> !self.initialized
        &&& self.restores@ > 0 ==> self.snapshots@ == 1
        &&& self.ready_sent@ == self.runs_accepted@ + if self.phase == Phase::AwaitRun {
            1nat
        } else {
            0nat
        }
        &&& self.stopped_sent@ == self.verdicts@ + if self.phase == Phase::AwaitVerdict {
            1nat
        } else {
            0nat
        }
    }

    /// What no handler but `buffer_found` changes.
    pub open spec fn same_setup(&self, other: &Harness) -> bool {
        &&& self.config == other.config
        &&& self.policy == other.policy
        &&& self.buffer_address == other.buffer_address
        &&& self.buffer_size == other.buffer_size
    }

    /// The message and snapshot counters are those of `other`.
    pub open spec fn same_counts(&self, other: &Harness) -> bool {
        &&& self.ready_sent == other.ready_sent
        &&& self.runs_accepted == other.runs_accepted
        &&& self.stopped_sent == other.stopped_sent
        &&& self.verdicts == other.verdicts
        &&& self.snapshots == other.snapshots
        &&& self.restores == other.restores
    }

    /// Everything but the pending stop reason is that of `other`.
    pub open spec fn same_but_reason(&self, other: &Harness) -> bool {
        &&& self.phase == other.phase
        &&& self.coverage == other.coverage
        &&& self.initialized == other.initialized
        &&& self.same_setup(other)
        &&& self.same_counts(other)
    }

    /// A coordinator after start-up, waiting for the guest's start marker.
    pub fn new(config: InputConfig, policy: SizePolicy, map: CoverageMap) -> (r: Harness)
        requires
            map.wf(),
        ensures
            r.wf(),
            r.phase == Phase::WaitStart,
            r.config == config,
            r.policy == policy,
            r.coverage.map@ == map@,
            r.coverage.prev_loc == 0,
            r.stop_reason is None,
            r.ready_sent@ == 0 && r.runs_accepted@ == 0 && r.stopped_sent@ == 0,
            r.verdicts@ == 0 && r.snapshots@ == 0 && r.restores@ == 0,
    {
        Harness {
            phase: Phase::WaitStart,
            config,
            policy,
            coverage: EdgeCoverage::new(map),
            stop_reason: None,
            initialized: false,
            buffer_address: 0,
            buffer_size: 0,
            ready_sent: Ghost(0),
            runs_accepted: Ghost(0),
            stopped_sent: Ghost(0),
            verdicts: Ghost(0),
            snapshots: Ghost(0),
            restores: Ghost(0),
        }
    }

    /// Records a stop reason unless one is pending; says whether it was recorded, in which case
    /// the host asks the simulator to stop.
    pub fn set_stopped_reason(&mut self, reason: StopReason) -> (r: bool)
        ensures
            r == (old(self).stop_reason is None),
            final(self).stop_reason == offer(old(self).stop_reason, reason),
            final(self).same_but_reason(old(self)),
            old(self).wf() ==> final(self).wf(),
    {
        if self.stop_reason.is_none() {
            self.stop_reason = Some(reason);
            true
        } else {
            false
        }
    }
}

impl Harness {
    /// The magic-instruction hook: number 1 offers `Magic::Start`, number 2 `Magic::Stop`, and
    /// any other number is ignored. Says whether a reason was recorded.
    pub fn on_magic(&mut self, magic: u64) -> (r: bool)
        requires
            old(self).wf(),
        ensures
            final(self).wf(),
            final(self).same_but_reason(old(self)),
            magic == 1 ==> final(self).stop_reason == offer(
                old(self).stop_reason,
                StopReason::Magic(Magic::Start),
            ),
            magic == 2 ==> final(self).stop_reason == offer(
                old(self).stop_reason,
                StopReason::Magic(Magic::Stop),
            ),
            magic != 1 && magic != 2 ==> final(self).stop_reason == old(self).stop_reason,
            r == ((magic == 1 || magic == 2) && old(self).stop_reason is None),
    {
        if magic == 1 {
            self.set_stopped_reason(StopReason::Magic(Magic::Start))
        } else if magic == 2 {
            self.set_stopped_reason(StopReason::Magic(Magic::Stop))
        } else {
            false
        }
    }

    /// The core-exception hook: an exception listed among the faults offers `Crash`.
    pub fn on_core_exception(&mut self, exception: u64) -> (r: bool)
        requires
            old(self).wf(),
        ensures
            final(self).wf(),
            final(self).same_but_reason(old(self)),
            final(self).stop_reason == if old(self).config.faults@.contains(
                Fault::Exception(exception),
            ) {
                offer(old(self).stop_reason, StopReason::Crash)
            } else {
                old(self).stop_reason
            },
            r == (old(self).config.faults@.contains(Fault::Exception(exception))
                && old(self).stop_reason is None),
    {
        if self.is_fault(Fault::Exception(exception)) {
            self.set_stopped_reason(StopReason::Crash)
        } else {
            false
        }
    }

    /// The triple-fault hook: offers `Crash` where the triple fault is listed among the faults.
    pub fn on_triple_fault(&mut self) -> (r: bool)
        requires
            old(self).wf(),
        ensures
            final(self).wf(),
            final(self).same_but_reason(old(self)),
            final(self).stop_reason == if old(self).config.faults@.contains(Fault::Triple) {
                offer(old(self).stop_reason, StopReason::Crash)
            } else {
                old(self).stop_reason
            },
            r == (old(self).config.faults@.contains(Fault::Triple) && old(self).stop_reason is None),
    {
        if self.is_fault(Fault::Triple) {
            self.set_stopped_reason(StopReason::Crash)
        } else {
            false
        }
    }

    /// The fuzzer's watchdog fired: offers `Timeout`.
    pub fn on_timeout(&mut self) -> (r: bool)
        requires
            old(self).wf(),
        ensures
            final(self).wf(),
            final(self).same_but_reason(old(self)),
            final(self).stop_reason == offer(old(self).stop_reason, StopReason::Timeout),
            r == (old(self).stop_reason is None),
    {
        self.set_stopped_reason(StopReason::Timeout)
    }

    /// Whether `fault` counts as a crash in this campaign.
    pub fn is_fault(&self, fault: Fault) -> (r: bool)
        ensures
            r == self.config.faults@.contains(fault),
    {
        self.config.is_fault(fault)
    }

    /// A write of the `signal` attribute: `Start` resumes the simulation.
    pub fn handle_signal(&self, signal: Signal) -> (r: Action)
        ensures
            r == Action::Resume,
    {
        match signal {
            Signal::Start => Action::Resume,
        }
    }

    /// Records the branch at `pc` in the coverage map, by the configured trace mode.
    pub fn log(&mut self, pc: u64) -> (idx: usize)
        requires
            old(self).wf(),
        ensures
            final(self).wf(),
            idx == old(self).coverage.next_index(pc),
            idx < old(self).coverage.map@.len(),
            final(self).coverage.map@ == old(self).coverage.map@.update(
                idx as int,
                crate::coverage::hit(old(self).coverage.map@[idx as int], old(self).config.trace_mode),
            ),
            final(self).coverage.prev_loc == edge_cur(pc, old(self).coverage.mask()) >> 1u64,
            final(self).phase == old(self).phase,
            final(self).stop_reason == old(self).stop_reason,
            final(self).initialized == old(self).initialized,
            final(self).same_setup(old(self)),
            final(self).same_counts(old(self)),
    {
        let mode = self.config.trace_mode;
        self.coverage.log(pc, mode)
    }
}

impl Harness {
    /// The simulation stopped: consumes the pending reason and decides what comes next. A
    /// first start marker takes the snapshot; a later one resumes; a stop marker, a crash or a
    /// timeout while an input runs reports the stop to the fuzzer. A reason in any other phase
    /// is a `Protocol` error. The pending reason is cleared in every case.
    pub fn on_simulation_stopped(&mut self) -> (r: Result<Action, HarnessError>)
        requires
            old(self).wf(),
        ensures
            final(self).wf(),
            final(self).stop_reason is None,
            final(self).coverage == old(self).coverage,
            final(self).same_setup(old(self)),
            match old(self).stop_reason {
                None => r == Ok::<Action, HarnessError>(Action::Nothing) && final(self).phase
                    == old(self).phase && final(self).same_counts(old(self)),
                Some(reason) => if old(self).phase == Phase::WaitStart && reason == StopReason::Magic(
                    Magic::Start,
                ) {
                    &&& r == Ok::<Action, HarnessError>(Action::SaveSnapshot)
                    &&& final(self).phase == Phase::Snapshotting
                    &&& final(self).initialized
                    &&& final(self).snapshots@ == old(self).snapshots@ + 1
                    &&& final(self).ready_sent == old(self).ready_sent
                    &&& final(self).runs_accepted == old(self).runs_accepted
                    &&& final(self).stopped_sent == old(self).stopped_sent
                    &&& final(self).verdicts == old(self).verdicts
                    &&& final(self).restores == old(self).restores
                } else if old(self).phase == Phase::Running && reason == StopReason::Magic(
                    Magic::Start,
                ) {
                    &&& r == Ok::<Action, HarnessError>(Action::Resume)
                    &&& final(self).phase == Phase::Running
                    &&& final(self).same_counts(old(self))
                } else if old(self).phase == Phase::Running {
                    &&& r == Ok::<Action, HarnessError>(
                        Action::SendAndReceive(SimicsEvent::Stopped(stop_kind(reason)->Some_0)),
                    )
                    &&& final(self).phase == Phase::AwaitVerdict
                    &&& final(self).stopped_sent@ == old(self).stopped_sent@ + 1
                    &&& final(self).ready_sent == old(self).ready_sent
                    &&& final(self).runs_accepted == old(self).runs_accepted
                    &&& final(self).verdicts == old(self).verdicts
                    &&& final(self).snapshots == old(self).snapshots
                    &&& final(self).restores == old(self).restores
                } else {
                    &&& r == Err::<Action, HarnessError>(HarnessError::Protocol)
                    &&& final(self).phase == old(self).phase
                    &&& final(self).same_counts(old(self))
                },
            },
    {
        let reason = self.stop_reason;
        self.stop_reason = None;
        match reason {
            None => Ok(Action::Nothing),
            Some(StopReason::Magic(Magic::Start)) => match self.phase {
                Phase::WaitStart => {
                    self.phase = Phase::Snapshotting;
                    self.initialized = true;
                    self.snapshots = Ghost(self.snapshots@ + 1);
                    Ok(Action::SaveSnapshot)
                },
                Phase::Running => Ok(Action::Resume),
                _ => Err(HarnessError::Protocol),
            },
            Some(reason) => match self.phase {
                Phase::Running => {
                    let kind = match reason {
                        StopReason::Crash => StopType::Crash,
                        StopReason::Timeout => StopType::Timeout,
                        _ => StopType::Normal,
                    };
                    self.phase = Phase::AwaitVerdict;
                    self.stopped_sent = Ghost(self.stopped_sent@ + 1);
                    Ok(Action::SendAndReceive(SimicsEvent::Stopped(kind)))
                },
                _ => Err(HarnessError::Protocol),
            },
        }
    }

    /// The snapshot is taken and the guest's registers read: `rsi` holds the input buffer's
    /// physical address, `rdi` its capacity. Records them and sends `Ready`. Outside the
    /// snapshot phase this is a `Protocol` error and nothing changes.
    pub fn buffer_found(&mut self, rsi: u64, rdi: u64) -> (r: Result<Action, HarnessError>)
        requires
            old(self).wf(),
        ensures
            final(self).wf(),
            final(self).coverage == old(self).coverage,
            final(self).stop_reason == old(self).stop_reason,
            final(self).config == old(self).config,
            final(self).policy == old(self).policy,
            old(self).phase == Phase::Snapshotting ==> {
                &&& r == Ok::<Action, HarnessError>(Action::SendAndReceive(SimicsEvent::Ready))
                &&& final(self).phase == Phase::AwaitRun
                &&& final(self).buffer_address == rsi
                &&& final(self).buffer_size == rdi
                &&& final(self).ready_sent@ == old(self).ready_sent@ + 1
                &&& final(self).stopped_sent@ == final(self).verdicts@
                &&& final(self).runs_accepted == old(self).runs_accepted
                &&& final(self).snapshots == old(self).snapshots
                &&& final(self).restores == old(self).restores
            },
            old(self).phase != Phase::Snapshotting ==> {
                &&& r == Err::<Action, HarnessError>(HarnessError::Protocol)
                &&& *final(self) == *old(self)
            },
    {
        match self.phase {
            Phase::Snapshotting => {
                self.buffer_address = rsi;
                self.buffer_size = rdi;
                self.phase = Phase::AwaitRun;
                self.ready_sent = Ghost(self.ready_sent@ + 1);
                Ok(Action::SendAndReceive(SimicsEvent::Ready))
            },
            _ => Err(HarnessError::Protocol),
        }
    }

    /// A message from the fuzzer. While a `Run` is awaited, `Run(input)` is written into the
    /// guest buffer and the simulation resumes. While a verdict is awaited, `Reset` restores the
    /// snapshot, clears the previous location and sends `Ready`, and `Stop` shuts down. Any
    /// other message is a `Protocol` error; an input that the size policy refuses is an
    /// `OutOfRange` error. On an error nothing changes.
    pub fn on_message(&mut self, msg: FuzzerEvent) -> (r: Result<Action, HarnessError>)
        requires
            old(self).wf(),
        ensures
            final(self).wf(),
            final(self).stop_reason == old(self).stop_reason,
            final(self).same_setup(old(self)),
            final(self).coverage.map@ == old(self).coverage.map@,
            r is Err ==> *final(self) == *old(self),
            old(self).phase == Phase::AwaitRun ==> match msg {
                FuzzerEvent::Run(input) => match plan_spec(
                    input@,
                    old(self).buffer_address,
                    old(self).buffer_size,
                    old(self).policy,
                ) {
                    Ok(w) => {
                        &&& r matches Ok(Action::WriteAndResume(v)) && v@ == w
                        &&& final(self).phase == Phase::Running
                        &&& final(self).runs_accepted@ == old(self).runs_accepted@ + 1
                        &&& final(self).coverage == old(self).coverage
                        &&& final(self).ready_sent == old(self).ready_sent
                        &&& final(self).stopped_sent == old(self).stopped_sent
                        &&& final(self).verdicts == old(self).verdicts
                        &&& final(self).snapshots == old(self).snapshots
                        &&& final(self).restores == old(self).restores
                    },
                    Err(e) => r == Err::<Action, HarnessError>(e),
                },
                _ => r == Err::<Action, HarnessError>(HarnessError::Protocol),
            },
            old(self).phase == Phase::AwaitVerdict ==> match msg {
                FuzzerEvent::Reset => {
                    &&& r == Ok::<Action, HarnessError>(Action::RestoreAndReady)
                    &&& old(self).snapshots@ == 1
                    &&& final(self).phase == Phase::AwaitRun
                    &&& final(self).coverage.prev_loc == 0
                    &&& final(self).restores@ == old(self).restores@ + 1
                    &&& final(self).verdicts@ == old(self).verdicts@ + 1
                    &&& final(self).ready_sent@ == old(self).ready_sent@ + 1
                    &&& final(self).stopped_sent@ == final(self).verdicts@
                    &&& final(self).runs_accepted == old(self).runs_accepted
                    &&& final(self).snapshots == old(self).snapshots
                },
                FuzzerEvent::Stop => {
                    &&& r == Ok::<Action, HarnessError>(Action::Shutdown)
                    &&& final(self).phase == Phase::Done
                    &&& final(self).coverage == old(self).coverage
                    &&& final(self).verdicts@ == old(self).verdicts@ + 1
                    &&& final(self).stopped_sent@ == final(self).verdicts@
                    &&& final(self).ready_sent == old(self).ready_sent
                    &&& final(self).runs_accepted == old(self).runs_accepted
                    &&& final(self).snapshots == old(self).snapshots
                    &&& final(self).restores == old(self).restores
                },
                _ => r == Err::<Action, HarnessError>(HarnessError::Protocol),
            },
            old(self).phase != Phase::AwaitRun && old(self).phase != Phase::AwaitVerdict ==> r
                == Err::<Action, HarnessError>(HarnessError::Protocol),
    {
        match self.phase {
            Phase::AwaitRun => match msg {
                FuzzerEvent::Run(input) => {
                    match plan_input_writes(
                        input.as_slice(),
                        self.buffer_address,
                        self.buffer_size,
                        self.policy,
                    ) {
                        Ok(w) => {
                            self.phase = Phase::Running;
                            self.runs_accepted = Ghost(self.runs_accepted@ + 1);
                            Ok(Action::WriteAndResume(w))
                        },
                        Err(e) => Err(e),
                    }
                },
                _ => Err(HarnessError::Protocol),
            },
            Phase::AwaitVerdict => match msg {
                FuzzerEvent::Reset => {
                    self.coverage.clear_prev();
                    self.phase = Phase::AwaitRun;
                    self.restores = Ghost(self.restores@ + 1);
                    self.verdicts = Ghost(self.verdicts@ + 1);
                    self.ready_sent = Ghost(self.ready_sent@ + 1);
                    Ok(Action::RestoreAndReady)
                },
                FuzzerEvent::Stop => {
                    self.phase = Phase::Done;
                    self.verdicts = Ghost(self.verdicts@ + 1);
                    Ok(Action::Shutdown)
                },
                _ => Err(HarnessError::Protocol),
            },
            _ => Err(HarnessError::Protocol),
        }
    }
}

/// Every `Ready` sent is matched by one accepted `Run`, except the latest one while its `Run`
/// is still awaited.
pub proof fn lemma_ready_matches_run(h: &Harness)
    requires
        h.wf(),
    ensures
        h.phase != Phase::AwaitRun ==> h.ready_sent@ == h.runs_accepted@,
        h.phase == Phase::AwaitRun ==> h.ready_sent@ == h.runs_accepted@ + 1,
{
}

/// Every `Stopped` sent is answered by one accepted `Reset` or `Stop` before the next `Ready`:
/// while a `Run` is awaited, the two counts agree.
pub proof fn lemma_stopped_answered_before_ready(h: &Harness)
    requires
        h.wf(),
    ensures
        h.phase == Phase::AwaitRun ==> h.stopped_sent@ == h.verdicts@,
        h.phase == Phase::AwaitVerdict ==> h.stopped_sent@ == h.verdicts@ + 1,
        h.stopped_sent@ >= h.verdicts@,
{
}

/// The snapshot is saved at most once, and restored only once it has been saved.
pub proof fn lemma_snapshot_discipline(h: &Harness)
    requires
        h.wf(),
    ensures
        h.snapshots@ <= 1,
        h.restores@ > 0 ==> h.snapshots@ == 1,
        h.initialized <==> h.snapshots@ == 1,
{
}

/// Two coordinators with the same buffer, size policy and map length, both just after a
/// `Reset` (previous location cleared), make the same writes for the same input, and the same
/// program counters then update the same sequence of map indices.
pub proof fn lemma_reset_run_deterministic(a: &Harness, b: &Harness, input: Seq<u8>, pcs: Seq<u64>)
    requires
        a.wf(),
        b.wf(),
        a.coverage.prev_loc == 0,
        b.coverage.prev_loc == 0,
        a.coverage.map@.len() == b.coverage.map@.len(),
        a.buffer_address == b.buffer_address,
        a.buffer_size == b.buffer_size,
        a.policy == b.policy,
    ensures
        plan_spec(input, a.buffer_address, a.buffer_size, a.policy) == plan_spec(
            input,
            b.buffer_address,
            b.buffer_size,
            b.policy,
        ),
        edge_indices(a.coverage.prev_loc, a.coverage.mask(), pcs) == edge_indices(
            b.coverage.prev_loc,
            b.coverage.mask(),
            pcs,
        ),
        pcs.len() > 0 ==> edge_indices(a.coverage.prev_loc, a.coverage.mask(), pcs)[0]
            == a.coverage.next_index(pcs[0]),
{
}

} // verus!
