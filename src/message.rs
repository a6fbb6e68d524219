//! Messages between the harness and the fuzzer, and their byte encoding.
//!
//! Every message starts with a tag byte. Integers are 8 bytes little-endian; a byte string or
//! a list carries its length first.
use crate::bytes::{
    le_bytes, le_value, lemma_u64_round_trip, push_u64_le, read_u64_le,
};
use crate::config::{Fault, InputConfig, ShmHandle, TraceMode};
use vstd::arithmetic::div_mod::{
    lemma_div_multiples_vanish_fancy, lemma_fundamental_div_mod, lemma_mod_multiples_vanish,
    lemma_small_mod,
};
use vstd::prelude::*;

verus! {

/// How an iteration ended.
#[derive(Debug, Clone, Copy, PartialEq, Eq, Structural)]
pub enum StopType {
    Normal,
    Crash,
    Timeout,
}

/// A message from the harness to the fuzzer.
#[derive(Debug, Clone, Copy, PartialEq, Eq, Structural)]
pub enum SimicsEvent {
    /// The coverage map, sent once after start-up.
    SharedMem(ShmHandle),
    /// The harness waits for an input.
    Ready,
    /// The iteration ended.
    Stopped(StopType),
}

/// A message from the fuzzer to the harness.
#[derive(Debug, Clone)]
pub enum FuzzerEvent {
    /// The campaign's configuration, the first message.
    Initialize(InputConfig),
    /// The next input.
    Run(Vec<u8>),
    /// Restore the snapshot and get ready for the next input.
    Reset,
    /// Shut down cleanly.
    Stop,
}

/// The mathematical value of a `FuzzerEvent`.
pub enum FuzzerEventModel {
    Initialize { faults: Seq<Fault>, timeout_micros: u64, trace_mode: TraceMode },
    Run(Seq<u8>),
    Reset,
    Stop,
}

impl FuzzerEvent {
    pub open spec fn view(&self) -> FuzzerEventModel {
        match self {
            FuzzerEvent::Initialize(c) => FuzzerEventModel::Initialize {
                faults: c.faults@,
                timeout_micros: c.timeout_micros,
                trace_mode: c.trace_mode,
            },
            FuzzerEvent::Run(b) => FuzzerEventModel::Run(b@),
            FuzzerEvent::Reset => FuzzerEventModel::Reset,
            FuzzerEvent::Stop => FuzzerEventModel::Stop,
        }
    }
}

pub open spec fn mode_tag(m: TraceMode) -> u8 {
    match m {
        TraceMode::Once => 0,
        TraceMode::HitCount => 1,
    }
}

pub open spec fn dec_mode(t: u8) -> Option<TraceMode> {
    if t == 0 {
        Some(TraceMode::Once)
    } else if t == 1 {
        Some(TraceMode::HitCount)
    } else {
        None
    }
}

pub open spec fn stop_tag(k: StopType) -> u8 {
    match k {
        StopType::Normal => 0,
        StopType::Crash => 1,
        StopType::Timeout => 2,
    }
}

pub open spec fn dec_stop(t: u8) -> Option<StopType> {
    if t == 0 {
        Some(StopType::Normal)
    } else if t == 1 {
        Some(StopType::Crash)
    } else if t == 2 {
        Some(StopType::Timeout)
    } else {
        None
    }
}

/// The nine bytes of a fault: a tag, then the exception number (zero for a triple fault).
pub open spec fn enc_fault(f: Fault) -> Seq<u8> {
    match f {
        Fault::Triple => seq![0u8] + le_bytes(0, 8),
        Fault::Exception(n) => seq![1u8] + le_bytes(n as nat, 8),
    }
}

pub open spec fn dec_fault(x: Seq<u8>) -> Option<Fault> {
    if x.len() != 9 {
        None
    } else if x[0] == 0 && le_value(x.subrange(1, 9)) == 0 {
        Some(Fault::Triple)
    } else if x[0] == 1 {
        Some(Fault::Exception(le_value(x.subrange(1, 9)) as u64))
    } else {
        None
    }
}

/// The faults one after the other, nine bytes each.
pub open spec fn enc_faults(fs: Seq<Fault>) -> Seq<u8> {
    Seq::new(9 * fs.len(), |j: int| enc_fault(fs[j / 9])[j % 9])
}

/// The `i`-th nine-byte record of `b`.
pub open spec fn record9(b: Seq<u8>, i: int) -> Seq<u8> {
    b.subrange(9 * i, 9 * i + 9)
}

pub open spec fn dec_faults(b: Seq<u8>, c: nat) -> Option<Seq<Fault>> {
    if b.len() == 9 * c && forall|i: int| 0 <= i < c ==> (#[trigger] dec_fault(record9(b, i))) is Some {
        Some(Seq::new(c, |i: int| dec_fault(record9(b, i))->Some_0))
    } else {
        None
    }
}

/// The bytes of a message to the harness.
pub open spec fn enc_fuzzer(m: FuzzerEventModel) -> Seq<u8> {
    match m {
        FuzzerEventModel::Initialize { faults, timeout_micros, trace_mode } => seq![0u8]
            + le_bytes(timeout_micros as nat, 8) + seq![mode_tag(trace_mode)] + le_bytes(
            faults.len(),
            8,
        ) + enc_faults(faults),
        FuzzerEventModel::Run(b) => seq![1u8] + le_bytes(b.len(), 8) + b,
        FuzzerEventModel::Reset => seq![2u8],
        FuzzerEventModel::Stop => seq![3u8],
    }
}

/// The message to the harness that `b` encodes, if any.
pub open spec fn dec_fuzzer(b: Seq<u8>) -> Option<FuzzerEventModel> {
    if b.len() == 0 {
        None
    } else if b[0] == 0 {
        if b.len() < 18 {
            None
        } else {
            let t = le_value(b.subrange(1, 9));
            let c = le_value(b.subrange(10, 18));
            match (dec_mode(b[9]), dec_faults(b.subrange(18, b.len() as int), c)) {
                (Some(mode), Some(fs)) => Some(
                    FuzzerEventModel::Initialize { faults: fs, timeout_micros: t as u64, trace_mode: mode },
                ),
                _ => None,
            }
        }
    } else if b[0] == 1 {
        if b.len() >= 9 && le_value(b.subrange(1, 9)) == b.len() - 9 {
            Some(FuzzerEventModel::Run(b.subrange(9, b.len() as int)))
        } else {
            None
        }
    } else if b[0] == 2 && b.len() == 1 {
        Some(FuzzerEventModel::Reset)
    } else if b[0] == 3 && b.len() == 1 {
        Some(FuzzerEventModel::Stop)
    } else {
        None
    }
}

/// The bytes of a message to the fuzzer.
pub open spec fn enc_simics(m: SimicsEvent) -> Seq<u8> {
    match m {
        SimicsEvent::SharedMem(h) => seq![0u8] + le_bytes(h.id as nat, 8) + le_bytes(h.len as nat, 8),
        SimicsEvent::Ready => seq![1u8],
        SimicsEvent::Stopped(k) => seq![2u8, stop_tag(k)],
    }
}

/// The message to the fuzzer that `b` encodes, if any.
pub open spec fn dec_simics(b: Seq<u8>) -> Option<SimicsEvent> {
    if b.len() == 17 && b[0] == 0 {
        Some(
            SimicsEvent::SharedMem(
                ShmHandle {
                    id: le_value(b.subrange(1, 9)) as u64,
                    len: le_value(b.subrange(9, 17)) as u64,
                },
            ),
        )
    } else if b.len() == 1 && b[0] == 1 {
        Some(SimicsEvent::Ready)
    } else if b.len() == 2 && b[0] == 2 && dec_stop(b[1]) is Some {
        Some(SimicsEvent::Stopped(dec_stop(b[1])->Some_0))
    } else {
        None
    }
}

proof fn lemma_enc_fault(f: Fault)
    ensures
        enc_fault(f).len() == 9,
        dec_fault(enc_fault(f)) == Some(f),
{
    match f {
        Fault::Triple => {
            lemma_u64_round_trip(0);
            assert(enc_fault(f).subrange(1, 9) =~= le_bytes(0, 8));
        },
        Fault::Exception(n) => {
            lemma_u64_round_trip(n);
            assert(enc_fault(f).subrange(1, 9) =~= le_bytes(n as nat, 8));
        },
    }
}

proof fn lemma_div9(i: int, j: int)
    requires
        0 <= i,
        0 <= j < 9,
    ensures
        (9 * i + j) / 9 == i,
        (9 * i + j) % 9 == j,
{
    lemma_div_multiples_vanish_fancy(i, j, 9);
    lemma_mod_multiples_vanish(i, j, 9);
    lemma_small_mod(j as nat, 9);
}

proof fn lemma_record9(fs: Seq<Fault>, i: int)
    requires
        0 <= i < fs.len(),
    ensures
        record9(enc_faults(fs), i) == enc_fault(fs[i]),
{
    lemma_enc_fault(fs[i]);
    assert forall|j: int| 0 <= j < 9 implies #[trigger] record9(enc_faults(fs), i)[j] == enc_fault(
        fs[i],
    )[j] by {
        lemma_div9(i, j);
    }
    assert(record9(enc_faults(fs), i) =~= enc_fault(fs[i]));
}

/// The faults of a prefix one longer are those of the prefix followed by the next fault.
proof fn lemma_enc_faults_push(fs: Seq<Fault>, i: int)
    requires
        0 <= i < fs.len(),
    ensures
        enc_faults(fs.take(i + 1)) == enc_faults(fs.take(i)) + enc_fault(fs[i]),
{
    lemma_enc_fault(fs[i]);
    let a = enc_faults(fs.take(i + 1));
    let b = enc_faults(fs.take(i)) + enc_fault(fs[i]);
    assert forall|j: int| 0 <= j < 9 * (i + 1) implies #[trigger] a[j] == b[j] by {
        let q = j / 9;
        let r = j % 9;
        lemma_div9(q, r);
        lemma_fundamental_div_mod(j, 9);
        if j >= 9 * i {
            lemma_div9(i, j - 9 * i);
        }
    }
    assert(a =~= b);
}

/// Every message to the harness whose lengths fit in 64 bits decodes to itself.
pub proof fn lemma_fuzzer_round_trip(m: FuzzerEventModel)
    requires
        match m {
            FuzzerEventModel::Initialize { faults, .. } => faults.len() <= u64::MAX,
            FuzzerEventModel::Run(b) => b.len() <= u64::MAX,
            _ => true,
        },
    ensures
        dec_fuzzer(enc_fuzzer(m)) == Some(m),
{
    let e = enc_fuzzer(m);
    match m {
        FuzzerEventModel::Initialize { faults, timeout_micros, trace_mode } => {
            lemma_u64_round_trip(timeout_micros);
            lemma_u64_round_trip(faults.len() as u64);
            assert(e.subrange(1, 9) =~= le_bytes(timeout_micros as nat, 8));
            assert(e.subrange(10, 18) =~= le_bytes(faults.len(), 8));
            let rest = e.subrange(18, e.len() as int);
            assert(rest =~= enc_faults(faults));
            assert forall|i: int| 0 <= i < faults.len() implies #[trigger] dec_fault(record9(rest, i))
                == Some(faults[i]) by {
                lemma_record9(faults, i);
                lemma_enc_fault(faults[i]);
            }
            let d = dec_faults(rest, faults.len());
            assert(d->Some_0 =~= faults);
        },
        FuzzerEventModel::Run(b) => {
            lemma_u64_round_trip(b.len() as u64);
            assert(e.subrange(1, 9) =~= le_bytes(b.len(), 8));
            assert(e.subrange(9, e.len() as int) =~= b);
        },
        _ => {},
    }
}

/// Every message to the fuzzer decodes to itself.
pub proof fn lemma_simics_round_trip(m: SimicsEvent)
    ensures
        dec_simics(enc_simics(m)) == Some(m),
{
    let e = enc_simics(m);
    match m {
        SimicsEvent::SharedMem(h) => {
            lemma_u64_round_trip(h.id);
            lemma_u64_round_trip(h.len);
            assert(e.subrange(1, 9) =~= le_bytes(h.id as nat, 8));
            assert(e.subrange(9, 17) =~= le_bytes(h.len as nat, 8));
        },
        _ => {},
    }
}

fn push_fault(out: &mut Vec<u8>, f: Fault)
    ensures
        final(out)@ == old(out)@ + enc_fault(f),
{
    match f {
        Fault::Triple => {
            out.push(0u8);
            push_u64_le(out, 0);
        },
        Fault::Exception(n) => {
            out.push(1u8);
            push_u64_le(out, n);
        },
    }
    proof {
        assert(final(out)@ =~= old(out)@ + enc_fault(f));
    }
}

fn mode_to_tag(m: TraceMode) -> (r: u8)
    ensures
        r == mode_tag(m),
{
    match m {
        TraceMode::Once => 0,
        TraceMode::HitCount => 1,
    }
}

/// The bytes of a message to the harness.
pub fn encode_fuzzer_event(m: &FuzzerEvent) -> (r: Vec<u8>)
    ensures
        r@ == enc_fuzzer(m@),
{
    let mut out: Vec<u8> = Vec::new();
    match m {
        FuzzerEvent::Initialize(c) => {
            out.push(0u8);
            push_u64_le(&mut out, c.timeout_micros);
            out.push(mode_to_tag(c.trace_mode));
            push_u64_le(&mut out, c.faults.len() as u64);
            let ghost head = out@;
            let mut i: usize = 0;
            proof {
                assert(enc_faults(c.faults@.take(0)) =~= Seq::<u8>::empty());
                assert(out@ =~= head + enc_faults(c.faults@.take(0)));
            }
            while i < c.faults.len()
                invariant
                    i <= c.faults@.len(),
                    out@ == head + enc_faults(c.faults@.take(i as int)),
                decreases c.faults@.len() - i,
            {
                proof {
                    lemma_enc_faults_push(c.faults@, i as int);
                }
                push_fault(&mut out, c.faults[i]);
                proof {
                    assert(out@ =~= head + enc_faults(c.faults@.take(i + 1)));
                }
                i = i + 1;
            }
            proof {
                assert(c.faults@.take(i as int) =~= c.faults@);
                assert(out@ =~= enc_fuzzer(m@));
            }
        },
        FuzzerEvent::Run(b) => {
            out.push(1u8);
            push_u64_le(&mut out, b.len() as u64);
            let ghost head = out@;
            let mut i: usize = 0;
            while i < b.len()
                invariant
                    i <= b@.len(),
                    out@ == head + b@.take(i as int),
                decreases b@.len() - i,
            {
                out.push(b[i]);
                proof {
                    assert(out@ =~= head + b@.take(i + 1));
                }
                i = i + 1;
            }
            proof {
                assert(b@.take(i as int) =~= b@);
                assert(out@ =~= enc_fuzzer(m@));
            }
        },
        FuzzerEvent::Reset => {
            out.push(2u8);
            proof {
                assert(out@ =~= enc_fuzzer(m@));
            }
        },
        FuzzerEvent::Stop => {
            out.push(3u8);
            proof {
                assert(out@ =~= enc_fuzzer(m@));
            }
        },
    }
    out
}

/// The bytes of a message to the fuzzer.
pub fn encode_simics_event(m: &SimicsEvent) -> (r: Vec<u8>)
    ensures
        r@ == enc_simics(*m),
{
    let mut out: Vec<u8> = Vec::new();
    match m {
        SimicsEvent::SharedMem(h) => {
            out.push(0u8);
            push_u64_le(&mut out, h.id);
            push_u64_le(&mut out, h.len);
        },
        SimicsEvent::Ready => {
            out.push(1u8);
        },
        SimicsEvent::Stopped(k) => {
            out.push(2u8);
            let t: u8 = match k {
                StopType::Normal => 0,
                StopType::Crash => 1,
                StopType::Timeout => 2,
            };
            out.push(t);
        },
    }
    proof {
        assert(out@ =~= enc_simics(*m));
    }
    out
}

/// Decodes a message to the fuzzer; `None` where `b` encodes none.
pub fn decode_simics_event(b: &[u8]) -> (r: Option<SimicsEvent>)
    ensures
        r == dec_simics(b@),
{
    let n: usize = b.len();
    if n == 17 && b[0] == 0 {
        let id = read_u64_le(b, 1);
        let len = read_u64_le(b, 9);
        Some(SimicsEvent::SharedMem(ShmHandle { id, len }))
    } else if n == 1 && b[0] == 1 {
        Some(SimicsEvent::Ready)
    } else if n == 2 && b[0] == 2 && b[1] <= 2 {
        let k = if b[1] == 0 {
            StopType::Normal
        } else if b[1] == 1 {
            StopType::Crash
        } else {
            StopType::Timeout
        };
        Some(SimicsEvent::Stopped(k))
    } else {
        None
    }
}

/// Decodes a message to the harness; `None` where `b` encodes none.
pub fn decode_fuzzer_event(b: &[u8]) -> (r: Option<FuzzerEvent>)
    ensures
        match r {
            Some(m) => dec_fuzzer(b@) == Some(m@),
            None => dec_fuzzer(b@) is None,
        },
{
    let n: usize = b.len();
    if n == 0 {
        return None;
    }
    if b[0] == 0 {
        if n < 18 {
            return None;
        }
        let t = read_u64_le(b, 1);
        let mode = if b[9] == 0 {
            TraceMode::Once
        } else if b[9] == 1 {
            TraceMode::HitCount
        } else {
            return None;
        };
        let c = read_u64_le(b, 10);
        let ghost rest = b@.subrange(18, n as int);
        let rl: usize = n - 18;
        if rl % 9 != 0 || (rl / 9) as u64 != c {
            proof {
                lemma_fundamental_div_mod(rl as int, 9);
                if rest.len() == 9 * c {
                    lemma_div9(c as int, 0);
                }
            }
            return None;
        }
        proof {
            lemma_fundamental_div_mod(rl as int, 9);
        }
        let count: usize = rl / 9;
        let mut faults: Vec<Fault> = Vec::new();
        let mut i: usize = 0;
        while i < count
            invariant
                n == b@.len(),
                n >= 18,
                b@[0] == 0,
                c as nat == le_value(b@.subrange(10, 18)),
                count == c,
                rest == b@.subrange(18, n as int),
                rest.len() == 9 * count,
                i <= count,
                faults@.len() == i,
                forall|k: int| 0 <= k < i ==> (#[trigger] dec_fault(record9(rest, k))) is Some,
                forall|k: int| 0 <= k < i ==> dec_fault(record9(rest, k))->Some_0 == #[trigger] faults@[k],
            decreases count - i,
        {
            let off: usize = 18 + 9 * i;
            let tag = b[off];
            let v = read_u64_le(b, off + 1);
            proof {
                assert(record9(rest, i as int).subrange(1, 9) =~= b@.subrange(off + 1, off + 9));
                assert(record9(rest, i as int)[0] == tag);
            }
            if tag == 0 && v == 0 {
                faults.push(Fault::Triple);
            } else if tag == 1 {
                faults.push(Fault::Exception(v));
            } else {
                proof {
                    assert(dec_fault(record9(rest, i as int)) is None);
                    assert(dec_faults(rest, c as nat) is None);
                    assert(dec_fuzzer(b@) is None);
                }
                return None;
            }
            i = i + 1;
        }
        proof {
            let d = dec_faults(rest, c as nat);
            assert(d is Some);
            assert(d->Some_0 =~= faults@);
        }
        Some(FuzzerEvent::Initialize(InputConfig { faults, timeout_micros: t, trace_mode: mode }))
    } else if b[0] == 1 {
        if n < 9 {
            return None;
        }
        let len = read_u64_le(b, 1);
        if len != (n - 9) as u64 {
            return None;
        }
        let mut data: Vec<u8> = Vec::new();
        let mut i: usize = 9;
        while i < n
            invariant
                n == b@.len(),
                9 <= i <= n,
                data@ == b@.subrange(9, i as int),
            decreases n - i,
        {
            data.push(b[i]);
            proof {
                assert(data@ =~= b@.subrange(9, i + 1));
            }
            i = i + 1;
        }
        Some(FuzzerEvent::Run(data))
    } else if b[0] == 2 && n == 1 {
        Some(FuzzerEvent::Reset)
    } else if b[0] == 3 && n == 1 {
        Some(FuzzerEvent::Stop)
    } else {
        None
    }
}

} // verus!
