//! Configuration exchanged with the fuzzer at start-up.
use vstd::prelude::*;
use vstd::string::*;

verus! {

/// Whether a coverage byte records the first hit of an edge or counts hits.
#[derive(Debug, Clone, Copy, PartialEq, Eq, Structural)]
pub enum TraceMode {
    Once,
    HitCount,
}

/// A guest fault that may count as a crash.
#[derive(Debug, Clone, Copy, PartialEq, Eq, Structural, Hash)]
pub enum Fault {
    /// The x86 triple fault, reported by its own simulator hook.
    Triple,
    /// A processor exception, by its number.
    Exception(u64),
}

/// The lower-case form of a string, as the standard library computes it.
pub uninterp spec fn lower_of(s: Seq<char>) -> Seq<char>;

/// Relies on `str::to_lowercase`: the result depends on the characters alone.
#[verifier::external_body]
fn lowercase(s: &str) -> (r: String)
    ensures
        r@ == lower_of(s@),
{
    s.to_lowercase()
}

/// The name of a trace mode.
pub open spec fn trace_mode_name(m: TraceMode) -> Seq<char> {
    match m {
        TraceMode::Once => "once"@,
        TraceMode::HitCount => "hit_count"@,
    }
}

/// The trace mode that a lower-case name denotes.
pub open spec fn trace_mode_of_lower(t: Seq<char>) -> Option<TraceMode> {
    if t == "once"@ {
        Some(TraceMode::Once)
    } else if t == "hit_count"@ || t == "hitcount"@ {
        Some(TraceMode::HitCount)
    } else {
        None
    }
}

impl TraceMode {
    /// The name of the mode: `once` or `hit_count`.
    pub fn to_string(&self) -> (r: String)
        ensures
            r@ == trace_mode_name(*self),
    {
        match self {
            TraceMode::Once => String::from_str("once"),
            TraceMode::HitCount => String::from_str("hit_count"),
        }
    }

    /// Parses a mode name in any case: `once`, `hit_count` or `hitcount`.
    pub fn from_str(s: &str) -> (r: Option<TraceMode>)
        ensures
            r == trace_mode_of_lower(lower_of(s@)),
    {
        let l = lowercase(s);
        trace_mode_from_lower(&l)
    }
}

/// Parses a mode name that is already in lower case.
pub fn trace_mode_from_lower(t: &String) -> (r: Option<TraceMode>)
    ensures
        r == trace_mode_of_lower(t@),
{
    let once = String::from_str("once");
    let hit_count = String::from_str("hit_count");
    let hitcount = String::from_str("hitcount");
    if *t == once {
        Some(TraceMode::Once)
    } else if *t == hit_count || *t == hitcount {
        Some(TraceMode::HitCount)
    } else {
        None
    }
}

/// Whether `faults` holds no fault twice.
pub open spec fn no_duplicates(faults: Seq<Fault>) -> bool {
    forall|i: int, j: int| 0 <= i < j < faults.len() ==> faults[i] != faults[j]
}

/// Parameters of a fuzzing campaign, sent by the fuzzer once at start-up.
#[derive(Debug, Clone)]
pub struct InputConfig {
    /// The faults that count as crashes, each at most once.
    pub faults: Vec<Fault>,
    /// The timeout in microseconds; `u64::MAX` stands for no timeout.
    pub timeout_micros: u64,
    pub trace_mode: TraceMode,
}

/// `faults` with `f` added, unless it is there already.
pub open spec fn insert_fault(faults: Seq<Fault>, f: Fault) -> Seq<Fault> {
    if faults.contains(f) {
        faults
    } else {
        faults.push(f)
    }
}

/// `faults` with each of `more` added in turn.
pub open spec fn insert_faults(faults: Seq<Fault>, more: Seq<Fault>) -> Seq<Fault>
    decreases more.len(),
{
    if more.len() == 0 {
        faults
    } else {
        insert_faults(insert_fault(faults, more[0]), more.drop_first())
    }
}

impl InputConfig {
    pub open spec fn wf(&self) -> bool {
        no_duplicates(self.faults@)
    }

    /// No faults, no timeout, hit counting.
    pub fn default() -> (r: InputConfig)
        ensures
            r.wf(),
            r.faults@ == Seq::<Fault>::empty(),
            r.timeout_micros == u64::MAX,
            r.trace_mode == TraceMode::HitCount,
    {
        InputConfig { faults: Vec::new(), timeout_micros: u64::MAX, trace_mode: TraceMode::HitCount }
    }

    /// Whether `fault` counts as a crash.
    pub fn is_fault(&self, fault: Fault) -> (r: bool)
        ensures
            r == self.faults@.contains(fault),
    {
        let mut i: usize = 0;
        while i < self.faults.len()
            invariant
                i <= self.faults@.len(),
                forall|k: int| 0 <= k < i ==> self.faults@[k] != fault,
            decreases self.faults@.len() - i,
        {
            if self.faults[i] == fault {
                return true;
            }
            i = i + 1;
        }
        false
    }

    /// Adds a fault to the set of faults that count as crashes.
    pub fn with_fault(self, fault: Fault) -> (r: InputConfig)
        requires
            self.wf(),
        ensures
            r.wf(),
            r.faults@ == insert_fault(self.faults@, fault),
            r.faults@.to_set() == self.faults@.to_set().insert(fault),
            r.timeout_micros == self.timeout_micros,
            r.trace_mode == self.trace_mode,
    {
        let mut s = self;
        if !s.is_fault(fault) {
            s.faults.push(fault);
        }
        proof {
            self.faults@.lemma_push_to_set_commute(fault);
            assert(s.faults@.to_set() =~= self.faults@.to_set().insert(fault));
        }
        s
    }

    /// Adds each of several faults to the set of faults that count as crashes.
    pub fn with_faults(self, faults: Vec<Fault>) -> (r: InputConfig)
        requires
            self.wf(),
        ensures
            r.wf(),
            r.faults@ == insert_faults(self.faults@, faults@),
            r.faults@.to_set() == self.faults@.to_set().union(faults@.to_set()),
            r.timeout_micros == self.timeout_micros,
            r.trace_mode == self.trace_mode,
    {
        let mut s = self;
        let mut i: usize = 0;
        proof {
            assert(faults@.subrange(0, faults@.len() as int) =~= faults@);
            assert(faults@.subrange(0, 0).to_set() =~= Set::<Fault>::empty());
            assert(s.faults@.to_set() =~= self.faults@.to_set().union(Set::<Fault>::empty()));
        }
        while i < faults.len()
            invariant
                i <= faults@.len(),
                s.wf(),
                insert_faults(s.faults@, faults@.subrange(i as int, faults@.len() as int))
                    == insert_faults(self.faults@, faults@),
                s.faults@.to_set() == self.faults@.to_set().union(faults@.subrange(0, i as int).to_set()),
                s.timeout_micros == self.timeout_micros,
                s.trace_mode == self.trace_mode,
            decreases faults@.len() - i,
        {
            let ghost before = s.faults@;
            proof {
                let rest = faults@.subrange(i as int, faults@.len() as int);
                assert(rest.drop_first() =~= faults@.subrange(i + 1, faults@.len() as int));
                assert(faults@.subrange(0, i + 1) =~= faults@.subrange(0, i as int).push(faults@[i as int]));
                faults@.subrange(0, i as int).lemma_push_to_set_commute(faults@[i as int]);
            }
            s = s.with_fault(faults[i]);
            proof {
                assert(s.faults@.to_set() =~= self.faults@.to_set().union(faults@.subrange(0, i + 1).to_set()));
            }
            i = i + 1;
        }
        proof {
            assert(faults@.subrange(i as int, faults@.len() as int) =~= Seq::<Fault>::empty());
            assert(faults@.subrange(0, i as int) =~= faults@);
        }
        s
    }

    /// Sets the trace mode.
    pub fn with_trace_mode(self, mode: TraceMode) -> (r: InputConfig)
        ensures
            r.faults@ == self.faults@,
            r.timeout_micros == self.timeout_micros,
            r.trace_mode == mode,
    {
        let mut s = self;
        s.trace_mode = mode;
        s
    }

    /// Sets the timeout, in microseconds.
    pub fn with_timeout_microseconds(self, micros: u64) -> (r: InputConfig)
        ensures
            r.faults@ == self.faults@,
            r.timeout_micros == micros,
            r.trace_mode == self.trace_mode,
    {
        let mut s = self;
        s.timeout_micros = micros;
        s
    }
}

/// A handle on a shared-memory region that another process can map.
#[derive(Debug, Clone, Copy, PartialEq, Eq, Structural)]
pub struct ShmHandle {
    /// Identifies the region to the operating system.
    pub id: u64,
    /// Its length in bytes.
    pub len: u64,
}

/// A named map exported to the fuzzer.
#[derive(Debug, Clone, Copy, PartialEq, Eq, Structural)]
pub enum MapType {
    Coverage(ShmHandle),
}

/// What the harness reports back after initialisation: the maps it exports.
#[derive(Debug, Clone)]
pub struct OutputConfig {
    pub maps: Vec<MapType>,
}

impl OutputConfig {
    /// No maps.
    pub fn default() -> (r: OutputConfig)
        ensures
            r.maps@ == Seq::<MapType>::empty(),
    {
        OutputConfig { maps: Vec::new() }
    }

    /// Appends one map.
    pub fn with_map(self, map: MapType) -> (r: OutputConfig)
        ensures
            r.maps@ == self.maps@.push(map),
    {
        let mut s = self;
        s.maps.push(map);
        s
    }

    /// Appends several maps, in order.
    pub fn with_maps(self, maps: Vec<MapType>) -> (r: OutputConfig)
        ensures
            r.maps@ == self.maps@ + maps@,
    {
        let mut s = self;
        let mut i: usize = 0;
        while i < maps.len()
            invariant
                i <= maps@.len(),
                s.maps@ == self.maps@ + maps@.subrange(0, i as int),
            decreases maps@.len() - i,
        {
            s.maps.push(maps[i]);
            proof {
                assert(maps@.subrange(0, i + 1) =~= maps@.subrange(0, i as int).push(maps@[i as int]));
            }
            i = i + 1;
        }
        proof {
            assert(maps@.subrange(0, i as int) =~= maps@);
        }
        s
    }

    /// Takes the first coverage map out of the list.
    pub fn coverage(&mut self) -> (r: Option<ShmHandle>)
        ensures
            old(self).maps@.len() == 0 ==> r.is_none() && final(self).maps@ == old(self).maps@,
            old(self).maps@.len() > 0 ==> {
                &&& old(self).maps@[0] == MapType::Coverage(r.unwrap())
                &&& r.is_some()
                &&& final(self).maps@ == old(self).maps@.drop_first()
            },
    {
        if self.maps.len() == 0 {
            return None;
        }
        let m = self.maps.remove(0);
        proof {
            assert(self.maps@ =~= old(self).maps@.drop_first());
        }
        match m {
            MapType::Coverage(h) => Some(h),
        }
    }
}

} // verus!
