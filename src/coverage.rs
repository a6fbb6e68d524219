//! The shared coverage map and the edge hash that fills it.
use crate::config::TraceMode;
use crate::error::HarnessError;
use vstd::prelude::*;

verus! {

/// The default length of the coverage map: 64 KiB.
pub const DEFAULT_MAP_LEN: usize = 65536;

/// Whether `n` is a power of two.
pub open spec fn is_pow2(n: u64) -> bool {
    n > 0 && n & ((n - 1) as u64) == 0
}

/// The map index that a program counter hashes to, for a map of length `mask + 1`.
pub open spec fn edge_cur(pc: u64, mask: u64) -> u64 {
    ((pc >> 4u64) ^ (pc << 8u64)) & mask
}

/// A coverage byte after one more hit.
pub open spec fn hit(b: u8, mode: TraceMode) -> u8 {
    match mode {
        TraceMode::HitCount => ((b as int + 1) % 256) as u8,
        TraceMode::Once => b | 1u8,
    }
}

/// The start-up pattern of the map: byte `i` holds `i mod 256`.
pub open spec fn wiring_pattern(n: nat) -> Seq<u8> {
    Seq::new(n, |i: int| (i % 256) as u8)
}

proof fn lemma_mask_bounds(pc: u64, n: u64, prev: u64)
    requires
        is_pow2(n),
        prev < n,
    ensures
        edge_cur(pc, ((n - 1) as u64)) < n,
        edge_cur(pc, ((n - 1) as u64)) ^ prev < n,
        edge_cur(pc, ((n - 1) as u64)) >> 1u64 < n,
{
    let x = (pc >> 4u64) ^ (pc << 8u64);
    let m = ((n - 1) as u64);
    assert(x & m <= m) by (bit_vector);
    let c = x & m;
    assert(n > 0 && n & ((n - 1) as u64) == 0 && c < n && prev < n ==> c ^ prev < n) by (bit_vector);
    assert(c >> 1u64 <= c) by (bit_vector);
}

/// A byte array of power-of-two length, shared with the fuzzer.
pub struct CoverageMap {
    bytes: Vec<u8>,
}

impl CoverageMap {
    pub closed spec fn view(&self) -> Seq<u8> {
        self.bytes@
    }

    pub closed spec fn wf(&self) -> bool {
        is_pow2(self.bytes@.len() as u64) && self.bytes@.len() <= usize::MAX
    }

    /// A map of `len` bytes holding the start-up pattern, or `OutOfRange` where `len` is not a
    /// power of two.
    pub fn new(len: usize) -> (r: Result<CoverageMap, HarnessError>)
        ensures
            match r {
                Ok(m) => is_pow2(len as u64) && m.wf() && m@ == wiring_pattern(len as nat),
                Err(e) => !is_pow2(len as u64) && e == HarnessError::OutOfRange,
            },
    {
        let l: u64 = len as u64;
        if l == 0 || l & (l - 1) != 0 {
            return Err(HarnessError::OutOfRange);
        }
        let mut bytes: Vec<u8> = Vec::with_capacity(len);
        let mut i: usize = 0;
        while i < len
            invariant
                i <= len,
                bytes@ == wiring_pattern(i as nat),
            decreases len - i,
        {
            bytes.push((i % 256) as u8);
            proof {
                assert(bytes@ =~= wiring_pattern((i + 1) as nat));
            }
            i = i + 1;
        }
        Ok(CoverageMap { bytes })
    }

    /// The number of bytes.
    pub fn len(&self) -> (r: usize)
        ensures
            r == self@.len(),
    {
        self.bytes.len()
    }

    pub proof fn lemma_len_pow2(&self)
        requires
            self.wf(),
        ensures
            is_pow2(self@.len() as u64),
            self@.len() > 0,
    {
    }

    /// The byte at `i`, or `OutOfRange` past the end.
    pub fn read_byte(&self, i: usize) -> (r: Result<u8, HarnessError>)
        ensures
            i < self@.len() ==> r == Ok::<u8, HarnessError>(self@[i as int]),
            i >= self@.len() ==> r == Err::<u8, HarnessError>(HarnessError::OutOfRange),
    {
        if i < self.bytes.len() {
            Ok(self.bytes[i])
        } else {
            Err(HarnessError::OutOfRange)
        }
    }

    /// Copies `data` into the map from `offset` on, or fails with `OutOfRange` and changes
    /// nothing where it would not fit.
    pub fn write_at(&mut self, data: &[u8], offset: usize) -> (r: Result<(), HarnessError>)
        requires
            old(self).wf(),
        ensures
            final(self).wf(),
            offset + data@.len() <= old(self)@.len() ==> r is Ok && final(self)@
                == old(self)@.subrange(0, offset as int) + data@ + old(self)@.subrange(
                offset + data@.len(),
                old(self)@.len() as int,
            ),
            offset + data@.len() > old(self)@.len() ==> r == Err::<(), HarnessError>(
                HarnessError::OutOfRange,
            ) && final(self)@ == old(self)@,
    {
        let n = self.bytes.len();
        if offset > n || data.len() > n - offset {
            return Err(HarnessError::OutOfRange);
        }
        let mut k: usize = 0;
        while k < data.len()
            invariant
                k <= data@.len(),
                offset + data@.len() <= n,
                n == old(self)@.len(),
                self.wf(),
                self@ == old(self)@.subrange(0, offset as int) + data@.subrange(0, k as int)
                    + old(self)@.subrange(offset + k, n as int),
            decreases data@.len() - k,
        {
            let ghost before = self@;
            self.bytes.set(offset + k, data[k]);
            proof {
                assert(self@ =~= old(self)@.subrange(0, offset as int) + data@.subrange(0, k + 1)
                    + old(self)@.subrange(offset + k + 1, n as int));
            }
            k = k + 1;
        }
        proof {
            assert(data@.subrange(0, k as int) =~= data@);
        }
        Ok(())
    }
}

/// The coverage map together with the previous-location register of the edge hash.
pub struct EdgeCoverage {
    pub map: CoverageMap,
    pub prev_loc: u64,
}

impl EdgeCoverage {
    pub open spec fn wf(&self) -> bool {
        self.map.wf() && self.prev_loc < self.map@.len()
    }

    /// The mask that reduces a hash to a map index.
    pub open spec fn mask(&self) -> u64 {
        (self.map@.len() - 1) as u64
    }

    /// The index that recording `pc` updates next.
    pub open spec fn next_index(&self, pc: u64) -> u64 {
        edge_cur(pc, self.mask()) ^ self.prev_loc
    }

    /// Starts with a cleared previous location.
    pub fn new(map: CoverageMap) -> (r: EdgeCoverage)
        requires
            map.wf(),
        ensures
            r.wf(),
            r.map@ == map@,
            r.prev_loc == 0,
    {
        EdgeCoverage { map, prev_loc: 0 }
    }

    /// Forgets the previous location, as after a restore.
    pub fn clear_prev(&mut self)
        requires
            old(self).wf(),
        ensures
            final(self).wf(),
            final(self).map@ == old(self).map@,
            final(self).prev_loc == 0,
    {
        self.prev_loc = 0;
    }

    /// Records the branch at `pc`: the byte of the edge from the previous location gets one
    /// more hit, and the previous location becomes the current one shifted right by one.
    pub fn log(&mut self, pc: u64, mode: TraceMode) -> (idx: usize)
        requires
            old(self).wf(),
        ensures
            final(self).wf(),
            idx == old(self).next_index(pc),
            idx < old(self).map@.len(),
            final(self).map@ == old(self).map@.update(
                idx as int,
                hit(old(self).map@[idx as int], mode),
            ),
            final(self).prev_loc == edge_cur(pc, old(self).mask()) >> 1u64,
    {
        let n: usize = self.map.bytes.len();
        let mask: u64 = (n as u64) - 1;
        proof {
            lemma_mask_bounds(pc, n as u64, self.prev_loc);
        }
        let cur: u64 = ((pc >> 4) ^ (pc << 8)) & mask;
        let idx: usize = (cur ^ self.prev_loc) as usize;
        let b: u8 = self.map.bytes[idx];
        let v: u8 = match mode {
            TraceMode::HitCount => b.wrapping_add(1),
            TraceMode::Once => b | 1,
        };
        self.map.bytes.set(idx, v);
        self.prev_loc = cur >> 1;
        idx
    }
}

/// The coverage map's length is a power of two, and the byte that recording any program
/// counter updates lies inside the map.
pub proof fn lemma_edge_in_range(c: &EdgeCoverage, pc: u64)
    requires
        c.wf(),
    ensures
        is_pow2(c.map@.len() as u64),
        c.next_index(pc) < c.map@.len(),
        edge_cur(pc, c.mask()) >> 1u64 < c.map@.len(),
{
    c.map.lemma_len_pow2();
    lemma_mask_bounds(pc, c.map@.len() as u64, c.prev_loc);
}

/// In a map of one byte every program counter updates byte 0, and the previous location stays 0.
pub proof fn lemma_single_byte_map(c: &EdgeCoverage, pc: u64)
    requires
        c.wf(),
        c.map@.len() == 1,
    ensures
        c.next_index(pc) == 0,
        edge_cur(pc, c.mask()) >> 1u64 == 0,
{
    let x = (pc >> 4u64) ^ (pc << 8u64);
    assert(x & 0u64 == 0u64) by (bit_vector);
    assert(0u64 ^ 0u64 == 0u64) by (bit_vector);
    assert(0u64 >> 1u64 == 0u64) by (bit_vector);
}

} // verus!
