//! Turning a fuzzer input into writes of guest physical memory.
use crate::bytes::{
    le_bytes, le_value, lemma_le_bytes_of_value, lemma_le_value_bound, lemma_pow256_8, read_u64_le,
};
use crate::error::HarnessError;
use vstd::arithmetic::div_mod::lemma_fundamental_div_mod;
use vstd::prelude::*;

verus! {

/// What to do with an input longer than the guest's buffer.
#[derive(Debug, Clone, Copy, PartialEq, Eq, Structural)]
pub enum SizePolicy {
    /// Write only as many bytes as the buffer holds.
    Truncate,
    /// Refuse the input with `OutOfRange`.
    Reject,
}

/// One write of guest physical memory: `width` bytes of the little-endian `value` at `addr`.
#[derive(Debug, Clone, Copy, PartialEq, Eq, Structural)]
pub struct PhysWrite {
    pub addr: u64,
    pub value: u64,
    pub width: u64,
}

/// How many bytes of an input of length `len` are written into a buffer of `size` bytes, or
/// `None` where the input is refused.
pub open spec fn accepted_len(len: nat, size: u64, policy: SizePolicy) -> Option<nat> {
    if len <= size {
        Some(len)
    } else {
        match policy {
            SizePolicy::Truncate => Some(size as nat),
            SizePolicy::Reject => None,
        }
    }
}

/// The number of 8-byte chunks that cover `n` bytes.
pub open spec fn chunk_count(n: nat) -> nat {
    n / 8 + if n % 8 == 0 { 0nat } else { 1nat }
}

proof fn lemma_chunk_count(n: nat)
    ensures
        n <= 8 * chunk_count(n) < n + 8,
{
    lemma_fundamental_div_mod(n as int, 8);
}

/// `s` padded on the right with zeros to a multiple of 8 bytes.
pub open spec fn padded(s: Seq<u8>) -> Seq<u8> {
    Seq::new(8 * chunk_count(s.len()), |j: int| if j < s.len() { s[j] } else { 0u8 })
}

/// The write of chunk `k` of `s` into a buffer at `base`.
pub open spec fn chunk_write(s: Seq<u8>, base: u64, k: int) -> PhysWrite {
    PhysWrite {
        addr: (base + 8 * k) as u64,
        value: le_value(padded(s).subrange(8 * k, 8 * k + 8)) as u64,
        width: (if s.len() - 8 * k < 8 { s.len() - 8 * k } else { 8 }) as u64,
    }
}

/// The writes that place `s` at `base`, one per chunk, in order.
pub open spec fn input_writes(s: Seq<u8>, base: u64) -> Seq<PhysWrite> {
    Seq::new(chunk_count(s.len()), |k: int| chunk_write(s, base, k))
}

/// Whether `n` bytes from `base` on stay inside the physical address space.
pub open spec fn fits_at(base: u64, n: nat) -> bool {
    base + n <= u64::MAX + 1
}

/// The outcome of placing `input` into the buffer at `base` of `size` bytes.
pub open spec fn plan_spec(input: Seq<u8>, base: u64, size: u64, policy: SizePolicy) -> Result<
    Seq<PhysWrite>,
    HarnessError,
> {
    match accepted_len(input.len(), size, policy) {
        Some(n) => if fits_at(base, n) {
            Ok(input_writes(input.take(n as int), base))
        } else {
            Err(HarnessError::OutOfRange)
        },
        None => Err(HarnessError::OutOfRange),
    }
}

/// The writes that place `input` into the guest buffer at `base` of `size` bytes: 8-byte
/// little-endian chunks, the last one zero-padded and as wide as what remains of the input.
pub fn plan_input_writes(input: &[u8], base: u64, size: u64, policy: SizePolicy) -> (r: Result<
    Vec<PhysWrite>,
    HarnessError,
>)
    ensures
        match r {
            Ok(w) => plan_spec(input@, base, size, policy) == Ok::<Seq<PhysWrite>, HarnessError>(w@),
            Err(e) => plan_spec(input@, base, size, policy) == Err::<Seq<PhysWrite>, HarnessError>(e),
        },
{
    let len: usize = input.len();
    if (len as u64) > size && policy == SizePolicy::Reject {
        return Err(HarnessError::OutOfRange);
    }
    let n: usize = if (len as u64) <= size { len } else { size as usize };
    if n > 0 && (n as u64) - 1 > u64::MAX - base {
        return Err(HarnessError::OutOfRange);
    }
    let ghost s = input@.take(n as int);
    let chunks: usize = n / 8 + if n % 8 == 0 { 0 } else { 1 };
    let mut out: Vec<PhysWrite> = Vec::new();
    let mut k: usize = 0;
    while k < chunks
        invariant
            n <= input@.len(),
            s == input@.take(n as int),
            chunks == chunk_count(n as nat),
            fits_at(base, n as nat),
            k <= chunks,
            out@ == input_writes(s, base).take(k as int),
        decreases chunks - k,
    {
        proof {
            lemma_chunk_count(n as nat);
        }
        let off: usize = 8 * k;
        let w: usize = if n - off < 8 { n - off } else { 8 };
        let mut data: Vec<u8> = vec![0u8, 0u8, 0u8, 0u8, 0u8, 0u8, 0u8, 0u8];
        let mut j: usize = 0;
        while j < w
            invariant
                off == 8 * k,
                off + w <= n <= input@.len(),
                w <= 8,
                j <= w,
                data@.len() == 8,
                forall|i: int| 0 <= i < j ==> data@[i] == input@[off + i],
                forall|i: int| j <= i < 8 ==> data@[i] == 0u8,
            decreases w - j,
        {
            data.set(j, input[off + j]);
            j = j + 1;
        }
        let value: u64 = read_u64_le(data.as_slice(), 0);
        proof {
            assert(data@.subrange(0, 8) =~= padded(s).subrange(8 * k, 8 * k + 8));
            lemma_le_value_bound(data@.subrange(0, 8));
            lemma_pow256_8();
        }
        out.push(PhysWrite { addr: base + off as u64, value, width: w as u64 });
        proof {
            assert(out@ =~= input_writes(s, base).take(k + 1));
        }
        k = k + 1;
    }
    proof {
        assert(out@ =~= input_writes(s, base));
    }
    Ok(out)
}

/// An input that fits the buffer is written as itself padded on the right with zeros to a
/// multiple of eight bytes: one write per 8-byte chunk, at consecutive addresses from the
/// buffer's start, every write but the last eight bytes wide, and the last as wide as the
/// length modulo eight when that is not zero.
pub proof fn lemma_writes_are_padded_input(input: Seq<u8>, base: u64, size: u64, policy: SizePolicy)
    requires
        input.len() <= size,
        fits_at(base, input.len()),
    ensures
        plan_spec(input, base, size, policy) is Ok,
        ({
            let w = plan_spec(input, base, size, policy)->Ok_0;
            &&& w.len() == chunk_count(input.len())
            &&& forall|k: int|
                0 <= k < w.len() ==> #[trigger] le_bytes(w[k].value as nat, 8) == padded(input).subrange(
                    8 * k,
                    8 * k + 8,
                ) && w[k].addr == base + 8 * k
            &&& forall|k: int| 0 <= k < w.len() - 1 ==> #[trigger] w[k].width == 8
            &&& input.len() % 8 != 0 ==> w.last().width == input.len() % 8
            &&& input.len() % 8 == 0 && w.len() > 0 ==> w.last().width == 8
        }),
{
    let w = plan_spec(input, base, size, policy)->Ok_0;
    assert(input.take(input.len() as int) =~= input);
    lemma_chunk_count(input.len());
    lemma_fundamental_div_mod(input.len() as int, 8);
    assert forall|k: int| 0 <= k < w.len() implies #[trigger] le_bytes(w[k].value as nat, 8)
        == padded(input).subrange(8 * k, 8 * k + 8) && w[k].addr == base + 8 * k by {
        let c = padded(input).subrange(8 * k, 8 * k + 8);
        lemma_le_value_bound(c);
        lemma_pow256_8();
        lemma_le_bytes_of_value(c);
    }
}

/// An empty input gives no writes.
pub proof fn lemma_empty_input_no_writes(base: u64, size: u64, policy: SizePolicy)
    ensures
        plan_spec(Seq::<u8>::empty(), base, size, policy) == Ok::<Seq<PhysWrite>, HarnessError>(
            Seq::<PhysWrite>::empty(),
        ),
{
    assert(Seq::<u8>::empty().take(0) =~= Seq::<u8>::empty());
    assert(input_writes(Seq::<u8>::empty(), base) =~= Seq::<PhysWrite>::empty());
}

} // verus!
