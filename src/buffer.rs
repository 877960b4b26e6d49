//! Packed buffers and their lane-wise addition.
use vstd::prelude::*;

verus! {

/// The byte at `i`, or zero past the end: a buffer read as if extended with
/// zero bytes.
pub open spec fn byte_or_zero(s: Seq<u8>, i: int) -> u8 {
    if 0 <= i < s.len() {
        s[i]
    } else {
        0
    }
}

/// The sum modulo 256 of two bytes.
pub open spec fn byte_sum(x: u8, y: u8) -> u8 {
    ((x + y) % 256) as u8
}

/// The byte-wise sum of two buffers, each extended with zeros to the longer
/// length, every byte wrapping modulo 256.
pub open spec fn wrapping_sum(a: Seq<u8>, b: Seq<u8>) -> Seq<u8> {
    let n = if a.len() >= b.len() {
        a.len()
    } else {
        b.len()
    };
    Seq::new(n, |i: int| byte_sum(byte_or_zero(a, i), byte_or_zero(b, i)))
}

/// The width in bytes of one chunk of the addition.
pub const STEP_SIZE: usize = 64;

/// A byte buffer, four two-bit symbol codes to a byte.
pub struct SIMDBuffer {
    pub buffer: Vec<u8>,
}

impl View for SIMDBuffer {
    type V = Seq<u8>;

    open spec fn view(&self) -> Seq<u8> {
        self.buffer@
    }
}

/// The sum of two bytes at one lane, reading zero past either end.
fn lane_sum(a: &Vec<u8>, b: &Vec<u8>, i: usize) -> (r: u8)
    ensures
        r == byte_sum(byte_or_zero(a@, i as int), byte_or_zero(b@, i as int)),
{
    let x: u8 = if i < a.len() {
        a[i]
    } else {
        0
    };
    let y: u8 = if i < b.len() {
        b[i]
    } else {
        0
    };
    x.wrapping_add(y)
}

/// Appends the sums of the `width` lanes that start at `start`. Lanes that
/// lie within both operands are added directly; the others read zero past the
/// shorter operand.
fn add_chunk(a: &Vec<u8>, b: &Vec<u8>, start: usize, width: usize, out: &mut Vec<u8>)
    requires
        old(out)@.len() == start,
        start + width <= usize::MAX,
    ensures
        final(out)@.len() == start + width,
        final(out)@.subrange(0, start as int) == old(out)@,
        forall|k: int|
            start <= k < start + width ==> #[trigger] final(out)@[k] == byte_sum(
                byte_or_zero(a@, k),
                byte_or_zero(b@, k),
            ),
{
    let end = start + width;
    let within = end <= a.len() && end <= b.len();
    let mut k: usize = start;
    while k < end
        invariant
            start <= k <= end,
            end == start + width,
            within ==> end <= a@.len() && end <= b@.len(),
            out@.len() == k,
            out@.subrange(0, start as int) == old(out)@,
            forall|j: int|
                start <= j < k ==> #[trigger] out@[j] == byte_sum(
                    byte_or_zero(a@, j),
                    byte_or_zero(b@, j),
                ),
        decreases end - k,
    {
        let s = if within {
            a[k].wrapping_add(b[k])
        } else {
            lane_sum(a, b, k)
        };
        out.push(s);
        k += 1;
    }
}

impl SIMDBuffer {
    /// The bytes of the buffer.
    pub fn as_slice(&self) -> (r: &[u8])
        ensures
            r@ == self@,
    {
        self.buffer.as_slice()
    }

    /// Adds two buffers byte by byte modulo 256, extending the shorter with
    /// zeros, in chunks of `width` bytes and then a byte-wise tail. The
    /// result does not depend on `width`.
    pub fn add_chunked(&self, rhs: &SIMDBuffer, width: usize) -> (r: SIMDBuffer)
        requires
            width > 0,
        ensures
            r@ == wrapping_sum(self@, rhs@),
    {
        let a = &self.buffer;
        let b = &rhs.buffer;
        let n: usize = if a.len() >= b.len() {
            a.len()
        } else {
            b.len()
        };
        let ghost expected = wrapping_sum(a@, b@);
        let mut result: Vec<u8> = Vec::with_capacity(n);
        let mut i: usize = 0;
        while width <= n - i
            invariant
                width > 0,
                i <= n,
                n == expected.len(),
                expected == wrapping_sum(a@, b@),
                result@ == expected.subrange(0, i as int),
            decreases n - i,
        {
            add_chunk(a, b, i, width, &mut result);
            assert(result@ =~= expected.subrange(0, i + width)) by {
                assert forall|k: int| 0 <= k < i + width implies result@[k] == expected[k] by {
                    if k < i {
                        assert(result@[k] == result@.subrange(0, i as int)[k]);
                    }
                }
            }
            i = i + width;
        }
        while i < n
            invariant
                i <= n,
                n == expected.len(),
                expected == wrapping_sum(a@, b@),
                result@ == expected.subrange(0, i as int),
            decreases n - i,
        {
            let s = lane_sum(a, b, i);
            result.push(s);
            assert(result@ =~= expected.subrange(0, i + 1));
            i += 1;
        }
        assert(result@ =~= expected);
        SIMDBuffer { buffer: result }
    }

    /// Adds two buffers byte by byte modulo 256, extending the shorter with
    /// zeros. Neither operand is changed.
    pub fn add(self, rhs: SIMDBuffer) -> (r: SIMDBuffer)
        ensures
            r@ == wrapping_sum(self@, rhs@),
    {
        self.add_chunked(&rhs, STEP_SIZE)
    }
}

impl core::ops::Add for SIMDBuffer {
    type Output = SIMDBuffer;

    /// Adds two buffers byte by byte modulo 256, extending the shorter with
    /// zeros.
    fn add(self, rhs: SIMDBuffer) -> (r: SIMDBuffer)
        ensures
            r@ == wrapping_sum(self@, rhs@),
    {
        SIMDBuffer::add(self, rhs)
    }
}

/// The operator `+` has no precondition. Its result is stated by the
/// `ensures` of its impl above, over the view: a buffer owns a `Vec`, so no
/// spec value of the buffer itself can stand for the sum, and `add_spec` is
/// not used.
impl vstd::std_specs::ops::AddSpecImpl for SIMDBuffer {
    open spec fn obeys_add_spec() -> bool {
        false
    }

    open spec fn add_req(self, rhs: SIMDBuffer) -> bool {
        true
    }

    open spec fn add_spec(self, rhs: SIMDBuffer) -> SIMDBuffer {
        self
    }
}

/// Addition is commutative.
pub proof fn lemma_add_commutes(a: Seq<u8>, b: Seq<u8>)
    ensures
        wrapping_sum(a, b) == wrapping_sum(b, a),
{
    assert(wrapping_sum(a, b) =~= wrapping_sum(b, a));
}

} // verus!
