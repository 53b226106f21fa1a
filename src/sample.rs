//! Integer audio samples of every supported width, and the per-sample transforms.
use vstd::prelude::*;
use vstd::arithmetic::div_mod::{
    lemma_fundamental_div_mod, lemma_mod_add_multiples_vanish, lemma_mod_multiples_vanish,
    lemma_mul_mod_noop, lemma_small_mod,
};

use vstd::arithmetic::mul::lemma_mul_is_associative;

use crate::wavefile::Format;

verus! {

/// The numeric representation of a sample: signedness and bit width.
#[derive(Debug, Clone, Copy, PartialEq, Eq, Structural)]
pub enum SampleKind {
    I8,
    I16,
    I24,
    I32,
    I48,
    I64,
    U8,
    U16,
    U24,
    U32,
    U48,
    U64,
}

/// One sample value. The 24- and 48-bit kinds are packed integers held in the
/// next wider primitive; `wf` keeps them inside their own range.
#[derive(Debug, Clone, Copy, PartialEq, Eq, Structural)]
pub enum Sample {
    I8(i8),
    I16(i16),
    I24(i32),
    I32(i32),
    I48(i64),
    I64(i64),
    U8(u8),
    U16(u16),
    U24(u32),
    U32(u32),
    U48(u64),
    U64(u64),
}

/// `x` clamped to the inclusive range `[lo, hi]`.
pub open spec fn clamp(x: int, lo: int, hi: int) -> int {
    if x < lo {
        lo
    } else if x > hi {
        hi
    } else {
        x
    }
}

impl SampleKind {
    /// Whether values of this kind are two's-complement signed.
    pub open spec fn is_signed(self) -> bool {
        match self {
            SampleKind::I8 | SampleKind::I16 | SampleKind::I24 | SampleKind::I32
            | SampleKind::I48 | SampleKind::I64 => true,
            _ => false,
        }
    }

    /// The number of bytes one sample occupies on disk.
    pub open spec fn width(self) -> nat {
        match self {
            SampleKind::I8 | SampleKind::U8 => 1,
            SampleKind::I16 | SampleKind::U16 => 2,
            SampleKind::I24 | SampleKind::U24 => 3,
            SampleKind::I32 | SampleKind::U32 => 4,
            SampleKind::I48 | SampleKind::U48 => 6,
            SampleKind::I64 | SampleKind::U64 => 8,
        }
    }

    /// The number of distinct values of this kind: two to the power of its bit width.
    pub open spec fn modulus(self) -> int {
        match self {
            SampleKind::I8 | SampleKind::U8 => 0x100,
            SampleKind::I16 | SampleKind::U16 => 0x1_0000,
            SampleKind::I24 | SampleKind::U24 => 0x100_0000,
            SampleKind::I32 | SampleKind::U32 => 0x1_0000_0000,
            SampleKind::I48 | SampleKind::U48 => 0x1_0000_0000_0000,
            SampleKind::I64 | SampleKind::U64 => 0x1_0000_0000_0000_0000,
        }
    }

    pub open spec fn min_value(self) -> int {
        if self.is_signed() {
            -(self.modulus() / 2)
        } else {
            0
        }
    }

    pub open spec fn max_value(self) -> int {
        if self.is_signed() {
            self.modulus() / 2 - 1
        } else {
            self.modulus() - 1
        }
    }

    /// The value of silence: zero for signed kinds, the midpoint for unsigned ones.
    pub open spec fn equilibrium_value(self) -> int {
        if self.is_signed() {
            0
        } else {
            self.modulus() / 2
        }
    }

    /// The kind a sample is stored as in a PCM file: unsigned kinds wider than
    /// eight bits become their signed counterparts.
    pub open spec fn wav_kind(self) -> SampleKind {
        match self {
            SampleKind::U16 => SampleKind::I16,
            SampleKind::U24 => SampleKind::I24,
            SampleKind::U32 => SampleKind::I32,
            SampleKind::U48 => SampleKind::I48,
            SampleKind::U64 => SampleKind::I64,
            _ => self,
        }
    }

    /// The on-disk format class of every integer kind.
    pub open spec fn format(self) -> Format {
        Format::PulseCodeModulation
    }

    pub fn signed(self) -> (r: bool)
        ensures
            r == self.is_signed(),
    {
        match self {
            SampleKind::I8 | SampleKind::I16 | SampleKind::I24 | SampleKind::I32
            | SampleKind::I48 | SampleKind::I64 => true,
            _ => false,
        }
    }

    /// The number of distinct values of this kind.
    pub fn value_count(self) -> (r: u128)
        ensures
            r == self.modulus(),
    {
        match self {
            SampleKind::I8 | SampleKind::U8 => 0x100,
            SampleKind::I16 | SampleKind::U16 => 0x1_0000,
            SampleKind::I24 | SampleKind::U24 => 0x100_0000,
            SampleKind::I32 | SampleKind::U32 => 0x1_0000_0000,
            SampleKind::I48 | SampleKind::U48 => 0x1_0000_0000_0000,
            SampleKind::I64 | SampleKind::U64 => 0x1_0000_0000_0000_0000,
        }
    }

    /// The on-disk size of one sample, in bytes.
    pub fn bytes_per_sample(self) -> (r: u16)
        ensures
            r == self.width(),
    {
        match self {
            SampleKind::I8 | SampleKind::U8 => 1,
            SampleKind::I16 | SampleKind::U16 => 2,
            SampleKind::I24 | SampleKind::U24 => 3,
            SampleKind::I32 | SampleKind::U32 => 4,
            SampleKind::I48 | SampleKind::U48 => 6,
            SampleKind::I64 | SampleKind::U64 => 8,
        }
    }

    /// The format tag that files of this kind carry.
    pub fn sample_format(self) -> (r: Format)
        ensures
            r == self.format(),
    {
        Format::PulseCodeModulation
    }

    /// The kind a sample of this kind is stored as.
    pub fn wav_sample_kind(self) -> (r: SampleKind)
        ensures
            r == self.wav_kind(),
    {
        match self {
            SampleKind::U16 => SampleKind::I16,
            SampleKind::U24 => SampleKind::I24,
            SampleKind::U32 => SampleKind::I32,
            SampleKind::U48 => SampleKind::I48,
            SampleKind::U64 => SampleKind::I64,
            _ => self,
        }
    }

    /// The sample of this kind that represents silence.
    pub fn equilibrium(self) -> (r: Sample)
        ensures
            r.wf(),
            r.kind() == self,
            r.value() == self.equilibrium_value(),
    {
        let v: i128 = if self.signed() {
            0
        } else {
            (self.value_count() / 2) as i128
        };
        Sample::from_value(self, v)
    }
}

impl Sample {
    pub open spec fn kind(self) -> SampleKind {
        match self {
            Sample::I8(_) => SampleKind::I8,
            Sample::I16(_) => SampleKind::I16,
            Sample::I24(_) => SampleKind::I24,
            Sample::I32(_) => SampleKind::I32,
            Sample::I48(_) => SampleKind::I48,
            Sample::I64(_) => SampleKind::I64,
            Sample::U8(_) => SampleKind::U8,
            Sample::U16(_) => SampleKind::U16,
            Sample::U24(_) => SampleKind::U24,
            Sample::U32(_) => SampleKind::U32,
            Sample::U48(_) => SampleKind::U48,
            Sample::U64(_) => SampleKind::U64,
        }
    }

    /// The sample's numeric value.
    pub open spec fn value(self) -> int {
        match self {
            Sample::I8(v) => v as int,
            Sample::I16(v) => v as int,
            Sample::I24(v) => v as int,
            Sample::I32(v) => v as int,
            Sample::I48(v) => v as int,
            Sample::I64(v) => v as int,
            Sample::U8(v) => v as int,
            Sample::U16(v) => v as int,
            Sample::U24(v) => v as int,
            Sample::U32(v) => v as int,
            Sample::U48(v) => v as int,
            Sample::U64(v) => v as int,
        }
    }

    /// The value lies in the range of the sample's kind.
    pub open spec fn wf(self) -> bool {
        self.kind().min_value() <= self.value() <= self.kind().max_value()
    }

    /// The value as stored in a PCM file (see `SampleKind::wav_kind`).
    pub open spec fn wav_value(self) -> int {
        if self.kind().wav_kind() != self.kind() {
            self.value() - self.kind().modulus() / 2
        } else {
            self.value()
        }
    }

    pub fn sample_kind(&self) -> (r: SampleKind)
        ensures
            r == self.kind(),
    {
        match self {
            Sample::I8(_) => SampleKind::I8,
            Sample::I16(_) => SampleKind::I16,
            Sample::I24(_) => SampleKind::I24,
            Sample::I32(_) => SampleKind::I32,
            Sample::I48(_) => SampleKind::I48,
            Sample::I64(_) => SampleKind::I64,
            Sample::U8(_) => SampleKind::U8,
            Sample::U16(_) => SampleKind::U16,
            Sample::U24(_) => SampleKind::U24,
            Sample::U32(_) => SampleKind::U32,
            Sample::U48(_) => SampleKind::U48,
            Sample::U64(_) => SampleKind::U64,
        }
    }

    /// The sample's value, widened.
    pub fn to_i128(&self) -> (r: i128)
        ensures
            r == self.value(),
    {
        match *self {
            Sample::I8(v) => v as i128,
            Sample::I16(v) => v as i128,
            Sample::I24(v) => v as i128,
            Sample::I32(v) => v as i128,
            Sample::I48(v) => v as i128,
            Sample::I64(v) => v as i128,
            Sample::U8(v) => v as i128,
            Sample::U16(v) => v as i128,
            Sample::U24(v) => v as i128,
            Sample::U32(v) => v as i128,
            Sample::U48(v) => v as i128,
            Sample::U64(v) => v as i128,
        }
    }

    /// The sample of kind `kind` whose value is `v`.
    pub fn from_value(kind: SampleKind, v: i128) -> (r: Sample)
        requires
            kind.min_value() <= v <= kind.max_value(),
        ensures
            r.wf(),
            r.kind() == kind,
            r.value() == v,
    {
        match kind {
            SampleKind::I8 => Sample::I8(v as i8),
            SampleKind::I16 => Sample::I16(v as i16),
            SampleKind::I24 => Sample::I24(v as i32),
            SampleKind::I32 => Sample::I32(v as i32),
            SampleKind::I48 => Sample::I48(v as i64),
            SampleKind::I64 => Sample::I64(v as i64),
            SampleKind::U8 => Sample::U8(v as u8),
            SampleKind::U16 => Sample::U16(v as u16),
            SampleKind::U24 => Sample::U24(v as u32),
            SampleKind::U32 => Sample::U32(v as u32),
            SampleKind::U48 => Sample::U48(v as u64),
            SampleKind::U64 => Sample::U64(v as u64),
        }
    }
}

/// The `n` low-order bytes of `x`, least significant first.
pub open spec fn le_bytes(x: nat, n: nat) -> Seq<u8>
    decreases n,
{
    if n == 0 {
        Seq::empty()
    } else {
        seq![(x % 256) as u8] + le_bytes(x / 256, (n - 1) as nat)
    }
}

/// The value of the sample kind `kind` congruent to `x` modulo `kind.modulus()`:
/// what two's-complement (or unsigned) arithmetic of that width produces.
pub open spec fn wrap(kind: SampleKind, x: int) -> int {
    if kind.is_signed() {
        (x + kind.modulus() / 2) % kind.modulus() - kind.modulus() / 2
    } else {
        x % kind.modulus()
    }
}

/// The value of kind `kind` whose residue modulo `kind.modulus()` is `p`.
pub open spec fn from_residue(kind: SampleKind, p: int) -> int {
    if kind.is_signed() && p >= kind.modulus() / 2 {
        p - kind.modulus()
    } else {
        p
    }
}

impl Sample {
    /// The on-disk encoding of this sample as it stands: its two's-complement
    /// bit pattern, little-endian, in `width` bytes.
    pub open spec fn le_encoding(self) -> Seq<u8> {
        le_bytes((self.value() % self.kind().modulus()) as nat, self.kind().width())
    }

    /// The bytes a PCM file stores for this sample: its `wav_value`, two's
    /// complement, little-endian, in `width` bytes.
    pub open spec fn wav_encoding(self) -> Seq<u8> {
        le_bytes((self.wav_value() % self.kind().modulus()) as nat, self.kind().width())
    }

    /// The bytes a PCM file stores for this sample.
    pub fn wav_bytes(&self) -> (r: Vec<u8>)
        requires
            self.wf(),
        ensures
            r@ == self.wav_encoding(),
    {
        let w = self.to_wav_sample();
        w.to_le_bytes()
    }

    /// The residue of the value modulo the kind's modulus: its bit pattern read unsigned.
    pub fn residue(&self) -> (r: u128)
        requires
            self.wf(),
        ensures
            r == self.value() % self.kind().modulus(),
            r < self.kind().modulus(),
    {
        let m = self.sample_kind().value_count();
        let v = self.to_i128();
        proof {
            lemma_residue_of_value(self.kind(), v as int);
        }
        if v < 0 {
            (v + m as i128) as u128
        } else {
            v as u128
        }
    }

    /// The sample as a PCM file stores it: unsigned kinds wider than eight bits
    /// are shifted down by half their range into the signed counterpart.
    pub fn to_wav_sample(self) -> (r: Sample)
        requires
            self.wf(),
        ensures
            r.wf(),
            r.kind() == self.kind().wav_kind(),
            r.value() == self.wav_value(),
    {
        let kind = self.sample_kind();
        let target = kind.wav_sample_kind();
        let v = self.to_i128();
        if target != kind {
            let half = (kind.value_count() / 2) as i128;
            Sample::from_value(target, v - half)
        } else {
            self
        }
    }

    /// The little-endian bytes of the sample as it stands.
    pub fn to_le_bytes(&self) -> (r: Vec<u8>)
        requires
            self.wf(),
        ensures
            r@ == self.le_encoding(),
    {
        let x = self.residue();
        let n = self.sample_kind().bytes_per_sample();
        le_bytes_of(x, n as usize)
    }
}

/// The `n` low-order bytes of `x`, least significant first.
pub fn le_bytes_of(x: u128, n: usize) -> (r: Vec<u8>)
    ensures
        r@ == le_bytes(x as nat, n as nat),
{
    let mut out: Vec<u8> = Vec::new();
    let mut rest: u128 = x;
    let mut i: usize = 0;
    while i < n
        invariant
            i <= n,
            out@ + le_bytes(rest as nat, (n - i) as nat) == le_bytes(x as nat, n as nat),
        decreases n - i,
    {
        let b = (rest % 256) as u8;
        let ghost before = out@;
        let ghost tail = le_bytes((rest / 256) as nat, (n - i - 1) as nat);
        assert(le_bytes(rest as nat, (n - i) as nat) == seq![b] + tail);
        out.push(b);
        assert(before + (seq![b] + tail) =~= out@ + tail);
        rest = rest / 256;
        i = i + 1;
    }
    assert(out@ + le_bytes(rest as nat, 0) =~= out@);
    out
}

/// Return `sample` clamped to the inclusive range from `-threshold` to `threshold`.
pub fn clip(sample: Sample, threshold: Sample) -> (r: Sample)
    requires
        sample.wf(),
        threshold.wf(),
        sample.kind() == threshold.kind(),
        threshold.value() >= 0,
    ensures
        r.wf(),
        r.kind() == sample.kind(),
        r.value() == clamp(sample.value(), -threshold.value(), threshold.value()),
        -threshold.value() <= r.value() <= threshold.value(),
{
    let s = sample.to_i128();
    let t = threshold.to_i128();
    let v: i128 = if s < -t {
        -t
    } else if s > t {
        t
    } else {
        s
    };
    Sample::from_value(sample.sample_kind(), v)
}

/// Return `sample` multiplied by `multiplier`, wrapping around on overflow as
/// integer arithmetic of the sample's width does.
pub fn scale(sample: Sample, multiplier: Sample) -> (r: Sample)
    requires
        sample.wf(),
        multiplier.wf(),
        sample.kind() == multiplier.kind(),
    ensures
        r.wf(),
        r.kind() == sample.kind(),
        r.value() == wrap(sample.kind(), sample.value() * multiplier.value()),
{
    let kind = sample.sample_kind();
    let m = kind.value_count();
    let a = sample.residue();
    let b = multiplier.residue();
    proof {
        assert(a * b < 0x1_0000_0000_0000_0000 * 0x1_0000_0000_0000_0000) by (nonlinear_arith)
            requires
                a < m,
                b < m,
                m <= 0x1_0000_0000_0000_0000,
        ;
    }
    let p = (a * b) % m;
    let v: i128 = if kind.signed() && p >= m / 2 {
        p as i128 - m as i128
    } else {
        p as i128
    };
    proof {
        lemma_mul_mod_noop(sample.value(), multiplier.value(), m as int);
        lemma_wrap_is_from_residue(kind, sample.value() * multiplier.value());
    }
    Sample::from_value(kind, v)
}

proof fn lemma_residue_of_value(kind: SampleKind, v: int)
    requires
        kind.min_value() <= v <= kind.max_value(),
    ensures
        v < 0 ==> v % kind.modulus() == v + kind.modulus(),
        v >= 0 ==> v % kind.modulus() == v,
{
    let m = kind.modulus();
    if v < 0 {
        lemma_mod_add_multiples_vanish(v, m);
        lemma_small_mod((m + v) as nat, m as nat);
    } else {
        lemma_small_mod(v as nat, m as nat);
    }
}

/// Wrapping depends only on the residue of its argument.
pub proof fn lemma_wrap_is_from_residue(kind: SampleKind, x: int)
    ensures
        wrap(kind, x) == from_residue(kind, x % kind.modulus()),
        kind.min_value() <= wrap(kind, x) <= kind.max_value(),
{
    let m = kind.modulus();
    let h = m / 2;
    let p = x % m;
    lemma_fundamental_div_mod(x, m);
    let q = x / m;
    if kind.is_signed() {
        lemma_mod_multiples_vanish(q, p + h, m);
        assert(x + h == m * q + (p + h));
        if p + h < m {
            lemma_small_mod((p + h) as nat, m as nat);
        } else {
            lemma_mod_add_multiples_vanish(p + h - m, m);
            lemma_small_mod((p + h - m) as nat, m as nat);
        }
    }
}

/// Clipping is idempotent: clipping an already clipped sample with the same
/// non-negative threshold changes nothing, and the result lies within the threshold.
pub proof fn lemma_clip_idempotent(sample: Sample, threshold: Sample)
    requires
        sample.wf(),
        threshold.wf(),
        sample.kind() == threshold.kind(),
        threshold.value() >= 0,
    ensures
        ({
            let t = threshold.value();
            let once = clamp(sample.value(), -t, t);
            &&& -t <= once <= t
            &&& clamp(once, -t, t) == once
        }),
{
}

/// Scaling twice is scaling once by the product of the multipliers, the product
/// itself taken in the samples' own wrapping arithmetic.
pub proof fn lemma_scale_composes(sample: Sample, m1: Sample, m2: Sample)
    requires
        sample.wf(),
        m1.wf(),
        m2.wf(),
        sample.kind() == m1.kind(),
        sample.kind() == m2.kind(),
    ensures
        ({
            let k = sample.kind();
            wrap(k, wrap(k, sample.value() * m1.value()) * m2.value())
                == wrap(k, sample.value() * wrap(k, m1.value() * m2.value()))
        }),
{
    let k = sample.kind();
    let m = k.modulus();
    let s = sample.value();
    let a = m1.value();
    let b = m2.value();
    lemma_wrap_congruent(k, s * a);
    lemma_wrap_congruent(k, a * b);
    lemma_mul_mod_noop(wrap(k, s * a), b, m);
    lemma_mul_mod_noop(s * a, b, m);
    lemma_mul_mod_noop(s, wrap(k, a * b), m);
    lemma_mul_mod_noop(s, a * b, m);
    lemma_mul_is_associative(s, a, b);
    lemma_wrap_is_from_residue(k, wrap(k, s * a) * b);
    lemma_wrap_is_from_residue(k, (s * a) * b);
    lemma_wrap_is_from_residue(k, s * wrap(k, a * b));
    lemma_wrap_is_from_residue(k, s * (a * b));
}

/// A wrapped value is congruent to its argument.
proof fn lemma_wrap_congruent(kind: SampleKind, x: int)
    ensures
        wrap(kind, x) % kind.modulus() == x % kind.modulus(),
{
    let m = kind.modulus();
    let p = x % m;
    lemma_wrap_is_from_residue(kind, x);
    lemma_fundamental_div_mod(x, m);
    lemma_small_mod(p as nat, m as nat);
    if kind.is_signed() && p >= m / 2 {
        lemma_mod_add_multiples_vanish(p - m, m);
    }
}

} // verus!
