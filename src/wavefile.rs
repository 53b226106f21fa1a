//! The RIFF/WAVE container: construction and byte-exact serialisation.
use vstd::prelude::*;
use vstd::arithmetic::div_mod::lemma_fundamental_div_mod;
use vstd::slice::slice_to_vec;

use crate::block::Block;
use crate::sample::{le_bytes, le_bytes_of, Sample, SampleKind};

verus! {

/// The format class of a WAVE file's samples.
#[derive(Debug, Clone, Copy, PartialEq, Eq, Structural)]
pub enum Format {
    PulseCodeModulation,
    FloatingPoint,
}

/// `std::io::Error`, the failure a byte sink reports. It is only carried in
/// `WaveFileWriteError::Io`; nothing is read from it.
#[verifier::external_type_specification]
#[verifier::external_body]
pub struct ExIoError(std::io::Error);

/// Why a WAVE file could not be written.
#[derive(Debug)]
pub enum WaveFileWriteError {
    /// The byte sink failed.
    Io(std::io::Error),
    /// The container or its data does not fit the 32-bit RIFF length fields.
    DataTooLong,
}

/// An uncompressed WAVE file held in memory: format metadata and interleaved
/// little-endian sample bytes.
#[derive(Debug, Clone)]
pub struct WaveFile {
    pub format: Format,
    pub channels: u16,
    pub sample_rate: u32,
    pub bytes_per_sample: u16,
    pub data: Vec<u8>,
}

/// The tag that a format class carries in the `fmt ` chunk.
pub open spec fn format_code(format: Format) -> nat {
    match format {
        Format::PulseCodeModulation => 1,
        Format::FloatingPoint => 3,
    }
}

/// The RIFF size of a container less its data: 36 for PCM, and 50 for floating
/// point, which adds the `fmt ` extension size and a `fact` chunk.
pub open spec fn riff_overhead(format: Format) -> nat {
    match format {
        Format::PulseCodeModulation => 36,
        Format::FloatingPoint => 50,
    }
}

/// The size of the `fmt ` chunk's body.
pub open spec fn fmt_chunk_size(format: Format) -> nat {
    match format {
        Format::PulseCodeModulation => 16,
        Format::FloatingPoint => 18,
    }
}

/// The ASCII bytes `RIFF`.
pub open spec fn riff_tag() -> Seq<u8> {
    seq![0x52u8, 0x49u8, 0x46u8, 0x46u8]
}

/// The ASCII bytes `WAVE`.
pub open spec fn wave_tag() -> Seq<u8> {
    seq![0x57u8, 0x41u8, 0x56u8, 0x45u8]
}

/// The ASCII bytes `fmt ` (with a trailing space).
pub open spec fn fmt_tag() -> Seq<u8> {
    seq![0x66u8, 0x6du8, 0x74u8, 0x20u8]
}

/// The ASCII bytes `fact`.
pub open spec fn fact_tag() -> Seq<u8> {
    seq![0x66u8, 0x61u8, 0x63u8, 0x74u8]
}

/// The ASCII bytes `data`.
pub open spec fn data_tag() -> Seq<u8> {
    seq![0x64u8, 0x61u8, 0x74u8, 0x61u8]
}

/// The bytes of a sequence of samples, each converted to its PCM kind and
/// encoded little-endian, in order.
pub open spec fn samples_bytes(samples: Seq<Sample>) -> Seq<u8>
    decreases samples.len(),
{
    if samples.len() == 0 {
        Seq::empty()
    } else {
        samples_bytes(samples.drop_last()) + samples.last().wav_encoding()
    }
}

/// The interleaved bytes of a sequence of blocks: channel by channel within a
/// block, block by block.
pub open spec fn frames_bytes<const N: usize>(frames: Seq<Block<N>>) -> Seq<u8>
    decreases frames.len(),
{
    if frames.len() == 0 {
        Seq::empty()
    } else {
        frames_bytes(frames.drop_last()) + samples_bytes(frames.last().0@)
    }
}

impl WaveFile {
    /// At least one channel, and samples of at least one byte.
    pub open spec fn wf(self) -> bool {
        self.channels > 0 && self.bytes_per_sample > 0
    }

    /// The container's sizes fit the 32-bit RIFF length fields.
    pub open spec fn fits(self) -> bool {
        riff_overhead(self.format) + self.data@.len() <= u32::MAX
    }

    /// The fields of the `fmt ` chunk after its size. The byte rate and the
    /// bits per sample keep only the low bytes that their fields hold, and the
    /// block field holds the bytes per sample alone.
    pub open spec fn fmt_fields(self) -> Seq<u8> {
        le_bytes(format_code(self.format), 2)
            + le_bytes(self.channels as nat, 2)
            + le_bytes(self.sample_rate as nat, 4)
            + le_bytes((self.sample_rate * self.channels * self.bytes_per_sample) as nat, 4)
            + le_bytes(self.bytes_per_sample as nat, 2)
            + le_bytes((self.bytes_per_sample * 8) as nat, 2)
    }

    /// The extension size and `fact` chunk of a floating-point file; nothing for PCM.
    pub open spec fn fact_fields(self) -> Seq<u8> {
        match self.format {
            Format::PulseCodeModulation => Seq::empty(),
            Format::FloatingPoint => le_bytes(0, 2) + fact_tag() + le_bytes(4, 4)
                + le_bytes((self.data@.len() / (self.bytes_per_sample as nat)) as nat, 4),
        }
    }

    /// The complete RIFF/WAVE byte stream of this file.
    pub open spec fn container(self) -> Seq<u8> {
        riff_tag()
            + le_bytes(riff_overhead(self.format) + self.data@.len(), 4)
            + wave_tag()
            + fmt_tag()
            + le_bytes(fmt_chunk_size(self.format), 4)
            + self.fmt_fields()
            + self.fact_fields()
            + data_tag()
            + le_bytes(self.data@.len(), 4)
            + self.data@
    }

    /// Wrap bytes that are already encoded, with the metadata the caller gives
    /// for them; the bytes are copied as they are.
    pub fn from_raw_data(
        data: &[u8],
        format: Format,
        channels: u16,
        sample_rate: u32,
        bytes_per_sample: u16,
    ) -> (r: WaveFile)
        requires
            channels > 0,
            bytes_per_sample > 0,
        ensures
            r.wf(),
            r.format == format,
            r.channels == channels,
            r.sample_rate == sample_rate,
            r.bytes_per_sample == bytes_per_sample,
            r.data@ == data@,
    {
        WaveFile { format, channels, sample_rate, bytes_per_sample, data: slice_to_vec(data) }
    }
}

impl WaveFile {
    /// Append the file's RIFF/WAVE byte stream to `writer`.
    ///
    /// Fails with `DataTooLong`, leaving `writer` as it was, when the container
    /// does not fit the 32-bit RIFF length fields.
    pub fn write(&self, writer: &mut Vec<u8>) -> (r: Result<(), WaveFileWriteError>)
        requires
            self.wf(),
        ensures
            r is Ok <==> self.fits(),
            r is Ok ==> final(writer)@ == old(writer)@ + self.container(),
            r is Err ==> r == Err::<(), _>(WaveFileWriteError::DataTooLong) && final(writer)@ == old(writer)@,
    {
        let len = self.data.len();
        let float = match self.format {
            Format::FloatingPoint => true,
            Format::PulseCodeModulation => false,
        };
        let overhead: usize = if float { 50 } else { 36 };
        if len > 0xffff_ffff - overhead {
            return Err(WaveFileWriteError::DataTooLong);
        }
        let ghost start = writer@;
        push_tag(writer, 0x52, 0x49, 0x46, 0x46);
        push_le(writer, (overhead + len) as u128, 4);
        push_tag(writer, 0x57, 0x41, 0x56, 0x45);
        push_tag(writer, 0x66, 0x6d, 0x74, 0x20);
        push_le(writer, if float { 18 } else { 16 }, 4);
        let ghost before_fmt = writer@;
        self.push_fmt_fields(writer);
        let ghost before_fact = writer@;
        if float {
            self.push_fact_fields(writer);
        } else {
            assert(writer@ =~= before_fact + self.fact_fields());
        }
        let ghost before_data = writer@;
        push_tag(writer, 0x64, 0x61, 0x74, 0x61);
        push_le(writer, len as u128, 4);
        push_bytes(writer, self.data.as_slice());
        let ghost head = riff_tag() + le_bytes(riff_overhead(self.format) + self.data@.len(), 4)
            + wave_tag() + fmt_tag() + le_bytes(fmt_chunk_size(self.format), 4);
        assert(before_fmt =~= start + head);
        let ghost tail = data_tag() + le_bytes(self.data@.len(), 4) + self.data@;
        assert(writer@ =~= before_data + tail);
        assert(writer@ =~= start + self.container());
        Ok(())
    }

    /// Append the `fmt ` chunk's fields after its size.
    fn push_fmt_fields(&self, writer: &mut Vec<u8>)
        ensures
            final(writer)@ == old(writer)@ + self.fmt_fields(),
    {
        let float = match self.format {
            Format::FloatingPoint => true,
            Format::PulseCodeModulation => false,
        };
        push_le(writer, if float { 3 } else { 1 }, 2);
        push_le(writer, self.channels as u128, 2);
        push_le(writer, self.sample_rate as u128, 4);
        let rate = self.sample_rate as u128;
        let channels = self.channels as u128;
        let bytes = self.bytes_per_sample as u128;
        proof {
            assert(rate * channels <= 0xffff_ffff * 0xffff) by (nonlinear_arith)
                requires
                    rate <= 0xffff_ffff,
                    channels <= 0xffff,
            ;
            assert(rate * channels * bytes <= 0xffff_ffff * 0xffff * 0xffff) by (nonlinear_arith)
                requires
                    rate * channels <= 0xffff_ffff * 0xffff,
                    bytes <= 0xffff,
            ;
        }
        push_le(writer, rate * channels * bytes, 4);
        push_le(writer, bytes, 2);
        push_le(writer, bytes * 8, 2);
        assert(final(writer)@ =~= old(writer)@ + self.fmt_fields());
    }

    /// Append the extension size and `fact` chunk of a floating-point file.
    fn push_fact_fields(&self, writer: &mut Vec<u8>)
        requires
            self.wf(),
            self.format == Format::FloatingPoint,
        ensures
            final(writer)@ == old(writer)@ + self.fact_fields(),
    {
        push_le(writer, 0, 2);
        push_tag(writer, 0x66, 0x61, 0x63, 0x74);
        push_le(writer, 4, 4);
        push_le(writer, (self.data.len() / self.bytes_per_sample as usize) as u128, 4);
        assert(final(writer)@ =~= old(writer)@ + self.fact_fields());
    }

    /// Build a file of `channels` channels from sample bytes encoded elsewhere
    /// (floating-point samples, say), taking ownership of them.
    ///
    /// Returns `None` when `channels` is zero or more than 65535, the channel
    /// counts a 16-bit field cannot hold.
    pub fn from_encoded(
        data: Vec<u8>,
        format: Format,
        channels: usize,
        sample_rate: u32,
        bytes_per_sample: u16,
    ) -> (r: Option<WaveFile>)
        requires
            bytes_per_sample > 0,
        ensures
            r is None <==> (channels == 0 || channels > 0xffff),
            r matches Some(w) ==> {
                &&& w.wf()
                &&& w.format == format
                &&& w.channels == channels
                &&& w.sample_rate == sample_rate
                &&& w.bytes_per_sample == bytes_per_sample
                &&& w.data@ == data@
            },
    {
        if channels == 0 || channels > 0xffff {
            return None;
        }
        Some(WaveFile { format, channels: channels as u16, sample_rate, bytes_per_sample, data })
    }

    /// Build a file from blocks of `N` channels whose samples are all of `kind`:
    /// each sample is converted to its PCM kind and encoded little-endian, channel
    /// by channel within a block and block by block.
    ///
    /// Returns `None` when `N` is zero or more than 65535, the channel counts a
    /// 16-bit field cannot hold.
    pub fn from_samples<const N: usize>(
        frames: &Vec<Block<N>>,
        kind: SampleKind,
        sample_rate: u32,
    ) -> (r: Option<WaveFile>)
        requires
            forall|i: int| 0 <= i < frames@.len() ==> (#[trigger] frames@[i]).of_kind(kind),
        ensures
            r is None <==> (N == 0 || N > 0xffff),
            r matches Some(w) ==> {
                &&& w.wf()
                &&& w.format == kind.format()
                &&& w.channels == N
                &&& w.sample_rate == sample_rate
                &&& w.bytes_per_sample == kind.width()
                &&& w.data@ == frames_bytes(frames@)
            },
    {
        if N == 0 || N > 0xffff {
            return None;
        }
        let mut data: Vec<u8> = Vec::new();
        let mut i: usize = 0;
        while i < frames.len()
            invariant
                i <= frames@.len(),
                forall|k: int| 0 <= k < frames@.len() ==> (#[trigger] frames@[k]).of_kind(kind),
                data@ == frames_bytes(frames@.take(i as int)),
            decreases frames@.len() - i,
        {
            let block = &frames[i];
            let ghost done = data@;
            let mut j: usize = 0;
            while j < N
                invariant
                    i < frames@.len(),
                    *block == frames@[i as int],
                    block.of_kind(kind),
                    j <= N,
                    data@ == done + samples_bytes(block.0@.take(j as int)),
                decreases N - j,
            {
                let sample = block.0[j];
                let bytes = sample.wav_bytes();
                let ghost prev = data@;
                push_bytes(&mut data, bytes.as_slice());
                proof {
                    let taken = block.0@.take(j as int + 1);
                    assert(taken.drop_last() =~= block.0@.take(j as int));
                    assert(taken.last() == sample);
                }
                assert(data@ =~= done + samples_bytes(block.0@.take(j as int + 1)));
                j = j + 1;
            }
            proof {
                let taken = frames@.take(i as int + 1);
                assert(taken.drop_last() =~= frames@.take(i as int));
                assert(block.0@.take(N as int) =~= block.0@);
            }
            i = i + 1;
        }
        assert(frames@.take(frames@.len() as int) =~= frames@);
        Some(WaveFile {
            format: kind.sample_format(),
            channels: N as u16,
            sample_rate,
            bytes_per_sample: kind.bytes_per_sample(),
            data,
        })
    }
}

/// Append `bytes` to `out`.
fn push_bytes(out: &mut Vec<u8>, bytes: &[u8])
    ensures
        final(out)@ == old(out)@ + bytes@,
{
    let mut i: usize = 0;
    while i < bytes.len()
        invariant
            i <= bytes@.len(),
            out@ == old(out)@ + bytes@.take(i as int),
        decreases bytes@.len() - i,
    {
        out.push(bytes[i]);
        i = i + 1;
        assert(out@ =~= old(out)@ + bytes@.take(i as int));
    }
    assert(bytes@.take(i as int) =~= bytes@);
}

/// Append the `n` low-order bytes of `x`, least significant first.
fn push_le(out: &mut Vec<u8>, x: u128, n: usize)
    ensures
        final(out)@ == old(out)@ + le_bytes(x as nat, n as nat),
{
    let bytes = le_bytes_of(x, n);
    push_bytes(out, bytes.as_slice());
}

/// Append the four bytes `a b c d`.
fn push_tag(out: &mut Vec<u8>, a: u8, b: u8, c: u8, d: u8)
    ensures
        final(out)@ == old(out)@ + seq![a, b, c, d],
{
    out.push(a);
    out.push(b);
    out.push(c);
    out.push(d);
    assert(final(out)@ =~= old(out)@ + seq![a, b, c, d]);
}

/// The number that a little-endian byte sequence denotes.
pub open spec fn le_value(b: Seq<u8>) -> nat
    decreases b.len(),
{
    if b.len() == 0 {
        0
    } else {
        b[0] as nat + 256 * le_value(b.subrange(1, b.len() as int))
    }
}

/// 256 to the power `n`: one more than the largest number `n` bytes hold.
pub open spec fn pow256(n: nat) -> nat
    decreases n,
{
    if n == 0 {
        1
    } else {
        256 * pow256((n - 1) as nat)
    }
}

proof fn lemma_le_bytes_len(x: nat, n: nat)
    ensures
        le_bytes(x, n).len() == n,
    decreases n,
{
    if n > 0 {
        lemma_le_bytes_len(x / 256, (n - 1) as nat);
    }
}

/// Decoding the `n` little-endian bytes of a number that fits in them gives it back.
pub proof fn lemma_le_round_trip(x: nat, n: nat)
    requires
        x < pow256(n),
    ensures
        le_value(le_bytes(x, n)) == x,
    decreases n,
{
    if n > 0 {
        let b = le_bytes(x, n);
        let q = x / 256;
        let p = pow256((n - 1) as nat);
        lemma_le_bytes_len(q, (n - 1) as nat);
        assert(b.subrange(1, b.len() as int) =~= le_bytes(q, (n - 1) as nat));
        lemma_fundamental_div_mod(x as int, 256);
        assert(q < p) by (nonlinear_arith)
            requires
                x == 256 * q + x % 256,
                0 <= x % 256,
                x < 256 * p,
        ;
        lemma_le_round_trip(q, (n - 1) as nat);
    }
}

/// Reading back the header fields and the data chunk of a written file gives
/// the file's format tag, channel count, sample rate, bytes per sample, data
/// length and data. The data chunk starts after 44 bytes, or 58 where the
/// format tag is that of floating point.
pub proof fn lemma_round_trip(w: WaveFile)
    requires
        w.wf(),
        w.fits(),
    ensures
        ({
            let c = w.container();
            let start: int = if le_value(c.subrange(20, 22)) == 3 {
                58
            } else {
                44
            };
            &&& c.subrange(0, 4) == riff_tag()
            &&& le_value(c.subrange(20, 22)) == format_code(w.format)
            &&& le_value(c.subrange(22, 24)) == w.channels
            &&& le_value(c.subrange(24, 28)) == w.sample_rate
            &&& le_value(c.subrange(32, 34)) == w.bytes_per_sample
            &&& c.subrange(start - 8, start - 4) == data_tag()
            &&& le_value(c.subrange(start - 4, start)) == w.data@.len()
            &&& c.subrange(start, c.len() as int) == w.data@
        }),
{
    reveal_with_fuel(pow256, 5);
    let c = w.container();
    let len = w.data@.len();
    let rate = (w.sample_rate * w.channels * w.bytes_per_sample) as nat;
    let bits = (w.bytes_per_sample * 8) as nat;
    let count = (len / (w.bytes_per_sample as nat)) as nat;
    lemma_le_bytes_len(riff_overhead(w.format) + len, 4);
    lemma_le_bytes_len(fmt_chunk_size(w.format), 4);
    lemma_le_bytes_len(format_code(w.format), 2);
    lemma_le_bytes_len(w.channels as nat, 2);
    lemma_le_bytes_len(w.sample_rate as nat, 4);
    lemma_le_bytes_len(rate, 4);
    lemma_le_bytes_len(w.bytes_per_sample as nat, 2);
    lemma_le_bytes_len(bits, 2);
    lemma_le_bytes_len(0, 2);
    lemma_le_bytes_len(4, 4);
    lemma_le_bytes_len(count, 4);
    lemma_le_bytes_len(len, 4);
    assert(c.subrange(0, 4) =~= riff_tag());
    assert(c.subrange(20, 22) =~= le_bytes(format_code(w.format), 2));
    assert(c.subrange(22, 24) =~= le_bytes(w.channels as nat, 2));
    assert(c.subrange(24, 28) =~= le_bytes(w.sample_rate as nat, 4));
    assert(c.subrange(32, 34) =~= le_bytes(w.bytes_per_sample as nat, 2));
    lemma_le_round_trip(format_code(w.format), 2);
    lemma_le_round_trip(w.channels as nat, 2);
    lemma_le_round_trip(w.sample_rate as nat, 4);
    lemma_le_round_trip(w.bytes_per_sample as nat, 2);
    lemma_le_round_trip(len, 4);
    let start: int = if w.format == Format::FloatingPoint {
        58
    } else {
        44
    };
    assert(c.subrange(start - 8, start - 4) =~= data_tag());
    assert(c.subrange(start - 4, start) =~= le_bytes(len, 4));
    assert(c.subrange(start, c.len() as int) =~= w.data@);
}

} // verus!
