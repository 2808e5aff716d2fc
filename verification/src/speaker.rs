//! The audio bridge: output format negotiation and the per-callback
//! bookkeeping of a device-driven audio stream.
//!
//! The device side (enumeration, the stream itself, the callback thread)
//! lives in the unverified shell; this module decides which format to open
//! and, for every buffer the device demands, how many samples to
//! synthesize and what the samples-played counter becomes.  The counter
//! increases by exactly the demanded sample count per callback and is
//! never reset, so a synthesizer always observes strictly increasing,
//! never repeated positions.

use vstd::prelude::*;

use crate::error::Error;
use crate::SAMPLES_PER_SECOND;

verus! {

/// The number of output channels the runtime uses: stereo.
pub const CHANNELS: u16 = 2;

/// Sample representations an audio device may expose.
#[derive(Copy, Clone, Debug, PartialEq, Eq)]
pub enum SampleFormat {
    /// Signed 16-bit integer samples
    I16,
    /// Unsigned 16-bit integer samples
    U16,
    /// 32-bit float samples
    F32,
}

/// One supported output format range as enumerated from the device.
#[derive(Copy, Clone, Debug, PartialEq, Eq)]
pub struct FormatRange {
    /// Number of interleaved channels
    pub channels: u16,
    /// Lowest supported sample rate, in samples per second
    pub min_sample_rate: u32,
    /// Highest supported sample rate, in samples per second
    pub max_sample_rate: u32,
    /// The sample representation
    pub data_type: SampleFormat,
}

/// How synthesized float samples are converted for the device.
#[derive(Copy, Clone, Debug, PartialEq, Eq)]
pub enum ConversionPath {
    /// The device takes floats: copy the samples through unchanged
    FloatPassthrough,
    /// The device takes signed 16-bit integers: scale linearly
    SignedScaling,
    /// The device takes unsigned 16-bit integers: scale linearly and
    /// shift the midpoint
    UnsignedScaling,
}

/// Whether a format qualifies: exactly two channels, and the target
/// sample rate inside its supported range.
pub open spec fn qualifies(f: FormatRange) -> bool {
    &&& f.channels == CHANNELS
    &&& f.min_sample_rate <= SAMPLES_PER_SECOND
    &&& SAMPLES_PER_SECOND <= f.max_sample_rate
}

/// Preference rank of a sample representation, smaller being better.
/// Floats come first as the universal real-time format, then signed
/// before unsigned integers; this follows the platform's own default
/// preference order among these representations.
pub open spec fn format_rank(t: SampleFormat) -> int {
    match t {
        SampleFormat::F32 => 0,
        SampleFormat::I16 => 1,
        SampleFormat::U16 => 2,
    }
}

/// Whether any listed format qualifies.
pub open spec fn any_qualifying(formats: Seq<FormatRange>) -> bool {
    exists|i: int| 0 <= i < formats.len() && qualifies(#[trigger] formats[i])
}

/// Whether index `i` is the selected format: the first qualifying entry of
/// the best rank among all qualifying entries.
pub open spec fn is_selected(formats: Seq<FormatRange>, i: int) -> bool {
    &&& 0 <= i < formats.len()
    &&& qualifies(formats[i])
    &&& forall|j: int|
        0 <= j < formats.len() && qualifies(#[trigger] formats[j]) ==> format_rank(
            formats[i].data_type,
        ) <= format_rank(formats[j].data_type)
    &&& forall|j: int|
        0 <= j < i && qualifies(#[trigger] formats[j]) ==> format_rank(formats[i].data_type)
            < format_rank(formats[j].data_type)
}

/// The conversion path matching a sample representation.
pub open spec fn conversion_of(t: SampleFormat) -> ConversionPath {
    match t {
        SampleFormat::F32 => ConversionPath::FloatPassthrough,
        SampleFormat::I16 => ConversionPath::SignedScaling,
        SampleFormat::U16 => ConversionPath::UnsignedScaling,
    }
}

/// The sum of a sequence of sample counts.
pub open spec fn sum_of(counts: Seq<int>) -> int
    decreases counts.len(),
{
    if counts.len() == 0 {
        0
    } else {
        sum_of(counts.drop_last()) + counts.last()
    }
}

/// Preference rank, executable.
fn rank_of(t: SampleFormat) -> (r: u8)
    ensures
        r as int == format_rank(t),
{
    match t {
        SampleFormat::F32 => 0,
        SampleFormat::I16 => 1,
        SampleFormat::U16 => 2,
    }
}

/// The conversion path matching a sample representation.
pub fn conversion_for(t: SampleFormat) -> (c: ConversionPath)
    ensures
        c == conversion_of(t),
{
    match t {
        SampleFormat::F32 => ConversionPath::FloatPassthrough,
        SampleFormat::I16 => ConversionPath::SignedScaling,
        SampleFormat::U16 => ConversionPath::UnsignedScaling,
    }
}

/// Whether a format qualifies, executable.
fn format_qualifies(f: &FormatRange) -> (b: bool)
    ensures
        b == qualifies(*f),
{
    f.channels == CHANNELS && f.min_sample_rate <= SAMPLES_PER_SECOND && SAMPLES_PER_SECOND
        <= f.max_sample_rate
}

/// Select the output format: among the formats with two channels covering
/// the target sample rate, the first of the best preference rank; an error
/// if none qualifies.
pub fn select_output_format(formats: &Vec<FormatRange>) -> (r: Result<FormatRange, Error>)
    ensures
        match r {
            Ok(f) => exists|i: int| is_selected(formats@, i) && formats@[i] == f,
            Err(e) => !any_qualifying(formats@) && e is AudioOutputDoesNotSupport48khzSampleRate,
        },
{
    let mut best: Option<(usize, u8)> = None;
    let mut i: usize = 0;
    while i < formats.len()
        invariant
            0 <= i <= formats@.len(),
            match best {
                None => forall|j: int| 0 <= j < i ==> !qualifies(#[trigger] formats@[j]),
                Some((bi, br)) => {
                    &&& 0 <= bi < i
                    &&& qualifies(formats@[bi as int])
                    &&& br as int == format_rank(formats@[bi as int].data_type)
                    &&& forall|j: int|
                        0 <= j < i && qualifies(#[trigger] formats@[j]) ==> br as int
                            <= format_rank(formats@[j].data_type)
                    &&& forall|j: int|
                        0 <= j < bi && qualifies(#[trigger] formats@[j]) ==> (br as int)
                            < format_rank(formats@[j].data_type)
                },
            },
        decreases formats@.len() - i,
    {
        let f = formats[i];
        if format_qualifies(&f) {
            let r = rank_of(f.data_type);
            match best {
                None => {
                    best = Some((i, r));
                },
                Some((_, br)) => {
                    if r < br {
                        best = Some((i, r));
                    }
                },
            }
        }
        i = i + 1;
    }
    match best {
        Some((bi, _)) => {
            proof {
                assert(is_selected(formats@, bi as int));
            }
            Ok(formats[bi])
        },
        None => Err(Error::AudioOutputDoesNotSupport48khzSampleRate),
    }
}

/// Bridges a pull-based synthesizer to a push-based device-driven output
/// stream: holds the negotiated format and the samples-played counter.
pub struct Speaker {
    /// The negotiated output format.
    format: FormatRange,
    /// Samples written by all previous callbacks together.
    samples_played: u64,
    /// The sample count of every callback served, in order.
    requested: Ghost<Seq<int>>,
}

impl Speaker {
    /// The negotiated output format.
    pub closed spec fn format(self) -> FormatRange {
        self.format
    }

    /// Samples written by all previous callbacks together.
    pub closed spec fn samples_played(self) -> u64 {
        self.samples_played
    }

    /// The sample count of every callback served, in order.
    pub closed spec fn requested(self) -> Seq<int> {
        self.requested@
    }

    /// The bridge invariant: the counter is exactly the sum of all counts
    /// ever requested, each of them non-negative.
    pub open spec fn wf(self) -> bool {
        &&& self.samples_played() == sum_of(self.requested())
        &&& forall|i: int| 0 <= i < self.requested().len() ==> #[trigger] self.requested()[i] >= 0
    }

    /// Negotiate the output stream.  `formats` is the device's supported
    /// output formats, or `None` when no output device exists.  Fails with
    /// a dedicated error when there is no device or no format qualifies.
    pub fn new(formats: Option<&Vec<FormatRange>>) -> (r: Result<Speaker, Error>)
        ensures
            match formats {
                None => r matches Err(Error::AudioOutputDeviceInitialization),
                Some(f) => match r {
                    Ok(s) => {
                        &&& s.wf()
                        &&& s.samples_played() == 0
                        &&& s.requested().len() == 0
                        &&& exists|i: int| is_selected(f@, i) && f@[i] == s.format()
                    },
                    Err(e) => !any_qualifying(f@)
                        && e is AudioOutputDoesNotSupport48khzSampleRate,
                },
            },
    {
        match formats {
            None => Err(Error::AudioOutputDeviceInitialization),
            Some(f) => {
                let format = select_output_format(f)?;
                Ok(Speaker { format, samples_played: 0, requested: Ghost(Seq::empty()) })
            },
        }
    }

    /// The negotiated output format.
    pub fn output_format(&self) -> (f: FormatRange)
        ensures
            f == self.format(),
    {
        self.format
    }

    /// Samples written by all previous callbacks together.
    pub fn total_samples_played(&self) -> (n: u64)
        ensures
            n == self.samples_played(),
    {
        self.samples_played
    }

    /// Serve one device callback.  The device's buffer holds `buffer_len`
    /// interleaved channel values, so the demanded sample count is
    /// `buffer_len` divided by the channel count.  Returns the position to
    /// hand the synthesizer — the counter before this callback — and the
    /// demanded count; the counter advances by exactly that count.
    pub fn begin_callback(&mut self, buffer_len: usize) -> (r: (u64, usize))
        requires
            old(self).wf(),
            old(self).samples_played() + buffer_len as int / 2 <= u64::MAX,
        ensures
            final(self).wf(),
            final(self).format() == old(self).format(),
            r.0 == old(self).samples_played(),
            r.1 == buffer_len as int / 2,
            final(self).samples_played() == old(self).samples_played() + r.1,
            final(self).requested() == old(self).requested().push(r.1 as int),
            old(self).samples_played() <= final(self).samples_played(),
            buffer_len >= 2 ==> old(self).samples_played() < final(self).samples_played(),
    {
        let sample_count = buffer_len / (CHANNELS as usize);
        let position = self.samples_played;
        self.samples_played = self.samples_played + sample_count as u64;
        proof {
            self.requested@ = self.requested@.push(sample_count as int);
            assert(self.requested@.drop_last() =~= old(self).requested());
        }
        (position, sample_count)
    }
}

/// Law: the samples-played counter after any sequence of device callbacks
/// equals the sum of the sample counts they requested — nothing is ever
/// skipped, repeated or reset.
pub proof fn lemma_samples_played_is_sum(speaker: &Speaker)
    requires
        speaker.wf(),
    ensures
        speaker.samples_played() == sum_of(speaker.requested()),
{
}

/// Interleave stereo sample pairs into a flat buffer: pair `i` lands at
/// positions `2 * i` (left) and `2 * i + 1` (right).
pub fn interleave_stereo<T: Copy>(samples: &Vec<(T, T)>) -> (out: Vec<T>)
    requires
        samples@.len() * 2 <= usize::MAX,
    ensures
        out@.len() == samples@.len() * 2,
        forall|i: int|
            0 <= i < samples@.len() ==> out@[2 * i] == (#[trigger] samples@[i]).0 && out@[2 * i
                + 1] == samples@[i].1,
{
    let mut out: Vec<T> = Vec::new();
    let mut i: usize = 0;
    while i < samples.len()
        invariant
            0 <= i <= samples@.len(),
            samples@.len() * 2 <= usize::MAX,
            out@.len() == i * 2,
            forall|j: int|
                0 <= j < i ==> out@[2 * j] == (#[trigger] samples@[j]).0 && out@[2 * j + 1]
                    == samples@[j].1,
        decreases samples@.len() - i,
    {
        let pair = samples[i];
        out.push(pair.0);
        out.push(pair.1);
        i = i + 1;
    }
    out
}

} // verus!
