//! Microphone signal handling: sample formats, silence detection with
//! hysteresis, echo suppression while synthesized speech plays, the buffer
//! that gathers samples into resampler chunks, and the packets sent to the
//! translation service.

use vstd::prelude::*;
use crate::text::join;
use vstd::string::*;

verus! {

/// Consecutive quiet frames after which the input counts as silent.
pub const SILENCE_SUSTAIN_FRAMES: u64 = 30;

/// Consecutive quiet frames after which the session pauses its connection
/// (about a minute of audio at fifty frames a second).
pub const AUTO_PAUSE_FRAMES: u64 = 3000;

/// How long after the last synthesized-speech playback the microphone is
/// muted, in milliseconds.
pub const ECHO_COOLDOWN_MS: i64 = 150;

/// The most samples one packet to the translation service carries.
pub const PACKET_SAMPLES: usize = 1280;

/// The tuning of the signal handling: silence after 30 quiet frames, a
/// pause after 3000 (about a minute at fifty frames a second), 150 ms of
/// muting after synthesized speech, packets of at most 1280 samples.
pub proof fn lemma_signal_tuning()
    ensures
        SILENCE_SUSTAIN_FRAMES == 30,
        AUTO_PAUSE_FRAMES == 3000,
        ECHO_COOLDOWN_MS == 150,
        PACKET_SAMPLES == 1280,
{
}

/// The loudness of one microphone frame, by its root mean square `rms`:
/// `Quiet` below the silence threshold (0.01), `Low` from there to below the
/// wake threshold (0.02), `Loud` from the wake threshold on, and
/// `Unmeasured` when `rms` is not a number and so compares false with both.
#[derive(Clone, Copy, Debug, PartialEq, Eq, Structural)]
pub enum AudioLevel {
    Quiet,
    Low,
    Loud,
    Unmeasured,
}

/// A frame counts as quiet: under the silence threshold while sound is
/// heard, under the wake threshold once silence holds.
pub open spec fn is_quiet(level: AudioLevel, in_silence: bool) -> bool {
    if in_silence {
        level == AudioLevel::Quiet || level == AudioLevel::Low
    } else {
        level == AudioLevel::Quiet
    }
}

/// The tracker after one frame at `level`: a quiet frame adds to the
/// count, and silence sets in when the count reaches
/// `SILENCE_SUSTAIN_FRAMES`; any other frame clears both.
pub open spec fn observed(t: SilenceTracker, level: AudioLevel) -> SilenceTracker {
    if is_quiet(level, t.in_silence) {
        SilenceTracker {
            silent_frames: (t.silent_frames + 1) as u64,
            in_silence: t.in_silence || t.silent_frames + 1 == SILENCE_SUSTAIN_FRAMES,
        }
    } else {
        SilenceTracker { silent_frames: 0, in_silence: false }
    }
}

/// Counts quiet frames and decides when the input is silent.
#[derive(Clone, Copy, Debug, PartialEq, Eq, Structural)]
pub struct SilenceTracker {
    /// Consecutive quiet frames so far.
    pub silent_frames: u64,
    /// Whether silence holds.
    pub in_silence: bool,
}

impl SilenceTracker {
    /// Silence holds exactly when enough quiet frames were counted, and the
    /// count never passes the auto-pause point.
    pub open spec fn wf(&self) -> bool {
        &&& self.silent_frames <= AUTO_PAUSE_FRAMES
        &&& self.in_silence <==> self.silent_frames >= SILENCE_SUSTAIN_FRAMES
    }

    /// Whether the connection is to pause.
    pub open spec fn pause_due(&self) -> bool {
        self.in_silence && self.silent_frames >= AUTO_PAUSE_FRAMES
    }

    /// No quiet frame counted, sound heard.
    pub fn new() -> (t: SilenceTracker)
        ensures
            t.silent_frames == 0,
            !t.in_silence,
            t.wf(),
    {
        SilenceTracker { silent_frames: 0, in_silence: false }
    }

    /// Takes one frame into account (see `observed`).
    pub fn observe(&mut self, level: AudioLevel)
        requires
            old(self).wf(),
            !old(self).pause_due(),
        ensures
            *final(self) == observed(*old(self), level),
            final(self).wf(),
    {
        let quiet = if self.in_silence {
            level == AudioLevel::Quiet || level == AudioLevel::Low
        } else {
            level == AudioLevel::Quiet
        };
        if quiet {
            self.silent_frames = self.silent_frames + 1;
            if self.silent_frames == SILENCE_SUSTAIN_FRAMES {
                self.in_silence = true;
            }
        } else {
            self.silent_frames = 0;
            self.in_silence = false;
        }
    }

    /// Whether the connection is to pause: silence has lasted
    /// `AUTO_PAUSE_FRAMES` frames.
    pub fn should_pause(&self) -> (b: bool)
        ensures
            b == self.pause_due(),
    {
        self.in_silence && self.silent_frames >= AUTO_PAUSE_FRAMES
    }
}

/// The tracker right after sound: no quiet frame counted, no silence.
pub open spec fn sound_heard() -> SilenceTracker {
    SilenceTracker { silent_frames: 0, in_silence: false }
}

/// Silence detection has hysteresis: a frame between the two thresholds
/// keeps silence once it holds but does not count towards it before; a loud
/// or unmeasurable frame always ends it; and silence sets in exactly at the
/// `SILENCE_SUSTAIN_FRAMES`-th consecutive quiet frame.
pub proof fn lemma_silence_hysteresis(t: SilenceTracker)
    requires
        t.wf(),
        !t.pause_due(),
    ensures
        t.in_silence ==> observed(t, AudioLevel::Low).in_silence,
        !t.in_silence ==> observed(t, AudioLevel::Low) == sound_heard(),
        observed(t, AudioLevel::Loud) == sound_heard(),
        observed(t, AudioLevel::Unmeasured) == sound_heard(),
        observed(t, AudioLevel::Quiet).silent_frames == t.silent_frames + 1,
        forall|level: AudioLevel|
            !t.in_silence && (#[trigger] observed(t, level)).in_silence ==> observed(
                t,
                level,
            ).silent_frames == SILENCE_SUSTAIN_FRAMES,
{
}

/// The tracker after frames at `levels`, oldest first.
pub open spec fn observe_all(t: SilenceTracker, levels: Seq<AudioLevel>) -> SilenceTracker
    decreases levels.len(),
{
    if levels.len() == 0 {
        t
    } else {
        observed(observe_all(t, levels.drop_last()), levels.last())
    }
}

/// The last `k` frames form a run of quiet input: the first
/// `SILENCE_SUSTAIN_FRAMES` of them (all of them, when fewer) are under the
/// silence threshold, the later ones under the wake threshold.
pub open spec fn quiet_run(levels: Seq<AudioLevel>, k: int) -> bool {
    &&& 0 <= k <= levels.len()
    &&& forall|i: int|
        levels.len() - k <= i < levels.len() ==> if i < levels.len() - k
            + SILENCE_SUSTAIN_FRAMES {
            #[trigger] levels[i] == AudioLevel::Quiet
        } else {
            levels[i] == AudioLevel::Quiet || levels[i] == AudioLevel::Low
        }
}

/// The frames end with a quiet run of at least `SILENCE_SUSTAIN_FRAMES`
/// frames.
pub open spec fn silence_reached(levels: Seq<AudioLevel>) -> bool {
    exists|k: int| k >= SILENCE_SUSTAIN_FRAMES && #[trigger] quiet_run(levels, k)
}

/// From sound, the tracker counts the frames of the quiet run the input
/// ends with, and holds silence exactly when that count reached
/// `SILENCE_SUSTAIN_FRAMES`.
pub proof fn lemma_observe_all_counts_run(levels: Seq<AudioLevel>)
    requires
        levels.len() < u64::MAX,
    ensures
        observe_all(sound_heard(), levels).silent_frames <= levels.len(),
        observe_all(sound_heard(), levels).in_silence <==> observe_all(
            sound_heard(),
            levels,
        ).silent_frames >= SILENCE_SUSTAIN_FRAMES,
        quiet_run(levels, observe_all(sound_heard(), levels).silent_frames as int),
    decreases levels.len(),
{
    if levels.len() > 0 {
        let prev = levels.drop_last();
        lemma_observe_all_counts_run(prev);
        let t0 = observe_all(sound_heard(), prev);
        let t = observe_all(sound_heard(), levels);
        let n = levels.len() as int;
        let c = t.silent_frames as int;
        assert forall|i: int| n - c <= i < n implies if i < n - c + SILENCE_SUSTAIN_FRAMES {
            #[trigger] levels[i] == AudioLevel::Quiet
        } else {
            levels[i] == AudioLevel::Quiet || levels[i] == AudioLevel::Low
        } by {
            if i < n - 1 {
                assert(levels[i] == prev[i]);
            }
        }
    }
}

/// Quiet frames always count: a quiet run of `k` frames at the end of the
/// input leaves a count of at least `k`.
pub proof fn lemma_quiet_run_counted(levels: Seq<AudioLevel>, k: int)
    requires
        levels.len() < u64::MAX,
        quiet_run(levels, k),
    ensures
        observe_all(sound_heard(), levels).silent_frames >= k,
    decreases levels.len(),
{
    if k > 0 {
        let prev = levels.drop_last();
        let n = levels.len() as int;
        assert forall|i: int| prev.len() - (k - 1) <= i < prev.len() implies if i < prev.len() - (
        k - 1) + SILENCE_SUSTAIN_FRAMES {
            #[trigger] prev[i] == AudioLevel::Quiet
        } else {
            prev[i] == AudioLevel::Quiet || prev[i] == AudioLevel::Low
        } by {
            assert(prev[i] == levels[i]);
        }
        lemma_quiet_run_counted(prev, k - 1);
        lemma_observe_all_counts_run(prev);
        assert(levels[n - 1] == levels.last());
    }
}

/// Silence holds after a run of input from sound exactly when the input
/// ends with a quiet run of at least `SILENCE_SUSTAIN_FRAMES` frames: the
/// first `SILENCE_SUSTAIN_FRAMES` under the silence threshold, the rest under
/// the wake threshold.
pub proof fn lemma_silence_is_quiet_run(levels: Seq<AudioLevel>)
    requires
        levels.len() < u64::MAX,
    ensures
        observe_all(sound_heard(), levels).in_silence <==> silence_reached(levels),
{
    lemma_observe_all_counts_run(levels);
    let t = observe_all(sound_heard(), levels);
    if t.in_silence {
        assert(quiet_run(levels, t.silent_frames as int));
    }
    if silence_reached(levels) {
        let k = choose|k: int| k >= SILENCE_SUSTAIN_FRAMES && #[trigger] quiet_run(levels, k);
        lemma_quiet_run_counted(levels, k);
    }
}

/// Synthesized speech played less than `ECHO_COOLDOWN_MS` ago, so the
/// microphone may be hearing it (a playback time of 0 or less means none yet).
pub open spec fn echo_window(now_ms: int, last_played_ms: int) -> bool {
    last_played_ms > 0 && now_ms - last_played_ms < ECHO_COOLDOWN_MS
}

/// The echo window depends only on whether speech has played (a positive
/// playback time) and on the time elapsed since: whatever the size of the
/// playback time, the microphone is muted for exactly the
/// `ECHO_COOLDOWN_MS` milliseconds that follow it (and before it, should the
/// clock go back), and never when no speech has played.
pub proof fn lemma_echo_window_by_elapsed_time(now_ms: int, last_played_ms: int)
    ensures
        last_played_ms > 0 && 0 <= now_ms - last_played_ms < 150 ==> echo_window(
            now_ms,
            last_played_ms,
        ),
        last_played_ms > 0 && now_ms - last_played_ms < 0 ==> echo_window(now_ms, last_played_ms),
        now_ms - last_played_ms >= 150 ==> !echo_window(now_ms, last_played_ms),
        last_played_ms <= 0 ==> !echo_window(now_ms, last_played_ms),
{
}

/// Two playbacks, of any sizes, seen after the same elapsed time give the
/// same muting decision.
pub proof fn lemma_echo_window_shift_invariant(
    now_ms: int,
    last_played_ms: int,
    later_now_ms: int,
    later_played_ms: int,
)
    requires
        last_played_ms > 0,
        later_played_ms > 0,
        now_ms - last_played_ms == later_now_ms - later_played_ms,
    ensures
        echo_window(now_ms, last_played_ms) == echo_window(later_now_ms, later_played_ms),
{
}

/// The time since the last playback, computed only when there was one,
/// fits in an `i64` (the computation would overflow otherwise).
pub open spec fn no_echo_overflow(now_ms: i64, last_played_ms: i64) -> bool {
    last_played_ms > 0 ==> now_ms - last_played_ms >= i64::MIN
}

/// Whether the microphone is to be muted against the echo of synthesized
/// speech (see `echo_window`).
pub fn echo_active(now_ms: i64, last_played_ms: i64) -> (b: bool)
    requires
        no_echo_overflow(now_ms, last_played_ms),
    ensures
        b == echo_window(now_ms as int, last_played_ms as int),
{
    last_played_ms > 0 && now_ms - last_played_ms < ECHO_COOLDOWN_MS
}

/// Samples waiting to be resampled, oldest first.
pub struct SampleBuffer<T> {
    samples: Vec<T>,
}

impl<T> View for SampleBuffer<T> {
    type V = Seq<T>;

    closed spec fn view(&self) -> Seq<T> {
        self.samples@
    }
}

impl<T: Copy> SampleBuffer<T> {
    /// An empty buffer.
    pub fn new() -> (b: SampleBuffer<T>)
        ensures
            b@ == Seq::<T>::empty(),
    {
        SampleBuffer { samples: Vec::new() }
    }

    /// How many samples wait.
    pub fn len(&self) -> (n: usize)
        ensures
            n == self@.len(),
    {
        self.samples.len()
    }

    /// Appends `samples`.
    pub fn push_samples(&mut self, samples: &[T])
        ensures
            final(self)@ == old(self)@ + samples@,
    {
        let ghost before = self@;
        let mut k: usize = 0;
        while k < samples.len()
            invariant
                k <= samples@.len(),
                self@ == before + samples@.take(k as int),
            decreases samples@.len() - k,
        {
            let x = samples[k];
            self.samples.push(x);
            assert(samples@.take(k + 1) =~= samples@.take(k as int).push(x));
            k = k + 1;
        }
        assert(samples@.take(samples@.len() as int) =~= samples@);
    }

    /// Appends `count` copies of `fill`.
    pub fn push_fill(&mut self, fill: T, count: usize)
        ensures
            final(self)@ == old(self)@ + Seq::new(count as nat, |i: int| fill),
    {
        let ghost before = self@;
        let mut k: usize = 0;
        while k < count
            invariant
                k <= count,
                self@ == before + Seq::new(k as nat, |i: int| fill),
            decreases count - k,
        {
            self.samples.push(fill);
            assert(Seq::new((k + 1) as nat, |i: int| fill) =~= Seq::new(k as nat, |i: int| fill).push(
                fill,
            ));
            k = k + 1;
        }
    }

    /// Removes and returns the `n` oldest samples, when that many wait.
    pub fn take_front(&mut self, n: usize) -> (chunk: Option<Vec<T>>)
        ensures
            n <= old(self)@.len() ==> {
                &&& chunk is Some
                &&& chunk->0@ == old(self)@.take(n as int)
                &&& final(self)@ == old(self)@.skip(n as int)
            },
            n > old(self)@.len() ==> chunk is None && final(self)@ == old(self)@,
    {
        if n > self.samples.len() {
            return None;
        }
        let mut chunk = self.samples.split_off(n);
        std::mem::swap(&mut self.samples, &mut chunk);
        assert(chunk@ =~= old(self)@.take(n as int));
        assert(self@ =~= old(self)@.skip(n as int));
        Some(chunk)
    }

    /// Drops every waiting sample.
    pub fn clear(&mut self)
        ensures
            final(self)@ == Seq::<T>::empty(),
    {
        self.samples.clear();
    }
}

/// The packets that `pcm` is sent in: consecutive pieces of
/// `PACKET_SAMPLES` samples, the last one possibly shorter.
pub open spec fn packets_of<T>(pcm: Seq<T>) -> Seq<Seq<T>>
    decreases pcm.len(),
{
    if pcm.len() == 0 {
        Seq::empty()
    } else if pcm.len() <= PACKET_SAMPLES {
        seq![pcm]
    } else {
        seq![pcm.take(PACKET_SAMPLES as int)] + packets_of(pcm.skip(PACKET_SAMPLES as int))
    }
}

/// The concatenation of `parts`.
pub open spec fn flatten<T>(parts: Seq<Seq<T>>) -> Seq<T>
    decreases parts.len(),
{
    if parts.len() == 0 {
        Seq::empty()
    } else {
        parts[0] + flatten(parts.drop_first())
    }
}

/// Splits resampled audio into the packets it is sent in (see `packets_of`).
pub fn split_packets(pcm: &[i16]) -> (packets: Vec<Vec<i16>>)
    ensures
        packets@.len() == packets_of(pcm@).len(),
        forall|k: int| 0 <= k < packets@.len() ==> #[trigger] packets@[k]@ == packets_of(pcm@)[k],
{
    let n = pcm.len();
    let mut packets: Vec<Vec<i16>> = Vec::new();
    let mut offset: usize = 0;
    let ghost mut done: Seq<Seq<i16>> = Seq::empty();
    assert(pcm@.skip(0) =~= pcm@);
    while offset < n
        invariant
            n == pcm@.len(),
            offset <= n,
            packets@.len() == done.len(),
            forall|k: int| 0 <= k < packets@.len() ==> #[trigger] packets@[k]@ == done[k],
            done + packets_of(pcm@.skip(offset as int)) == packets_of(pcm@),
        decreases n - offset,
    {
        let rest = n - offset;
        let end = if rest <= PACKET_SAMPLES { n } else { offset + PACKET_SAMPLES };
        let mut piece: Vec<i16> = Vec::new();
        let mut k: usize = offset;
        while k < end
            invariant
                n == pcm@.len(),
                offset <= k <= end <= n,
                piece@ == pcm@.subrange(offset as int, k as int),
            decreases end - k,
        {
            piece.push(pcm[k]);
            assert(pcm@.subrange(offset as int, k + 1) =~= pcm@.subrange(offset as int, k as int).push(
                pcm@[k as int],
            ));
            k = k + 1;
        }
        let ghost tail = pcm@.skip(offset as int);
        proof {
            if rest <= PACKET_SAMPLES {
                assert(piece@ =~= tail);
                assert(pcm@.skip(end as int) =~= Seq::<i16>::empty());
                assert(packets_of(pcm@.skip(end as int)) =~= Seq::<Seq<i16>>::empty());
                assert(packets_of(tail) =~= seq![piece@]);
            } else {
                assert(piece@ =~= tail.take(PACKET_SAMPLES as int));
                assert(tail.skip(PACKET_SAMPLES as int) =~= pcm@.skip(end as int));
            }
            assert(done.push(piece@) + packets_of(pcm@.skip(end as int)) =~= done + packets_of(tail));
            done = done.push(piece@);
        }
        packets.push(piece);
        offset = end;
    }
    assert(pcm@.skip(n as int) =~= Seq::<i16>::empty());
    assert(done =~= done + packets_of(pcm@.skip(n as int)));
    packets
}

/// Every packet carries between one and `PACKET_SAMPLES` samples, only the
/// last may be short, and together they give back the audio unchanged.
pub proof fn lemma_packets_cover<T>(pcm: Seq<T>)
    ensures
        flatten(packets_of(pcm)) == pcm,
        forall|k: int|
            0 <= k < packets_of(pcm).len() ==> 1 <= (#[trigger] packets_of(pcm)[k]).len()
                <= PACKET_SAMPLES,
        forall|k: int|
            0 <= k < packets_of(pcm).len() - 1 ==> (#[trigger] packets_of(pcm)[k]).len()
                == PACKET_SAMPLES,
    decreases pcm.len(),
{
    if pcm.len() == 0 {
        assert(flatten(packets_of(pcm)) =~= pcm);
    } else if pcm.len() <= PACKET_SAMPLES {
        let p = packets_of(pcm);
        assert(p.drop_first() =~= Seq::<Seq<T>>::empty());
        assert(flatten(p.drop_first()) =~= Seq::<T>::empty());
        assert(flatten(p) =~= pcm);
    } else {
        let rest = pcm.skip(PACKET_SAMPLES as int);
        lemma_packets_cover(rest);
        let p = packets_of(pcm);
        assert(p.drop_first() =~= packets_of(rest));
        assert(flatten(p) =~= pcm.take(PACKET_SAMPLES as int) + rest);
        assert(pcm.take(PACKET_SAMPLES as int) + rest =~= pcm);
        assert forall|k: int| 0 <= k < p.len() implies 1 <= (#[trigger] p[k]).len()
            <= PACKET_SAMPLES by {
            if k > 0 {
                assert(p[k] == packets_of(rest)[k - 1]);
            }
        }
        assert forall|k: int| 0 <= k < p.len() - 1 implies (#[trigger] p[k]).len()
            == PACKET_SAMPLES by {
            if k > 0 {
                assert(p[k] == packets_of(rest)[k - 1]);
            }
        }
    }
}

/// The sample formats a microphone may deliver.
#[derive(Debug)]
pub enum InputSampleFormat {
    F32,
    I16,
    U16,
    /// Any other format, by its name.
    Other { name: String },
}

/// How captured samples are turned into floating-point samples.
#[derive(Clone, Copy, Debug, PartialEq, Eq, Structural)]
pub enum SampleConversion {
    /// Already floating point: kept as they are.
    Float,
    /// Signed 16-bit: divided by `i16::MAX`.
    SignedInt16,
    /// Unsigned 16-bit: scaled to `[-1, 1]` around the midpoint.
    UnsignedInt16,
}

/// The message of the refusal of an unsupported sample format.
pub open spec fn unsupported_format_message(name: Seq<char>) -> Seq<char> {
    "Unsupported microphone sample format: "@ + name
}

/// Chooses the conversion for the microphone's sample format, or refuses
/// the format.
pub fn sample_conversion(format: &InputSampleFormat) -> (r: Result<SampleConversion, String>)
    ensures
        match format {
            InputSampleFormat::F32 => r == Ok::<SampleConversion, String>(SampleConversion::Float),
            InputSampleFormat::I16 => r == Ok::<SampleConversion, String>(
                SampleConversion::SignedInt16,
            ),
            InputSampleFormat::U16 => r == Ok::<SampleConversion, String>(
                SampleConversion::UnsignedInt16,
            ),
            InputSampleFormat::Other { name } => r is Err && r->Err_0@
                == unsupported_format_message(name@),
        },
{
    match format {
        InputSampleFormat::F32 => Ok(SampleConversion::Float),
        InputSampleFormat::I16 => Ok(SampleConversion::SignedInt16),
        InputSampleFormat::U16 => Ok(SampleConversion::UnsignedInt16),
        InputSampleFormat::Other { name } => Err(
            join("Unsupported microphone sample format: ", name.as_str()),
        ),
    }
}

/// The message of the refusal when no microphone is present.
pub open spec fn no_device_message() -> Seq<char> {
    "No microphone input device found"@
}

/// The refusals of capture carry fixed texts: an unsupported format is
/// named after `Unsupported microphone sample format: `, and a missing
/// device is `No microphone input device found`.
pub proof fn lemma_capture_messages(name: Seq<char>)
    ensures
        unsupported_format_message(name) == "Unsupported microphone sample format: "@ + name,
        no_device_message() == "No microphone input device found"@,
{
}

/// The default input device, or the refusal when there is none.
pub fn require_input_device<D>(device: Option<D>) -> (r: Result<D, String>)
    ensures
        match device {
            Some(d) => r == Ok::<D, String>(d),
            None => r is Err && r->Err_0@ == no_device_message(),
        },
{
    match device {
        Some(d) => Ok(d),
        None => Err(String::from_str("No microphone input device found")),
    }
}

/// Whether a microphone callback with `sample_count` samples yields a frame:
/// an empty callback yields none.
pub fn forwards_input(sample_count: usize) -> (b: bool)
    ensures
        b == (sample_count > 0),
{
    sample_count != 0
}

} // verus!
