//! The lifecycle of one interpretation session, as a state machine.
//!
//! The caller runs the loop: it waits for the next microphone frame, service
//! event or stop request, hands it to `Session::step`, shows the subtitle
//! event that comes back and carries out the effect (forwarding usage,
//! playing synthesized speech, dropping or re-opening the connection,
//! finishing). Every decision of the loop is taken here.

use vstd::prelude::*;
use vstd::string::*;
use crate::audio::{
    echo_active, echo_window, lemma_silence_is_quiet_run, no_echo_overflow, observe_all, observed,
    silence_reached, sound_heard, AudioLevel, SampleBuffer, SilenceTracker,
    AUTO_PAUSE_FRAMES,
};
use crate::dedup::{
    is_repeat, last_texts, lemma_remember_keeps_spacing, remembered, spaced_distinct, RecentTexts,
    DEDUP_WINDOW,
};
use crate::text::join;

verus! {

/// A subtitle or status event for the user interface. The usage report
/// (token counts, floating point) is not among them: the caller forwards it
/// itself when the effect says so.
#[derive(Debug)]
pub enum SubtitleEvent {
    Source { text: String, is_final: bool, spk_chg: bool },
    Translation { text: String, is_final: bool, spk_chg: bool },
    Status { message: String },
    Error { message: String },
}

/// `SubtitleEvent` with its texts as character sequences.
pub ghost enum SubtitleView {
    Source { text: Seq<char>, is_final: bool, spk_chg: bool },
    Translation { text: Seq<char>, is_final: bool, spk_chg: bool },
    Status { message: Seq<char> },
    Error { message: Seq<char> },
}

impl View for SubtitleEvent {
    type V = SubtitleView;

    open spec fn view(&self) -> SubtitleView {
        match self {
            SubtitleEvent::Source { text, is_final, spk_chg } => SubtitleView::Source {
                text: text@,
                is_final: *is_final,
                spk_chg: *spk_chg,
            },
            SubtitleEvent::Translation { text, is_final, spk_chg } => SubtitleView::Translation {
                text: text@,
                is_final: *is_final,
                spk_chg: *spk_chg,
            },
            SubtitleEvent::Status { message } => SubtitleView::Status { message: message@ },
            SubtitleEvent::Error { message } => SubtitleView::Error { message: message@ },
        }
    }
}

/// An event of the translation service, as far as the session reads it.
/// The payloads of usage reports and synthesized audio stay with the caller.
#[derive(Debug)]
pub enum SessionEvent {
    SessionStarted,
    SessionFinished,
    SessionFailed { message: String },
    SourceSubtitle { text: String, is_final: bool, spk_chg: bool },
    TranslationSubtitle { text: String, is_final: bool, spk_chg: bool },
    Usage,
    TtsAudio,
    /// Any other event: ignored.
    Other,
}

/// `SessionEvent` with its texts as character sequences.
pub ghost enum SessionEventView {
    SessionStarted,
    SessionFinished,
    SessionFailed { message: Seq<char> },
    SourceSubtitle { text: Seq<char>, is_final: bool, spk_chg: bool },
    TranslationSubtitle { text: Seq<char>, is_final: bool, spk_chg: bool },
    Usage,
    TtsAudio,
    Other,
}

impl View for SessionEvent {
    type V = SessionEventView;

    open spec fn view(&self) -> SessionEventView {
        match self {
            SessionEvent::SessionStarted => SessionEventView::SessionStarted,
            SessionEvent::SessionFinished => SessionEventView::SessionFinished,
            SessionEvent::SessionFailed { message } => SessionEventView::SessionFailed {
                message: message@,
            },
            SessionEvent::SourceSubtitle { text, is_final, spk_chg } =>
                SessionEventView::SourceSubtitle { text: text@, is_final: *is_final, spk_chg: *spk_chg },
            SessionEvent::TranslationSubtitle { text, is_final, spk_chg } =>
                SessionEventView::TranslationSubtitle {
                    text: text@,
                    is_final: *is_final,
                    spk_chg: *spk_chg,
                },
            SessionEvent::Usage => SessionEventView::Usage,
            SessionEvent::TtsAudio => SessionEventView::TtsAudio,
            SessionEvent::Other => SessionEventView::Other,
        }
    }
}

/// How an attempt to open a session with the service ended.
#[derive(Debug)]
pub enum HandshakeReply {
    /// The service confirmed the session.
    Started,
    /// The service refused the session with `message`.
    Failed { message: String },
    /// The connection itself could not be made.
    ConnectFailed { message: String },
    /// The service answered with another event, or closed the connection.
    Unexpected,
    /// No answer came in time.
    TimedOut,
}

/// `HandshakeReply` with its texts as character sequences.
pub ghost enum HandshakeView {
    Started,
    Failed { message: Seq<char> },
    ConnectFailed { message: Seq<char> },
    Unexpected,
    TimedOut,
}

impl View for HandshakeReply {
    type V = HandshakeView;

    open spec fn view(&self) -> HandshakeView {
        match self {
            HandshakeReply::Started => HandshakeView::Started,
            HandshakeReply::Failed { message } => HandshakeView::Failed { message: message@ },
            HandshakeReply::ConnectFailed { message } => HandshakeView::ConnectFailed {
                message: message@,
            },
            HandshakeReply::Unexpected => HandshakeView::Unexpected,
            HandshakeReply::TimedOut => HandshakeView::TimedOut,
        }
    }
}

/// Where the session stands.
#[derive(Clone, Copy, Debug, PartialEq, Eq, Structural)]
pub enum Phase {
    /// Connected to the service: audio is sent, events are shown.
    Connected,
    /// Connection dropped after long silence (or a failed send): audio is
    /// only listened to, until speech resumes.
    Paused,
    /// Over: the caller stops the capture and releases the session.
    Ended,
}

/// What the caller does after a step, besides showing the event.
#[derive(Clone, Copy, Debug, PartialEq, Eq, Structural)]
pub enum Effect {
    /// Nothing more.
    Continue,
    /// Forward the usage report it just received.
    ForwardUsage,
    /// Play the synthesized speech it just received.
    PlayTts,
    /// Close the connection to the service.
    Disconnect,
    /// Open a new connection and report how it went.
    Reconnect,
    /// Leave the loop: the session is over.
    Finish,
}

/// The answer to one step.
#[derive(Debug)]
pub struct Reaction {
    /// The event to show, if any.
    pub emit: Option<SubtitleEvent>,
    pub effect: Effect,
}

/// `Reaction` with its event as a `SubtitleView`.
pub ghost struct ReactionView {
    pub emit: Option<SubtitleView>,
    pub effect: Effect,
}

impl View for Reaction {
    type V = ReactionView;

    open spec fn view(&self) -> ReactionView {
        ReactionView {
            emit: match self.emit {
                Some(e) => Some(e@),
                None => None,
            },
            effect: self.effect,
        }
    }
}

/// One thing that happened, for the session to react to.
#[derive(Debug)]
pub enum SessionInput<T> {
    /// The resampler for the first frame is ready; it takes `input_frames`
    /// frames of `channels` interleaved channels at a time.
    ResamplerReady { input_frames: usize, channels: u16 },
    /// The resampler for the first frame could not be made.
    ResamplerFailed { message: String },
    /// A microphone frame: its loudness, its samples, the time now and the
    /// time synthesized speech last played (milliseconds since the epoch).
    Audio { level: AudioLevel, samples: Vec<T>, now_ms: i64, tts_last_played_ms: i64 },
    /// The microphone stream ended.
    AudioEnded,
    /// An event of the service.
    Api(SessionEvent),
    /// The service closed the event stream.
    ApiClosed,
    /// Sending audio to the service failed.
    SendFailed,
    /// How the reconnection that the session asked for went.
    Reconnected(HandshakeReply),
    /// The user asked to stop.
    Stop,
}

/// `SessionInput` with its contents as sequences.
pub ghost enum InputView<T> {
    ResamplerReady { input_frames: usize, channels: u16 },
    ResamplerFailed { message: Seq<char> },
    Audio { level: AudioLevel, samples: Seq<T>, now_ms: i64, tts_last_played_ms: i64 },
    AudioEnded,
    Api(SessionEventView),
    ApiClosed,
    SendFailed,
    Reconnected(HandshakeView),
    Stop,
}

impl<T> View for SessionInput<T> {
    type V = InputView<T>;

    open spec fn view(&self) -> InputView<T> {
        match self {
            SessionInput::ResamplerReady { input_frames, channels } => InputView::ResamplerReady {
                input_frames: *input_frames,
                channels: *channels,
            },
            SessionInput::ResamplerFailed { message } => InputView::ResamplerFailed {
                message: message@,
            },
            SessionInput::Audio { level, samples, now_ms, tts_last_played_ms } => InputView::Audio {
                level: *level,
                samples: samples@,
                now_ms: *now_ms,
                tts_last_played_ms: *tts_last_played_ms,
            },
            SessionInput::AudioEnded => InputView::AudioEnded,
            SessionInput::Api(e) => InputView::Api(e@),
            SessionInput::ApiClosed => InputView::ApiClosed,
            SessionInput::SendFailed => InputView::SendFailed,
            SessionInput::Reconnected(r) => InputView::Reconnected(r@),
            SessionInput::Stop => InputView::Stop,
        }
    }
}

/// The state of a session.
pub ghost struct SessionState<T> {
    pub phase: Phase,
    /// Synthesized speech was asked for (decides the status wording).
    pub tts_enabled: bool,
    /// A speech player exists.
    pub tts_available: bool,
    pub silence: SilenceTracker,
    /// Finalized source texts shown last.
    pub sources: Seq<Seq<char>>,
    /// Finalized translations shown last.
    pub translations: Seq<Seq<char>>,
    /// Samples per resampler chunk, once the resampler exists.
    pub chunk_len: Option<usize>,
    /// Samples waiting for the resampler.
    pub buffer: Seq<T>,
    /// The silent sample that stands in for muted input.
    pub fill: T,
}

/// The invariant of a session: bounded windows, consistent silence count,
/// a connected session is never past its pause point, and a chunk is never
/// empty.
pub open spec fn state_wf<T>(s: SessionState<T>) -> bool {
    &&& s.sources.len() <= DEDUP_WINDOW
    &&& s.translations.len() <= DEDUP_WINDOW
    &&& s.silence.wf()
    &&& s.phase == Phase::Connected ==> !s.silence.pause_due()
    &&& s.chunk_len matches Some(n) ==> n > 0
}

/// Show `e`, then `effect`.
pub open spec fn say(e: SubtitleView, effect: Effect) -> ReactionView {
    ReactionView { emit: Some(e), effect }
}

/// Nothing to show, nothing to do.
pub open spec fn quiet_reaction() -> ReactionView {
    ReactionView { emit: None, effect: Effect::Continue }
}

/// Nothing to show; `effect`.
pub open spec fn silent(effect: Effect) -> ReactionView {
    ReactionView { emit: None, effect }
}

/// A status event with `message`.
pub open spec fn status(message: Seq<char>) -> SubtitleView {
    SubtitleView::Status { message }
}

/// An error event with `message`.
pub open spec fn error(message: Seq<char>) -> SubtitleView {
    SubtitleView::Error { message }
}

/// `s`, over.
pub open spec fn ended<T>(s: SessionState<T>) -> SessionState<T> {
    SessionState { phase: Phase::Ended, ..s }
}

/// What a final or interim subtitle does: an empty text is dropped; an
/// interim one is shown; a final one is shown unless it repeats `recent`,
/// and then enters `recent`. The result is the new window and whether the
/// text is shown.
pub open spec fn subtitle_outcome(recent: Seq<Seq<char>>, text: Seq<char>, is_final: bool) -> (
    Seq<Seq<char>>,
    bool,
) {
    if text.len() == 0 {
        (recent, false)
    } else if !is_final {
        (recent, true)
    } else if is_repeat(text, recent) {
        (recent, false)
    } else {
        (remembered(recent, text), true)
    }
}

/// A connected session's reaction to a service event.
pub open spec fn api_step<T>(s: SessionState<T>, ev: SessionEventView) -> (
    SessionState<T>,
    ReactionView,
) {
    match ev {
        SessionEventView::SourceSubtitle { text, is_final, spk_chg } => {
            let (w, shown) = subtitle_outcome(s.sources, text, is_final);
            (
                SessionState { sources: w, ..s },
                if shown {
                    say(SubtitleView::Source { text, is_final, spk_chg }, Effect::Continue)
                } else {
                    quiet_reaction()
                },
            )
        },
        SessionEventView::TranslationSubtitle { text, is_final, spk_chg } => {
            let (w, shown) = subtitle_outcome(s.translations, text, is_final);
            (
                SessionState { translations: w, ..s },
                if shown {
                    say(SubtitleView::Translation { text, is_final, spk_chg }, Effect::Continue)
                } else {
                    quiet_reaction()
                },
            )
        },
        SessionEventView::Usage => (s, silent(Effect::ForwardUsage)),
        SessionEventView::TtsAudio => (
            s,
            silent(
                if s.tts_available {
                    Effect::PlayTts
                } else {
                    Effect::Continue
                },
            ),
        ),
        SessionEventView::SessionFailed { message } => (
            ended(s),
            say(error(message), Effect::Finish),
        ),
        SessionEventView::SessionFinished => (
            ended(s),
            say(status("session_ended"@), Effect::Finish),
        ),
        SessionEventView::SessionStarted => (s, quiet_reaction()),
        SessionEventView::Other => (s, quiet_reaction()),
    }
}

/// A session's reaction to a microphone frame. Connected: the frame counts
/// for silence; once silence has lasted long enough the connection pauses,
/// else the frame joins the buffer, as silent samples while the input is
/// silent or may be echoing synthesized speech. Paused: loud enough input
/// asks for a reconnection.
pub open spec fn frame_step<T>(
    s: SessionState<T>,
    level: AudioLevel,
    samples: Seq<T>,
    now_ms: int,
    tts_last_played_ms: int,
) -> (SessionState<T>, ReactionView) {
    if s.phase == Phase::Connected {
        let t = observed(s.silence, level);
        if t.pause_due() {
            (
                SessionState { phase: Phase::Paused, silence: t, buffer: Seq::empty(), ..s },
                say(status("auto_paused"@), Effect::Disconnect),
            )
        } else {
            let muted = echo_window(now_ms, tts_last_played_ms) || t.in_silence;
            let added = if muted {
                Seq::new(samples.len(), |i: int| s.fill)
            } else {
                samples
            };
            (SessionState { silence: t, buffer: s.buffer + added, ..s }, quiet_reaction())
        }
    } else if level == AudioLevel::Loud {
        (s, say(status("reconnecting"@), Effect::Reconnect))
    } else {
        (s, quiet_reaction())
    }
}

/// A paused session's reaction to the outcome of its reconnection.
pub open spec fn reconnect_step<T>(s: SessionState<T>, reply: HandshakeView) -> (
    SessionState<T>,
    ReactionView,
) {
    match reply {
        HandshakeView::Started => (
            SessionState {
                phase: Phase::Connected,
                silence: SilenceTracker { silent_frames: 0, in_silence: false },
                buffer: Seq::empty(),
                ..s
            },
            say(
                status(
                    if s.tts_enabled {
                        "reconnected_tts"@
                    } else {
                        "reconnected_text"@
                    },
                ),
                Effect::Continue,
            ),
        ),
        HandshakeView::Failed { message } => (
            ended(s),
            say(error("reconnect_failed:"@ + message), Effect::Finish),
        ),
        HandshakeView::ConnectFailed { message } => (
            ended(s),
            say(error("reconnect_failed:"@ + message), Effect::Finish),
        ),
        HandshakeView::Unexpected => (ended(s), say(error("reconnect_timeout"@), Effect::Finish)),
        HandshakeView::TimedOut => (ended(s), say(error("reconnect_timeout"@), Effect::Finish)),
    }
}

/// The transition of the session: its next state and its reaction.
pub open spec fn next<T>(s: SessionState<T>, input: InputView<T>) -> (
    SessionState<T>,
    ReactionView,
) {
    if s.phase == Phase::Ended {
        (s, silent(Effect::Finish))
    } else {
        match input {
            InputView::ResamplerReady { input_frames, channels } => {
                if s.phase == Phase::Connected && s.chunk_len is None {
                    (
                        SessionState {
                            chunk_len: Some((input_frames * channels) as usize),
                            ..s
                        },
                        quiet_reaction(),
                    )
                } else {
                    (s, quiet_reaction())
                }
            },
            InputView::ResamplerFailed { message } => {
                if s.phase == Phase::Connected {
                    (ended(s), say(error("resample_failed:"@ + message), Effect::Finish))
                } else {
                    (s, quiet_reaction())
                }
            },
            InputView::Audio { level, samples, now_ms, tts_last_played_ms } => frame_step(
                s,
                level,
                samples,
                now_ms as int,
                tts_last_played_ms as int,
            ),
            InputView::AudioEnded => (ended(s), silent(Effect::Finish)),
            InputView::Api(ev) => {
                if s.phase == Phase::Connected {
                    api_step(s, ev)
                } else {
                    (s, quiet_reaction())
                }
            },
            InputView::ApiClosed => {
                if s.phase == Phase::Connected {
                    (ended(s), say(error("disconnected"@), Effect::Finish))
                } else {
                    (s, quiet_reaction())
                }
            },
            InputView::SendFailed => {
                if s.phase == Phase::Connected {
                    (
                        SessionState { phase: Phase::Paused, buffer: Seq::empty(), ..s },
                        silent(Effect::Disconnect),
                    )
                } else {
                    (s, quiet_reaction())
                }
            },
            InputView::Reconnected(reply) => {
                if s.phase == Phase::Paused {
                    reconnect_step(s, reply)
                } else {
                    (s, quiet_reaction())
                }
            },
            InputView::Stop => (ended(s), say(status("stopped"@), Effect::Finish)),
        }
    }
}

/// A chunk is ready: the session is connected, has a resampler, and at
/// least a chunk's worth of samples waits.
pub open spec fn chunk_ready<T>(s: SessionState<T>) -> bool {
    s.phase == Phase::Connected && s.chunk_len is Some && s.buffer.len() >= s.chunk_len->0
}

/// Taking the next resampler chunk: when one is ready, the oldest
/// `chunk_len` samples leave the buffer and are the chunk; otherwise nothing
/// changes and there is no chunk.
pub open spec fn chunk_step<T>(s: SessionState<T>) -> (SessionState<T>, Option<Seq<T>>) {
    if chunk_ready(s) {
        (
            SessionState { buffer: s.buffer.skip(s.chunk_len->0 as int), ..s },
            Some(s.buffer.take(s.chunk_len->0 as int)),
        )
    } else {
        (s, None)
    }
}

/// Taking a chunk hands over the oldest `chunk_len` buffered samples and
/// keeps the rest, in order: chunk followed by what is left is the buffer
/// as it was; nothing else changes. Without a ready chunk nothing happens.
pub proof fn lemma_chunk_is_oldest_samples<T>(s: SessionState<T>)
    ensures
        chunk_ready(s) ==> {
            let (s2, c) = chunk_step(s);
            &&& c is Some
            &&& c->0.len() == s.chunk_len->0
            &&& c->0 + s2.buffer == s.buffer
            &&& s2.phase == s.phase && s2.silence == s.silence && s2.sources == s.sources
                && s2.translations == s.translations && s2.chunk_len == s.chunk_len
        },
        !chunk_ready(s) ==> chunk_step(s) == (s, None::<Seq<T>>),
{
    if chunk_ready(s) {
        let n = s.chunk_len->0 as int;
        assert(s.buffer.take(n) + s.buffer.skip(n) =~= s.buffer);
    }
}

/// What the caller guarantees of an input: a resampler's chunk is neither
/// empty nor larger than memory, and a frame reaches a connected session
/// only once its resampler exists.
pub open spec fn input_allowed<T>(s: SessionState<T>, input: InputView<T>) -> bool {
    match input {
        InputView::ResamplerReady { input_frames, channels } => (s.phase == Phase::Connected
            && s.chunk_len is None) ==> 1 <= input_frames * channels <= usize::MAX,
        InputView::Audio { level, now_ms, tts_last_played_ms, .. } => s.phase == Phase::Connected
            ==> {
            &&& s.chunk_len is Some
            &&& !observed(s.silence, level).pause_due() ==> no_echo_overflow(
                now_ms,
                tts_last_played_ms,
            )
        },
        _ => true,
    }
}

/// A running interpretation session (see `next` for its behaviour).
pub struct Session<T> {
    phase: Phase,
    tts_enabled: bool,
    tts_available: bool,
    silence: SilenceTracker,
    sources: RecentTexts,
    translations: RecentTexts,
    chunk_len: Option<usize>,
    buffer: SampleBuffer<T>,
    fill: T,
}

impl<T> View for Session<T> {
    type V = SessionState<T>;

    closed spec fn view(&self) -> SessionState<T> {
        SessionState {
            phase: self.phase,
            tts_enabled: self.tts_enabled,
            tts_available: self.tts_available,
            silence: self.silence,
            sources: self.sources@,
            translations: self.translations@,
            chunk_len: self.chunk_len,
            buffer: self.buffer@,
            fill: self.fill,
        }
    }
}

fn status_event(message: &str) -> (e: SubtitleEvent)
    ensures
        e@ == status(message@),
{
    SubtitleEvent::Status { message: String::from_str(message) }
}

fn error_event(message: String) -> (e: SubtitleEvent)
    ensures
        e@ == error(message@),
{
    SubtitleEvent::Error { message }
}

fn react(emit: Option<SubtitleEvent>, effect: Effect) -> (r: Reaction)
    ensures
        r.emit == emit,
        r.effect == effect,
{
    Reaction { emit, effect }
}

impl<T: Copy> Session<T> {
    /// The invariant (see `state_wf`).
    pub open spec fn wf(&self) -> bool {
        state_wf(self@)
    }

    /// A session that has just been confirmed by the service: connected, no
    /// silence counted, nothing shown yet, no resampler yet, `fill` standing
    /// for a silent sample.
    pub fn new(tts_enabled: bool, tts_available: bool, fill: T) -> (s: Session<T>)
        ensures
            s.wf(),
            s@ == (SessionState {
                phase: Phase::Connected,
                tts_enabled,
                tts_available,
                silence: SilenceTracker { silent_frames: 0, in_silence: false },
                sources: Seq::empty(),
                translations: Seq::empty(),
                chunk_len: None,
                buffer: Seq::empty(),
                fill,
            }),
    {
        Session {
            phase: Phase::Connected,
            tts_enabled,
            tts_available,
            silence: SilenceTracker::new(),
            sources: RecentTexts::new(),
            translations: RecentTexts::new(),
            chunk_len: None,
            buffer: SampleBuffer::new(),
            fill,
        }
    }

    /// Where the session stands.
    pub fn phase(&self) -> (p: Phase)
        ensures
            p == self@.phase,
    {
        self.phase
    }

    /// Whether the session is over.
    pub fn is_finished(&self) -> (b: bool)
        ensures
            b == (self@.phase == Phase::Ended),
    {
        self.phase == Phase::Ended
    }

    /// Whether the next frame needs a resampler first: the session is
    /// connected and has none yet.
    pub fn needs_resampler(&self) -> (b: bool)
        ensures
            b == (self@.phase == Phase::Connected && self@.chunk_len is None),
    {
        self.phase == Phase::Connected && self.chunk_len.is_none()
    }

    /// Samples per resampler chunk, once known.
    pub fn chunk_len(&self) -> (n: Option<usize>)
        ensures
            n == self@.chunk_len,
    {
        self.chunk_len
    }

    /// The silence count and state.
    pub fn silence(&self) -> (t: SilenceTracker)
        ensures
            t == self@.silence,
    {
        self.silence
    }

    /// How many samples wait for the resampler.
    pub fn buffered(&self) -> (n: usize)
        ensures
            n == self@.buffer.len(),
    {
        self.buffer.len()
    }

    /// How many finalized source texts the window holds.
    pub fn remembered_sources(&self) -> (n: usize)
        ensures
            n == self@.sources.len(),
    {
        self.sources.len()
    }

    /// How many finalized translations the window holds.
    pub fn remembered_translations(&self) -> (n: usize)
        ensures
            n == self@.translations.len(),
    {
        self.translations.len()
    }

    /// The next resampler chunk: the `chunk_len` oldest buffered samples, when
    /// the session is connected and that many wait.
    pub fn take_chunk(&mut self) -> (chunk: Option<Vec<T>>)
        requires
            old(self).wf(),
        ensures
            final(self).wf(),
            match chunk {
                Some(c) => chunk_step(old(self)@) == (final(self)@, Some(c@)),
                None => chunk_step(old(self)@) == (final(self)@, None::<Seq<T>>),
            },
    {
        if self.phase != Phase::Connected {
            return None;
        }
        match self.chunk_len {
            None => None,
            Some(n) => self.buffer.take_front(n),
        }
    }

    fn on_subtitle(
        recent: &mut RecentTexts,
        text: &String,
        is_final: bool,
    ) -> (shown: bool)
        requires
            old(recent).wf(),
        ensures
            final(recent).wf(),
            (final(recent)@, shown) == subtitle_outcome(old(recent)@, text@, is_final),
    {
        if text.as_str().is_empty() {
            false
        } else if !is_final {
            true
        } else {
            recent.accept(text)
        }
    }

    fn on_api(&mut self, ev: SessionEvent) -> (r: Reaction)
        requires
            old(self).wf(),
            old(self)@.phase == Phase::Connected,
        ensures
            final(self).wf(),
            (final(self)@, r@) == api_step(old(self)@, ev@),
    {
        match ev {
            SessionEvent::SourceSubtitle { text, is_final, spk_chg } => {
                if Self::on_subtitle(&mut self.sources, &text, is_final) {
                    react(Some(SubtitleEvent::Source { text, is_final, spk_chg }), Effect::Continue)
                } else {
                    react(None, Effect::Continue)
                }
            },
            SessionEvent::TranslationSubtitle { text, is_final, spk_chg } => {
                if Self::on_subtitle(&mut self.translations, &text, is_final) {
                    react(
                        Some(SubtitleEvent::Translation { text, is_final, spk_chg }),
                        Effect::Continue,
                    )
                } else {
                    react(None, Effect::Continue)
                }
            },
            SessionEvent::Usage => react(None, Effect::ForwardUsage),
            SessionEvent::TtsAudio => {
                if self.tts_available {
                    react(None, Effect::PlayTts)
                } else {
                    react(None, Effect::Continue)
                }
            },
            SessionEvent::SessionFailed { message } => {
                self.phase = Phase::Ended;
                react(Some(error_event(message)), Effect::Finish)
            },
            SessionEvent::SessionFinished => {
                self.phase = Phase::Ended;
                react(Some(status_event("session_ended")), Effect::Finish)
            },
            SessionEvent::SessionStarted => react(None, Effect::Continue),
            SessionEvent::Other => react(None, Effect::Continue),
        }
    }

    fn on_frame(&mut self, level: AudioLevel, samples: Vec<T>, now_ms: i64, tts_last_played_ms: i64) -> (r: Reaction)
        requires
            old(self).wf(),
            old(self)@.phase != Phase::Ended,
            old(self)@.phase == Phase::Connected ==> old(self)@.chunk_len is Some,
            old(self)@.phase == Phase::Connected && !observed(old(self)@.silence, level).pause_due()
                ==> no_echo_overflow(now_ms, tts_last_played_ms),
        ensures
            final(self).wf(),
            (final(self)@, r@) == frame_step(
                old(self)@,
                level,
                samples@,
                now_ms as int,
                tts_last_played_ms as int,
            ),
    {
        if self.phase == Phase::Connected {
            self.silence.observe(level);
            if self.silence.should_pause() {
                self.phase = Phase::Paused;
                self.buffer.clear();
                react(Some(status_event("auto_paused")), Effect::Disconnect)
            } else {
                let muted = echo_active(now_ms, tts_last_played_ms) || self.silence.in_silence;
                if muted {
                    self.buffer.push_fill(self.fill, samples.len());
                } else {
                    self.buffer.push_samples(samples.as_slice());
                }
                react(None, Effect::Continue)
            }
        } else if level == AudioLevel::Loud {
            react(Some(status_event("reconnecting")), Effect::Reconnect)
        } else {
            react(None, Effect::Continue)
        }
    }

    fn on_reconnect(&mut self, reply: HandshakeReply) -> (r: Reaction)
        requires
            old(self).wf(),
            old(self)@.phase == Phase::Paused,
        ensures
            final(self).wf(),
            (final(self)@, r@) == reconnect_step(old(self)@, reply@),
    {
        match reply {
            HandshakeReply::Started => {
                self.phase = Phase::Connected;
                self.silence = SilenceTracker::new();
                self.buffer.clear();
                let message = if self.tts_enabled {
                    "reconnected_tts"
                } else {
                    "reconnected_text"
                };
                react(Some(status_event(message)), Effect::Continue)
            },
            HandshakeReply::Failed { message } => {
                self.phase = Phase::Ended;
                react(Some(error_event(join("reconnect_failed:", message.as_str()))), Effect::Finish)
            },
            HandshakeReply::ConnectFailed { message } => {
                self.phase = Phase::Ended;
                react(Some(error_event(join("reconnect_failed:", message.as_str()))), Effect::Finish)
            },
            HandshakeReply::Unexpected => {
                self.phase = Phase::Ended;
                react(Some(error_event(String::from_str("reconnect_timeout"))), Effect::Finish)
            },
            HandshakeReply::TimedOut => {
                self.phase = Phase::Ended;
                react(Some(error_event(String::from_str("reconnect_timeout"))), Effect::Finish)
            },
        }
    }

    /// Reacts to `input` (see `next`).
    pub fn step(&mut self, input: SessionInput<T>) -> (r: Reaction)
        requires
            old(self).wf(),
            input_allowed(old(self)@, input@),
        ensures
            final(self).wf(),
            (final(self)@, r@) == next(old(self)@, input@),
    {
        if self.phase == Phase::Ended {
            return react(None, Effect::Finish);
        }
        match input {
            SessionInput::ResamplerReady { input_frames, channels } => {
                if self.phase == Phase::Connected && self.chunk_len.is_none() {
                    self.chunk_len = Some(input_frames * (channels as usize));
                }
                react(None, Effect::Continue)
            },
            SessionInput::ResamplerFailed { message } => {
                if self.phase == Phase::Connected {
                    self.phase = Phase::Ended;
                    react(Some(error_event(join("resample_failed:", message.as_str()))), Effect::Finish)
                } else {
                    react(None, Effect::Continue)
                }
            },
            SessionInput::Audio { level, samples, now_ms, tts_last_played_ms } => {
                self.on_frame(level, samples, now_ms, tts_last_played_ms)
            },
            SessionInput::AudioEnded => {
                self.phase = Phase::Ended;
                react(None, Effect::Finish)
            },
            SessionInput::Api(ev) => {
                if self.phase == Phase::Connected {
                    self.on_api(ev)
                } else {
                    react(None, Effect::Continue)
                }
            },
            SessionInput::ApiClosed => {
                if self.phase == Phase::Connected {
                    self.phase = Phase::Ended;
                    react(Some(error_event(String::from_str("disconnected"))), Effect::Finish)
                } else {
                    react(None, Effect::Continue)
                }
            },
            SessionInput::SendFailed => {
                if self.phase == Phase::Connected {
                    self.phase = Phase::Paused;
                    self.buffer.clear();
                    react(None, Effect::Disconnect)
                } else {
                    react(None, Effect::Continue)
                }
            },
            SessionInput::Reconnected(reply) => {
                if self.phase == Phase::Paused {
                    self.on_reconnect(reply)
                } else {
                    react(None, Effect::Continue)
                }
            },
            SessionInput::Stop => {
                self.phase = Phase::Ended;
                react(Some(status_event("stopped")), Effect::Finish)
            },
        }
    }
}

/// A session that is over stays over, whatever happens next, and only
/// tells the caller to finish.
pub proof fn lemma_finished_is_final<T>(s: SessionState<T>, input: InputView<T>)
    requires
        s.phase == Phase::Ended,
    ensures
        next(s, input) == (s, silent(Effect::Finish)),
{
}

/// A stop request ends a live session, reporting `stopped`, and leaves the
/// rest of its state as it was.
pub proof fn lemma_stop_ends<T>(s: SessionState<T>)
    requires
        s.phase != Phase::Ended,
    ensures
        next(s, InputView::Stop) == (ended(s), say(status("stopped"@), Effect::Finish)),
{
}

/// Every transition keeps the invariant (what `Session::step` relies on).
pub proof fn lemma_next_keeps_wf<T>(s: SessionState<T>, input: InputView<T>)
    requires
        state_wf(s),
        input_allowed(s, input),
    ensures
        state_wf(next(s, input).0),
{
    match input {
        InputView::Audio { level, samples, now_ms, tts_last_played_ms } => {
            if s.phase == Phase::Connected {
                let t = observed(s.silence, level);
                assert(t.wf());
            }
        },
        InputView::Api(ev) => {
            if s.phase == Phase::Connected {
                match ev {
                    SessionEventView::SourceSubtitle { text, is_final, spk_chg } => {
                        lemma_window_bounded(s.sources, text, is_final);
                    },
                    SessionEventView::TranslationSubtitle { text, is_final, spk_chg } => {
                        lemma_window_bounded(s.translations, text, is_final);
                    },
                    _ => {},
                }
            }
        },
        _ => {},
    }
}

/// The window of shown texts never holds more than `DEDUP_WINDOW` texts.
pub proof fn lemma_window_bounded(recent: Seq<Seq<char>>, text: Seq<char>, is_final: bool)
    requires
        recent.len() <= DEDUP_WINDOW,
    ensures
        subtitle_outcome(recent, text, is_final).0.len() <= DEDUP_WINDOW,
{
}

/// A final source text that has just been shown is not shown again when the
/// service finalizes it once more; the window is left as it was.
pub proof fn lemma_final_source_shown_once<T>(
    s: SessionState<T>,
    text: Seq<char>,
    spk_first: bool,
    spk_again: bool,
)
    requires
        s.phase == Phase::Connected,
        next(s, InputView::Api(SessionEventView::SourceSubtitle { text, is_final: true, spk_chg: spk_first })).1.emit is Some,
    ensures
        ({
            let s1 = next(s, InputView::Api(SessionEventView::SourceSubtitle { text, is_final: true, spk_chg: spk_first })).0;
            let again = next(s1, InputView::Api(SessionEventView::SourceSubtitle { text, is_final: true, spk_chg: spk_again }));
            again.1.emit is None && again.0 == s1
        }),
{
    crate::dedup::lemma_shown_text_repeats(s.sources, text);
}

/// A final translation that has just been shown is not shown again when the
/// service finalizes it once more; the window is left as it was.
pub proof fn lemma_final_translation_shown_once<T>(
    s: SessionState<T>,
    text: Seq<char>,
    spk_first: bool,
    spk_again: bool,
)
    requires
        s.phase == Phase::Connected,
        next(s, InputView::Api(SessionEventView::TranslationSubtitle { text, is_final: true, spk_chg: spk_first })).1.emit is Some,
    ensures
        ({
            let s1 = next(s, InputView::Api(SessionEventView::TranslationSubtitle { text, is_final: true, spk_chg: spk_first })).0;
            let again = next(s1, InputView::Api(SessionEventView::TranslationSubtitle { text, is_final: true, spk_chg: spk_again }));
            again.1.emit is None && again.0 == s1
        }),
{
    crate::dedup::lemma_shown_text_repeats(s.translations, text);
}

/// Interim subtitles are always shown (when not empty) and never enter the
/// window; empty subtitles are never shown.
pub proof fn lemma_interim_and_empty_subtitles<T>(
    s: SessionState<T>,
    text: Seq<char>,
    is_final: bool,
    spk_chg: bool,
)
    requires
        s.phase == Phase::Connected,
    ensures
        ({
            let r = next(s, InputView::Api(SessionEventView::SourceSubtitle { text, is_final, spk_chg }));
            &&& text.len() == 0 ==> r == (s, quiet_reaction())
            &&& text.len() > 0 && !is_final ==> r == (s, say(SubtitleView::Source { text, is_final, spk_chg }, Effect::Continue))
        }),
{
}

/// Interim translations are always shown (when not empty) and never enter
/// the window; empty translations are never shown. A connected session
/// answers a non-empty interim translation by showing it exactly as it came,
/// changing nothing, and an empty one by doing nothing.
pub proof fn lemma_interim_and_empty_translations<T>(
    s: SessionState<T>,
    text: Seq<char>,
    is_final: bool,
    spk_chg: bool,
)
    requires
        s.phase == Phase::Connected,
    ensures
        ({
            let r = next(s, InputView::Api(SessionEventView::TranslationSubtitle { text, is_final, spk_chg }));
            &&& text.len() == 0 ==> r == (s, (ReactionView { emit: None, effect: Effect::Continue }))
            &&& text.len() > 0 && !is_final ==> r == (s, (ReactionView {
                emit: Some(SubtitleView::Translation { text, is_final, spk_chg }),
                effect: Effect::Continue,
            }))
        }),
{
}

/// How a connected session answers the service's other events and the end
/// of its streams: usage is handed back for forwarding and speech for
/// playing (only when a player exists), both without a visible event and
/// without change; a failure ends the session showing the service's
/// message; a finished session ends showing `session_ended`; a closed event
/// stream ends it showing `disconnected`; the end of the microphone stream
/// ends it silently; a failed send drops the connection and the buffer.
pub proof fn lemma_connected_session_events<T>(s: SessionState<T>, message: Seq<char>)
    requires
        s.phase == Phase::Connected,
    ensures
        next(s, InputView::Api(SessionEventView::Usage)) == (s, (ReactionView {
            emit: None,
            effect: Effect::ForwardUsage,
        })),
        next(s, InputView::Api(SessionEventView::TtsAudio)).0 == s,
        next(s, InputView::Api(SessionEventView::TtsAudio)).1.emit is None,
        next(s, InputView::Api(SessionEventView::TtsAudio)).1.effect == Effect::PlayTts
            <==> s.tts_available,
        next(s, InputView::Api(SessionEventView::SessionStarted)).0 == s,
        next(s, InputView::Api(SessionEventView::SessionStarted)).1.emit is None,
        next(s, InputView::Api(SessionEventView::Other)).0 == s,
        next(s, InputView::Api(SessionEventView::Other)).1.emit is None,
        next(s, InputView::Api(SessionEventView::SessionFailed { message })).0.phase == Phase::Ended,
        next(s, InputView::Api(SessionEventView::SessionFailed { message })).1 == (ReactionView {
            emit: Some(SubtitleView::Error { message }),
            effect: Effect::Finish,
        }),
        next(s, InputView::Api(SessionEventView::SessionFinished)).0.phase == Phase::Ended,
        next(s, InputView::Api(SessionEventView::SessionFinished)).1 == (ReactionView {
            emit: Some(SubtitleView::Status { message: "session_ended"@ }),
            effect: Effect::Finish,
        }),
        next(s, InputView::ApiClosed).0.phase == Phase::Ended,
        next(s, InputView::ApiClosed).1 == (ReactionView {
            emit: Some(SubtitleView::Error { message: "disconnected"@ }),
            effect: Effect::Finish,
        }),
        next(s, InputView::AudioEnded).0.phase == Phase::Ended,
        next(s, InputView::AudioEnded).1 == (ReactionView { emit: None, effect: Effect::Finish }),
        next(s, InputView::SendFailed).0.phase == Phase::Paused,
        next(s, InputView::SendFailed).0.buffer.len() == 0,
        next(s, InputView::SendFailed).1 == (ReactionView { emit: None, effect: Effect::Disconnect }),
        next(s, InputView::ResamplerFailed { message }).0.phase == Phase::Ended,
        next(s, InputView::ResamplerFailed { message }).1 == (ReactionView {
            emit: Some(SubtitleView::Error { message: "resample_failed:"@ + message }),
            effect: Effect::Finish,
        }),
{
}

/// A resampler that takes `input_frames` frames of `channels` channels sets
/// the chunk to `input_frames * channels` interleaved samples, once.
pub proof fn lemma_resampler_chunk<T>(s: SessionState<T>, input_frames: usize, channels: u16)
    requires
        s.phase == Phase::Connected,
        s.chunk_len is None,
        input_frames * channels <= usize::MAX,
    ensures
        next(s, InputView::ResamplerReady { input_frames, channels }).0.chunk_len == Some(
            (input_frames * channels) as usize,
        ),
        next(s, InputView::ResamplerReady { input_frames, channels }).0.buffer == s.buffer,
        next(s, InputView::ResamplerReady { input_frames, channels }).1.emit is None,
{
}

/// How a paused session answers: a loud frame asks to reconnect showing
/// `reconnecting`, other frames do nothing; a confirmed reconnection shows
/// `reconnected_tts` or `reconnected_text` by its mode; a refusal or a
/// failed connection ends it showing `reconnect_failed:` and the message; no
/// or another answer ends it showing `reconnect_timeout`.
pub proof fn lemma_paused_session_events<T>(
    s: SessionState<T>,
    level: AudioLevel,
    samples: Seq<T>,
    now_ms: i64,
    tts_last_played_ms: i64,
    message: Seq<char>,
)
    requires
        s.phase == Phase::Paused,
    ensures
        ({
            let r = next(s, InputView::Audio { level, samples, now_ms, tts_last_played_ms });
            &&& r.0 == s
            &&& level == AudioLevel::Loud ==> r.1 == (ReactionView {
                emit: Some(SubtitleView::Status { message: "reconnecting"@ }),
                effect: Effect::Reconnect,
            })
            &&& level != AudioLevel::Loud ==> r.1 == (ReactionView {
                emit: None,
                effect: Effect::Continue,
            })
        }),
        next(s, InputView::Reconnected(HandshakeView::Started)).1 == (ReactionView {
            emit: Some(SubtitleView::Status {
                message: if s.tts_enabled { "reconnected_tts"@ } else { "reconnected_text"@ },
            }),
            effect: Effect::Continue,
        }),
        next(s, InputView::Reconnected(HandshakeView::Failed { message })).0.phase == Phase::Ended,
        next(s, InputView::Reconnected(HandshakeView::Failed { message })).1 == (ReactionView {
            emit: Some(SubtitleView::Error { message: "reconnect_failed:"@ + message }),
            effect: Effect::Finish,
        }),
        next(s, InputView::Reconnected(HandshakeView::ConnectFailed { message })).0.phase
            == Phase::Ended,
        next(s, InputView::Reconnected(HandshakeView::ConnectFailed { message })).1 == (ReactionView {
            emit: Some(SubtitleView::Error { message: "reconnect_failed:"@ + message }),
            effect: Effect::Finish,
        }),
        next(s, InputView::Reconnected(HandshakeView::TimedOut)).0.phase == Phase::Ended,
        next(s, InputView::Reconnected(HandshakeView::TimedOut)).1 == (ReactionView {
            emit: Some(SubtitleView::Error { message: "reconnect_timeout"@ }),
            effect: Effect::Finish,
        }),
        next(s, InputView::Reconnected(HandshakeView::Unexpected)).0.phase == Phase::Ended,
        next(s, InputView::Reconnected(HandshakeView::Unexpected)).1 == (ReactionView {
            emit: Some(SubtitleView::Error { message: "reconnect_timeout"@ }),
            effect: Effect::Finish,
        }),
        next(s, InputView::Api(SessionEventView::Usage)) == (s, (ReactionView {
            emit: None,
            effect: Effect::Continue,
        })),
{
}

/// A frame that brings a connected session to its pause point drops the
/// connection and the buffer, showing `auto_paused`; any other frame shows
/// nothing and goes on.
pub proof fn lemma_frame_reaction<T>(
    s: SessionState<T>,
    level: AudioLevel,
    samples: Seq<T>,
    now_ms: i64,
    tts_last_played_ms: i64,
)
    requires
        s.phase == Phase::Connected,
    ensures
        ({
            let r = next(s, InputView::Audio { level, samples, now_ms, tts_last_played_ms });
            &&& r.0.phase == Phase::Paused ==> r.1 == (ReactionView {
                emit: Some(SubtitleView::Status { message: "auto_paused"@ }),
                effect: Effect::Disconnect,
            }) && r.0.buffer.len() == 0
            &&& r.0.phase != Phase::Paused ==> r.0.phase == Phase::Connected && r.1 == (
            ReactionView { emit: None, effect: Effect::Continue })
        }),
{
}

/// The connection pauses on a frame only when silence has held for
/// `AUTO_PAUSE_FRAMES` frames; a paused session asks to reconnect exactly
/// when a frame is loud.
pub proof fn lemma_pause_and_wake<T>(
    s: SessionState<T>,
    level: AudioLevel,
    samples: Seq<T>,
    now_ms: i64,
    tts_last_played_ms: i64,
)
    requires
        state_wf(s),
    ensures
        ({
            let r = next(s, InputView::Audio { level, samples, now_ms, tts_last_played_ms });
            &&& s.phase == Phase::Connected && r.0.phase == Phase::Paused ==> r.0.silence.in_silence
                && r.0.silence.silent_frames >= AUTO_PAUSE_FRAMES
            &&& s.phase == Phase::Paused ==> (r.1.effect == Effect::Reconnect <==> level == AudioLevel::Loud)
            &&& s.phase == Phase::Paused ==> r.0 == s
        }),
{
}

/// While connected, a frame either pauses the connection or joins the
/// buffer whole: its own samples when the input is neither silent nor
/// possibly echoing synthesized speech, as many silent samples otherwise.
pub proof fn lemma_frame_joins_buffer<T>(
    s: SessionState<T>,
    level: AudioLevel,
    samples: Seq<T>,
    now_ms: i64,
    tts_last_played_ms: i64,
)
    requires
        state_wf(s),
        s.phase == Phase::Connected,
    ensures
        ({
            let r = next(s, InputView::Audio { level, samples, now_ms, tts_last_played_ms });
            let t = observed(s.silence, level);
            r.0.phase == Phase::Connected ==> {
                &&& r.0.buffer.len() == s.buffer.len() + samples.len()
                &&& r.0.buffer.take(s.buffer.len() as int) == s.buffer
                &&& (!t.in_silence && !echo_window(now_ms as int, tts_last_played_ms as int))
                    ==> r.0.buffer.skip(s.buffer.len() as int) == samples
                &&& (t.in_silence || echo_window(now_ms as int, tts_last_played_ms as int))
                    ==> forall|i: int| s.buffer.len() <= i < r.0.buffer.len() ==> #[trigger] r.0.buffer[i] == s.fill
            }
        }),
{
    let r = next(s, InputView::Audio { level, samples, now_ms, tts_last_played_ms });
    if r.0.phase == Phase::Connected {
        assert(r.0.buffer.take(s.buffer.len() as int) =~= s.buffer);
        let t = observed(s.silence, level);
        if !t.in_silence && !echo_window(now_ms as int, tts_last_played_ms as int) {
            assert(r.0.buffer.skip(s.buffer.len() as int) =~= samples);
        }
    }
}

/// A successful reconnection starts listening afresh: connected, no silence
/// counted, nothing buffered; the windows of shown texts are kept.
pub proof fn lemma_reconnect_starts_afresh<T>(s: SessionState<T>)
    requires
        s.phase == Phase::Paused,
    ensures
        ({
            let s1 = next(s, InputView::Reconnected(HandshakeView::Started)).0;
            &&& s1.phase == Phase::Connected
            &&& s1.silence.silent_frames == 0 && !s1.silence.in_silence
            &&& s1.buffer.len() == 0
            &&& s1.sources == s.sources && s1.translations == s.translations
        }),
{
}

/// A chunk taken from the buffer and what stays behind make up the buffer.
pub proof fn lemma_chunk_and_rest<T>(buffer: Seq<T>, n: int)
    requires
        0 <= n <= buffer.len(),
    ensures
        buffer.take(n) + buffer.skip(n) == buffer,
{
    assert(buffer.take(n) + buffer.skip(n) =~= buffer);
}

/// The session after `inputs`, oldest first, and its reactions, in order.
pub open spec fn run<T>(s: SessionState<T>, inputs: Seq<InputView<T>>) -> (
    SessionState<T>,
    Seq<ReactionView>,
)
    decreases inputs.len(),
{
    if inputs.len() == 0 {
        (s, Seq::empty())
    } else {
        let (s1, rs) = run(s, inputs.drop_last());
        let (s2, r) = next(s1, inputs.last());
        (s2, rs.push(r))
    }
}

/// The text of the final subtitle that `r` shows: a source subtitle, or a
/// translation when `translation`.
pub open spec fn shown_final(r: ReactionView, translation: bool) -> Option<Seq<char>> {
    match r.emit {
        Some(SubtitleView::Source { text, is_final, spk_chg }) => {
            if !translation && is_final {
                Some(text)
            } else {
                None
            }
        },
        Some(SubtitleView::Translation { text, is_final, spk_chg }) => {
            if translation && is_final {
                Some(text)
            } else {
                None
            }
        },
        _ => None,
    }
}

/// The texts of the final subtitles (source, or translation when
/// `translation`) that `rs` shows, in order.
pub open spec fn shown_finals(rs: Seq<ReactionView>, translation: bool) -> Seq<Seq<char>>
    decreases rs.len(),
{
    if rs.len() == 0 {
        Seq::empty()
    } else {
        let f = shown_finals(rs.drop_last(), translation);
        match shown_final(rs.last(), translation) {
            Some(t) => f.push(t),
            None => f,
        }
    }
}

/// The window of source texts, or of translations when `translation`.
pub open spec fn window_of<T>(s: SessionState<T>, translation: bool) -> Seq<Seq<char>> {
    if translation {
        s.translations
    } else {
        s.sources
    }
}

/// One step shows a final subtitle only when it is not empty and does not
/// repeat its window, which then remembers it; a step that shows none
/// leaves the window as it was.
pub proof fn lemma_next_final_text<T>(s: SessionState<T>, input: InputView<T>, translation: bool)
    ensures
        ({
            let (s2, r) = next(s, input);
            match shown_final(r, translation) {
                Some(t) => t.len() > 0 && !is_repeat(t, window_of(s, translation)) && window_of(
                    s2,
                    translation,
                ) == remembered(window_of(s, translation), t),
                None => window_of(s2, translation) == window_of(s, translation),
            }
        }),
{
    if s.phase != Phase::Ended {
        match input {
            InputView::Api(ev) => {
                if s.phase == Phase::Connected {
                    match ev {
                        SessionEventView::SourceSubtitle { text, is_final, spk_chg } => {},
                        SessionEventView::TranslationSubtitle { text, is_final, spk_chg } => {},
                        _ => {},
                    }
                }
            },
            InputView::Audio { level, samples, now_ms, tts_last_played_ms } => {},
            InputView::Reconnected(reply) => {},
            _ => {},
        }
    }
}

/// From a session whose window is empty (a new session), whatever happens,
/// any `DEDUP_WINDOW + 1` consecutive final subtitles it shows (source
/// subtitles, or translations when `translation`) carry pairwise distinct
/// texts, none of them empty; and the window holds the last ones shown.
pub proof fn lemma_final_subtitles_spaced<T>(
    s0: SessionState<T>,
    inputs: Seq<InputView<T>>,
    translation: bool,
)
    requires
        window_of(s0, translation).len() == 0,
    ensures
        spaced_distinct(shown_finals(run(s0, inputs).1, translation)),
        window_of(run(s0, inputs).0, translation) == last_texts(
            shown_finals(run(s0, inputs).1, translation),
        ),
    decreases inputs.len(),
{
    if inputs.len() == 0 {
        assert(shown_finals(run(s0, inputs).1, translation) =~= Seq::<Seq<char>>::empty());
        assert(window_of(s0, translation) =~= Seq::<Seq<char>>::empty());
    } else {
        let prev = inputs.drop_last();
        lemma_final_subtitles_spaced(s0, prev, translation);
        let (s1, rs) = run(s0, prev);
        let (s2, r) = next(s1, inputs.last());
        lemma_next_final_text(s1, inputs.last(), translation);
        let rs2 = run(s0, inputs).1;
        assert(rs2 == rs.push(r));
        assert(rs2.drop_last() =~= rs);
        let f = shown_finals(rs, translation);
        match shown_final(r, translation) {
            Some(t) => {
                lemma_remember_keeps_spacing(f, t);
            },
            None => {},
        }
    }
}

/// A microphone frame as the session receives it.
pub ghost struct FrameView<T> {
    pub level: AudioLevel,
    pub samples: Seq<T>,
    pub now_ms: i64,
    pub tts_last_played_ms: i64,
}

/// The session input of a frame.
pub open spec fn frame_input<T>(f: FrameView<T>) -> InputView<T> {
    InputView::Audio {
        level: f.level,
        samples: f.samples,
        now_ms: f.now_ms,
        tts_last_played_ms: f.tts_last_played_ms,
    }
}

/// The session inputs of frames, in order.
pub open spec fn frame_inputs<T>(frames: Seq<FrameView<T>>) -> Seq<InputView<T>> {
    Seq::new(frames.len(), |i: int| frame_input(frames[i]))
}

/// The loudness of frames, in order.
pub open spec fn levels_of<T>(frames: Seq<FrameView<T>>) -> Seq<AudioLevel> {
    Seq::new(frames.len(), |i: int| frames[i].level)
}

/// What frames contribute to the audio sent to the service: each frame as
/// it is, or as as many `fill` samples when synthesized speech played less
/// than `ECHO_COOLDOWN_MS` before it or the input up to it ends with a quiet
/// run of at least `SILENCE_SUSTAIN_FRAMES` frames.
pub open spec fn sent_audio<T>(frames: Seq<FrameView<T>>, fill: T) -> Seq<T>
    decreases frames.len(),
{
    if frames.len() == 0 {
        Seq::empty()
    } else {
        let f = frames.last();
        let muted = echo_window(f.now_ms as int, f.tts_last_played_ms as int) || silence_reached(
            levels_of(frames),
        );
        sent_audio(frames.drop_last(), fill) + if muted {
            Seq::new(f.samples.len(), |i: int| fill)
        } else {
            f.samples
        }
    }
}

/// One thing that happens to a running session: an input, or the caller
/// taking the next resampler chunk.
pub ghost enum Happening<T> {
    Input(InputView<T>),
    ChunkTaken,
}

/// The session after `h`, and the samples it hands to the resampler.
pub open spec fn happen<T>(s: SessionState<T>, h: Happening<T>) -> (SessionState<T>, Seq<T>) {
    match h {
        Happening::Input(i) => (next(s, i).0, Seq::empty()),
        Happening::ChunkTaken => match chunk_step(s) {
            (s2, Some(c)) => (s2, c),
            (s2, None) => (s2, Seq::empty()),
        },
    }
}

/// The session after `hs`, oldest first, everything it handed to the
/// resampler, and whether it stayed connected throughout.
pub open spec fn live_run<T>(s: SessionState<T>, hs: Seq<Happening<T>>) -> (
    SessionState<T>,
    Seq<T>,
    bool,
)
    decreases hs.len(),
{
    if hs.len() == 0 {
        (s, Seq::empty(), s.phase == Phase::Connected)
    } else {
        let (s1, sent, up) = live_run(s, hs.drop_last());
        let (s2, c) = happen(s1, hs.last());
        (s2, sent + c, up && s2.phase == Phase::Connected)
    }
}

/// The microphone frames among `hs`, in order.
pub open spec fn frames_in<T>(hs: Seq<Happening<T>>) -> Seq<FrameView<T>>
    decreases hs.len(),
{
    if hs.len() == 0 {
        Seq::empty()
    } else {
        let f = frames_in(hs.drop_last());
        match hs.last() {
            Happening::Input(InputView::Audio { level, samples, now_ms, tts_last_played_ms }) => f.push(
                FrameView { level, samples, now_ms, tts_last_played_ms },
            ),
            _ => f,
        }
    }
}

/// An input other than a frame that leaves a connected session connected
/// changes neither its silence, its buffer nor its silent sample.
pub proof fn lemma_other_inputs_keep_audio<T>(s: SessionState<T>, i: InputView<T>)
    requires
        s.phase == Phase::Connected,
        !(i is Audio),
        next(s, i).0.phase == Phase::Connected,
    ensures
        next(s, i).0.silence == s.silence,
        next(s, i).0.buffer == s.buffer,
        next(s, i).0.fill == s.fill,
{
    match i {
        InputView::Api(ev) => {
            match ev {
                SessionEventView::SourceSubtitle { text, is_final, spk_chg } => {},
                SessionEventView::TranslationSubtitle { text, is_final, spk_chg } => {},
                _ => {},
            }
        },
        _ => {},
    }
}

/// From a connected session that hears sound (a new or reconnected one),
/// whatever happens in between (service events, resampler readiness, chunks
/// taken), as long as the connection stays up: the silence the session holds
/// is that of the frames it heard (see `lemma_silence_is_quiet_run`), and
/// what it handed to the resampler followed by what still waits is its
/// earlier buffer followed by `sent_audio` of the frames: each frame as it
/// is, or as silent samples exactly when synthesized speech played under
/// `ECHO_COOLDOWN_MS` before it or it ends a quiet run of at least
/// `SILENCE_SUSTAIN_FRAMES` frames.
pub proof fn lemma_muting_over_run<T>(s0: SessionState<T>, hs: Seq<Happening<T>>)
    requires
        s0.phase == Phase::Connected,
        s0.silence == sound_heard(),
        hs.len() < u64::MAX,
    ensures
        frames_in(hs).len() <= hs.len(),
        live_run(s0, hs).2 ==> {
            let (s, sent, up) = live_run(s0, hs);
            &&& s.silence == observe_all(sound_heard(), levels_of(frames_in(hs)))
            &&& sent + s.buffer == s0.buffer + sent_audio(frames_in(hs), s0.fill)
            &&& s.fill == s0.fill
        },
    decreases hs.len(),
{
    if hs.len() == 0 {
        assert(s0.buffer + sent_audio(frames_in(hs), s0.fill) =~= s0.buffer);
        assert(Seq::<T>::empty() + s0.buffer =~= s0.buffer);
        assert(levels_of(frames_in(hs)) =~= Seq::<AudioLevel>::empty());
    } else {
        let prev = hs.drop_last();
        lemma_muting_over_run(s0, prev);
        let (s1, sent1, up1) = live_run(s0, prev);
        let h = hs.last();
        let (s2, c) = happen(s1, h);
        let fp = frames_in(prev);
        if live_run(s0, hs).2 {
            assert(up1);
            assert(s1.phase == Phase::Connected) by {
                if prev.len() > 0 {
                    let (sa, sb, sc) = live_run(s0, prev.drop_last());
                    assert(sc && happen(sa, prev.last()).0.phase == Phase::Connected);
                }
            }
            match h {
                Happening::ChunkTaken => {
                    assert(frames_in(hs) == fp);
                    if chunk_ready(s1) {
                        let n = s1.chunk_len->0 as int;
                        assert(s1.buffer.take(n) + s1.buffer.skip(n) =~= s1.buffer);
                        assert(sent1 + c + s2.buffer =~= sent1 + s1.buffer);
                    } else {
                        assert(sent1 + c =~= sent1);
                    }
                },
                Happening::Input(i) => {
                    match i {
                        InputView::Audio { level, samples, now_ms, tts_last_played_ms } => {
                            let f = FrameView { level, samples, now_ms, tts_last_played_ms };
                            let fs = frames_in(hs);
                            assert(fs == fp.push(f));
                            assert(fs.drop_last() =~= fp);
                            assert(levels_of(fs).drop_last() =~= levels_of(fp));
                            assert(levels_of(fs).last() == level);
                            lemma_silence_is_quiet_run(levels_of(fs));
                            let muted = echo_window(now_ms as int, tts_last_played_ms as int)
                                || silence_reached(levels_of(fs));
                            let added = if muted {
                                Seq::new(samples.len(), |k: int| s0.fill)
                            } else {
                                samples
                            };
                            assert(s2.buffer == s1.buffer + added);
                            assert(sent1 + c =~= sent1);
                            assert(s0.buffer + sent_audio(fs, s0.fill) =~= s0.buffer + sent_audio(
                                fp,
                                s0.fill,
                            ) + added);
                            assert(sent1 + c + s2.buffer =~= (sent1 + s1.buffer) + added);
                        },
                        _ => {
                            lemma_other_inputs_keep_audio(s1, i);
                            assert(frames_in(hs) == fp);
                            assert(sent1 + c =~= sent1);
                        },
                    }
                },
            }
        }
    }
}

} // verus!
