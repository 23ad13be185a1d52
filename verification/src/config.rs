//! Opening a session: the settings sent to the translation service and the
//! reading of its first answer.

use vstd::prelude::*;
use vstd::string::*;
use crate::session::{status, HandshakeReply, HandshakeView, SubtitleEvent, SubtitleView};
use crate::text::join;

verus! {

/// The resource the interpretation service is billed under.
pub open spec fn resource_id_text() -> Seq<char> {
    "volc.service_type.10053"@
}

/// The service mode: speech to speech when synthesized speech is wanted,
/// speech to text otherwise.
pub open spec fn mode_text(enable_tts: bool) -> Seq<char> {
    if enable_tts {
        "s2s"@
    } else {
        "s2t"@
    }
}

/// The fixed texts of opening a session: the resource, the two modes
/// (speech to speech with synthesized speech, speech to text without), and
/// the start statuses.
pub proof fn lemma_opening_texts()
    ensures
        resource_id_text() == "volc.service_type.10053"@,
        mode_text(true) == "s2s"@,
        mode_text(false) == "s2t"@,
        lifecycle_text(LifecycleStage::Connecting) == "connecting"@,
        lifecycle_text(LifecycleStage::Started) == "started"@,
        lifecycle_text(LifecycleStage::TtsUnavailable) == "tts_init_failed"@,
{
}

/// A lowercase hexadecimal digit.
pub open spec fn is_lower_hex(c: char) -> bool {
    ('0' <= c && c <= '9') || ('a' <= c && c <= 'f')
}

/// The hyphenated lowercase text of a random (version 4) UUID:
/// `xxxxxxxx-xxxx-4xxx-Yxxx-xxxxxxxxxxxx`, with `Y` one of `8`, `9`, `a`, `b`.
pub open spec fn is_random_uuid_text(s: Seq<char>) -> bool {
    &&& s.len() == 36
    &&& forall|i: int|
        0 <= i < 36 ==> if i == 8 || i == 13 || i == 18 || i == 23 {
            #[trigger] s[i] == '-'
        } else {
            is_lower_hex(s[i])
        }
    &&& s[14] == '4'
    &&& (s[19] == '8' || s[19] == '9' || s[19] == 'a' || s[19] == 'b')
}

/// Calls `uuid::Uuid::new_v4` and renders the result with `to_string`.
/// The value is random; the contract claims only its shape, which the
/// crate's `format_hyphenated` writes: 36 lowercase hexadecimal digits and
/// hyphens, version digit `4`, variant digit `8` to `b`.
#[verifier::external_body]
fn random_uuid() -> (s: String)
    ensures
        is_random_uuid_text(s@),
{
    uuid::Uuid::new_v4().to_string()
}

/// The service mode for `enable_tts` (see `mode_text`).
pub fn session_mode(enable_tts: bool) -> (m: &'static str)
    ensures
        m@ == mode_text(enable_tts),
{
    if enable_tts {
        "s2s"
    } else {
        "s2t"
    }
}

/// No term occurs twice in a glossary (it comes from a map keyed by term).
pub open spec fn glossary_keys_unique(glossary: Seq<(String, String)>) -> bool {
    forall|i: int, j: int|
        0 <= i < j < glossary.len() ==> (#[trigger] glossary[i]).0@ != (#[trigger] glossary[j]).0@
}

/// Whether no term occurs twice in `glossary` (see `glossary_keys_unique`).
pub fn glossary_keys_distinct(glossary: &Vec<(String, String)>) -> (b: bool)
    ensures
        b == glossary_keys_unique(glossary@),
{
    let n = glossary.len();
    let mut j: usize = 0;
    while j < n
        invariant
            n == glossary@.len(),
            j <= n,
            forall|a: int, b: int|
                0 <= a < b < j ==> (#[trigger] glossary@[a]).0@ != (#[trigger] glossary@[b]).0@,
        decreases n - j,
    {
        let mut i: usize = 0;
        while i < j
            invariant
                n == glossary@.len(),
                i <= j < n,
                forall|a: int, b: int|
                    0 <= a < b < j ==> (#[trigger] glossary@[a]).0@ != (#[trigger] glossary@[b]).0@,
                forall|a: int| 0 <= a < i ==> (#[trigger] glossary@[a]).0@ != glossary@[j as int].0@,
            decreases j - i,
        {
            if glossary[i].0 == glossary[j].0 {
                assert(glossary@[i as int].0@ == glossary@[j as int].0@);
                return false;
            }
            i = i + 1;
        }
        j = j + 1;
    }
    true
}

/// What the user chose for a session.
pub struct SessionSettings {
    pub api_key: String,
    pub source_language: String,
    pub target_language: String,
    pub speaker_id: String,
    pub hot_words: Vec<String>,
    /// Glossary entries: term and its fixed translation; no term occurs
    /// twice (`glossary_keys_unique`).
    pub glossary: Vec<(String, String)>,
    pub correct_words: String,
}

/// What is sent to the service to open a session.
pub struct SessionConfig {
    pub api_key: String,
    pub resource_id: String,
    pub connection_id: String,
    pub session_id: String,
    pub mode: String,
    pub source_language: String,
    pub target_language: String,
    pub speaker_id: String,
    pub hot_words: Vec<String>,
    /// Glossary entries; no term occurs twice (`glossary_keys_unique`).
    pub glossary: Vec<(String, String)>,
    pub correct_words: String,
}

/// The opening request for `settings`: the fixed resource, the mode for
/// `enable_tts`, fresh random connection and session identifiers, and the
/// user's choices unchanged.
pub fn session_config(settings: SessionSettings, enable_tts: bool) -> (c: SessionConfig)
    requires
        glossary_keys_unique(settings.glossary@),
    ensures
        glossary_keys_unique(c.glossary@),
        c.resource_id@ == resource_id_text(),
        c.mode@ == mode_text(enable_tts),
        is_random_uuid_text(c.connection_id@),
        is_random_uuid_text(c.session_id@),
        c.api_key == settings.api_key,
        c.source_language == settings.source_language,
        c.target_language == settings.target_language,
        c.speaker_id == settings.speaker_id,
        c.hot_words == settings.hot_words,
        c.glossary == settings.glossary,
        c.correct_words == settings.correct_words,
{
    let session_id = random_uuid();
    let connection_id = random_uuid();
    SessionConfig {
        api_key: settings.api_key,
        resource_id: String::from_str("volc.service_type.10053"),
        connection_id,
        session_id,
        mode: String::from_str(session_mode(enable_tts)),
        source_language: settings.source_language,
        target_language: settings.target_language,
        speaker_id: settings.speaker_id,
        hot_words: settings.hot_words,
        glossary: settings.glossary,
        correct_words: settings.correct_words,
    }
}

/// What opening a session gives: the status to show once the service
/// confirmed it, else the error the start is refused with.
pub open spec fn opening_outcome(reply: HandshakeView, enable_tts: bool) -> Result<
    SubtitleView,
    Seq<char>,
> {
    match reply {
        HandshakeView::Started => Ok(
            status(
                if enable_tts {
                    "connected_tts"@
                } else {
                    "connected_text"@
                },
            ),
        ),
        HandshakeView::Failed { message } => Err("api_failed:"@ + message),
        HandshakeView::ConnectFailed { message } => Err(message),
        HandshakeView::Unexpected => Err("unexpected_response"@),
        HandshakeView::TimedOut => Err("timeout"@),
    }
}

/// A session opens only when the service confirmed it: any other reply is
/// a refusal, and the messages are fixed whatever the mode: `timeout` when
/// no answer came in time, `unexpected_response` for another answer,
/// `api_failed:` and the service's message for a refusal, and the connection
/// error itself when no connection was made. A confirmed session reports
/// `connected_tts` or `connected_text` by its mode.
pub proof fn lemma_opening_only_when_started(reply: HandshakeView, enable_tts: bool)
    ensures
        opening_outcome(reply, enable_tts) is Ok <==> reply == HandshakeView::Started,
        reply == HandshakeView::TimedOut ==> opening_outcome(reply, enable_tts) == Err::<
            SubtitleView,
            Seq<char>,
        >("timeout"@),
        reply == HandshakeView::Unexpected ==> opening_outcome(reply, enable_tts) == Err::<
            SubtitleView,
            Seq<char>,
        >("unexpected_response"@),
        reply matches HandshakeView::Failed { message } ==> opening_outcome(reply, enable_tts)
            == Err::<SubtitleView, Seq<char>>("api_failed:"@ + message),
        reply matches HandshakeView::ConnectFailed { message } ==> opening_outcome(reply, enable_tts)
            == Err::<SubtitleView, Seq<char>>(message),
        reply == HandshakeView::Started ==> opening_outcome(reply, enable_tts) == Ok::<
            SubtitleView,
            Seq<char>,
        >(SubtitleView::Status { message: if enable_tts { "connected_tts"@ } else { "connected_text"@ } }),
{
}

/// Reads the service's first answer (see `opening_outcome`).
pub fn opening_result(reply: HandshakeReply, enable_tts: bool) -> (r: Result<SubtitleEvent, String>)
    ensures
        match (r, opening_outcome(reply@, enable_tts)) {
            (Ok(e), Ok(v)) => e@ == v,
            (Err(m), Err(v)) => m@ == v,
            _ => false,
        },
{
    match reply {
        HandshakeReply::Started => {
            let message = if enable_tts {
                "connected_tts"
            } else {
                "connected_text"
            };
            Ok(SubtitleEvent::Status { message: String::from_str(message) })
        },
        HandshakeReply::Failed { message } => Err(join("api_failed:", message.as_str())),
        HandshakeReply::ConnectFailed { message } => Err(message),
        HandshakeReply::Unexpected => Err(String::from_str("unexpected_response")),
        HandshakeReply::TimedOut => Err(String::from_str("timeout")),
    }
}

/// The status shown before connecting, once capture runs, and when the
/// speech player could not be made.
pub fn lifecycle_status(stage: LifecycleStage) -> (e: SubtitleEvent)
    ensures
        e@ == status(lifecycle_text(stage)),
{
    let message = match stage {
        LifecycleStage::Connecting => "connecting",
        LifecycleStage::Started => "started",
        LifecycleStage::TtsUnavailable => "tts_init_failed",
    };
    SubtitleEvent::Status { message: String::from_str(message) }
}

/// The moments of the start of a session that are reported to the user.
#[derive(Clone, Copy, Debug, PartialEq, Eq, Structural)]
pub enum LifecycleStage {
    /// Before the connection is made.
    Connecting,
    /// Capture runs.
    Started,
    /// The speech player could not be made: the session goes on without it.
    TtsUnavailable,
}

/// The status text of a stage.
pub open spec fn lifecycle_text(stage: LifecycleStage) -> Seq<char> {
    match stage {
        LifecycleStage::Connecting => "connecting"@,
        LifecycleStage::Started => "started"@,
        LifecycleStage::TtsUnavailable => "tts_init_failed"@,
    }
}

} // verus!
