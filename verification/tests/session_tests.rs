use transecho::audio::{AudioLevel, AUTO_PAUSE_FRAMES};
use transecho::session::{
    Effect, HandshakeReply, Phase, Reaction, Session, SessionEvent, SessionInput, SubtitleEvent,
};

fn status(r: &Reaction) -> Option<String> {
    match &r.emit {
        Some(SubtitleEvent::Status { message }) => Some(message.clone()),
        _ => None,
    }
}

fn error(r: &Reaction) -> Option<String> {
    match &r.emit {
        Some(SubtitleEvent::Error { message }) => Some(message.clone()),
        _ => None,
    }
}

fn ready(tts: bool, player: bool) -> Session<i16> {
    let mut s = Session::new(tts, player, 0i16);
    assert!(s.needs_resampler());
    let r = s.step(SessionInput::ResamplerReady { input_frames: 4, channels: 2 });
    assert!(r.emit.is_none());
    assert_eq!(r.effect, Effect::Continue);
    assert!(!s.needs_resampler());
    assert_eq!(s.chunk_len(), Some(8));
    s
}

fn frame(level: AudioLevel, samples: Vec<i16>) -> SessionInput<i16> {
    SessionInput::Audio { level, samples, now_ms: 1_000_000, tts_last_played_ms: 0 }
}

fn source(text: &str, is_final: bool) -> SessionInput<i16> {
    SessionInput::Api(SessionEvent::SourceSubtitle { text: text.to_string(), is_final, spk_chg: false })
}

fn translation(text: &str, is_final: bool) -> SessionInput<i16> {
    SessionInput::Api(SessionEvent::TranslationSubtitle {
        text: text.to_string(),
        is_final,
        spk_chg: true,
    })
}

fn pause(s: &mut Session<i16>) {
    for k in 0..AUTO_PAUSE_FRAMES {
        let r = s.step(frame(AudioLevel::Quiet, vec![]));
        if k + 1 < AUTO_PAUSE_FRAMES {
            assert_eq!(r.effect, Effect::Continue);
        } else {
            assert_eq!(status(&r).as_deref(), Some("auto_paused"));
            assert_eq!(r.effect, Effect::Disconnect);
        }
    }
    assert_eq!(s.phase(), Phase::Paused);
}

#[test]
fn loud_audio_is_buffered_and_chunked() {
    let mut s = ready(false, false);
    let r = s.step(frame(AudioLevel::Loud, vec![1, 2, 3, 4, 5, 6, 7, 8, 9, 10]));
    assert!(r.emit.is_none());
    assert_eq!(s.buffered(), 10);
    assert_eq!(s.take_chunk(), Some(vec![1, 2, 3, 4, 5, 6, 7, 8]));
    assert_eq!(s.take_chunk(), None);
    assert_eq!(s.buffered(), 2);
}

#[test]
fn echo_of_synthesized_speech_is_muted() {
    let mut s = ready(true, true);
    let r = s.step(SessionInput::Audio {
        level: AudioLevel::Loud,
        samples: vec![5; 8],
        now_ms: 10_100,
        tts_last_played_ms: 10_000,
    });
    assert_eq!(r.effect, Effect::Continue);
    assert_eq!(s.take_chunk(), Some(vec![0; 8]));
    s.step(SessionInput::Audio {
        level: AudioLevel::Loud,
        samples: vec![5; 8],
        now_ms: 10_150,
        tts_last_played_ms: 10_000,
    });
    assert_eq!(s.take_chunk(), Some(vec![5; 8]));
}

#[test]
fn silent_input_is_sent_as_zeros() {
    let mut s = ready(false, false);
    for _ in 0..29 {
        s.step(frame(AudioLevel::Quiet, vec![1]));
    }
    // still counted as sound: samples kept
    assert_eq!(s.buffered(), 29);
    assert!(!s.silence().in_silence);
    s.step(frame(AudioLevel::Quiet, vec![1]));
    assert!(s.silence().in_silence);
    let mut all = Vec::new();
    while let Some(c) = s.take_chunk() {
        all.extend(c);
    }
    assert_eq!(all, vec![1; 24]);
    assert_eq!(s.buffered(), 6);
    s.step(frame(AudioLevel::Low, vec![7, 7]));
    assert!(s.silence().in_silence);
    assert_eq!(s.take_chunk(), Some(vec![1, 1, 1, 1, 1, 0, 0, 0]));
}

#[test]
fn final_subtitles_are_shown_once() {
    let mut s = ready(false, false);
    let r = s.step(source("你好", true));
    match &r.emit {
        Some(SubtitleEvent::Source { text, is_final, spk_chg }) => {
            assert_eq!(text, "你好");
            assert!(*is_final);
            assert!(!*spk_chg);
        }
        other => panic!("unexpected {:?}", other),
    }
    let again = s.step(source("你好", true));
    assert!(again.emit.is_none());
    assert_eq!(again.effect, Effect::Continue);
    assert_eq!(s.remembered_sources(), 1);
}

#[test]
fn interim_subtitles_are_always_shown() {
    let mut s = ready(false, false);
    for _ in 0..2 {
        let r = s.step(source("你", false));
        assert!(matches!(r.emit, Some(SubtitleEvent::Source { is_final: false, .. })));
    }
    assert_eq!(s.remembered_sources(), 0);
}

#[test]
fn empty_subtitles_are_dropped() {
    let mut s = ready(false, false);
    assert!(s.step(source("", true)).emit.is_none());
    assert!(s.step(translation("", false)).emit.is_none());
    assert_eq!(s.remembered_sources(), 0);
}

#[test]
fn translations_have_their_own_window() {
    let mut s = ready(false, false);
    assert!(s.step(source("Hello", true)).emit.is_some());
    let r = s.step(translation("Hello", true));
    assert!(matches!(r.emit, Some(SubtitleEvent::Translation { is_final: true, spk_chg: true, .. })));
    assert!(s.step(translation("Hello", true)).emit.is_none());
    assert!(s.step(translation("Hel", true)).emit.is_some());
    assert!(s.step(translation("lo", true)).emit.is_some());
    assert!(s.step(translation("Hello", true)).emit.is_none());
    assert_eq!(s.remembered_translations(), 3);
}

#[test]
fn usage_and_speech_are_handed_back() {
    let mut s = ready(true, true);
    assert_eq!(s.step(SessionInput::Api(SessionEvent::Usage)).effect, Effect::ForwardUsage);
    assert_eq!(s.step(SessionInput::Api(SessionEvent::TtsAudio)).effect, Effect::PlayTts);
    let mut no_player = ready(true, false);
    assert_eq!(no_player.step(SessionInput::Api(SessionEvent::TtsAudio)).effect, Effect::Continue);
    assert_eq!(s.step(SessionInput::Api(SessionEvent::Other)).effect, Effect::Continue);
    assert_eq!(s.step(SessionInput::Api(SessionEvent::SessionStarted)).effect, Effect::Continue);
}

#[test]
fn service_failure_ends_the_session() {
    let mut s = ready(false, false);
    let r = s.step(SessionInput::Api(SessionEvent::SessionFailed { message: "quota exceeded".to_string() }));
    assert_eq!(error(&r).as_deref(), Some("quota exceeded"));
    assert_eq!(r.effect, Effect::Finish);
    assert!(s.is_finished());
    let after = s.step(source("late", true));
    assert!(after.emit.is_none());
    assert_eq!(after.effect, Effect::Finish);
}

#[test]
fn service_end_and_closed_stream() {
    let mut s = ready(false, false);
    let r = s.step(SessionInput::Api(SessionEvent::SessionFinished));
    assert_eq!(status(&r).as_deref(), Some("session_ended"));
    assert_eq!(r.effect, Effect::Finish);
    let mut s = ready(false, false);
    let r = s.step(SessionInput::ApiClosed);
    assert_eq!(error(&r).as_deref(), Some("disconnected"));
    assert_eq!(r.effect, Effect::Finish);
}

#[test]
fn stop_request_ends_the_session() {
    let mut s = ready(false, false);
    let r = s.step(SessionInput::Stop);
    assert_eq!(status(&r).as_deref(), Some("stopped"));
    assert_eq!(r.effect, Effect::Finish);
    assert!(s.is_finished());
    let mut paused = ready(false, false);
    pause(&mut paused);
    let r = paused.step(SessionInput::Stop);
    assert_eq!(status(&r).as_deref(), Some("stopped"));
}

#[test]
fn end_of_audio_ends_the_session() {
    let mut s = ready(false, false);
    let r = s.step(SessionInput::AudioEnded);
    assert!(r.emit.is_none());
    assert_eq!(r.effect, Effect::Finish);
    assert!(s.is_finished());
}

#[test]
fn resampler_failure_ends_the_session() {
    let mut s: Session<i16> = Session::new(false, false, 0);
    let r = s.step(SessionInput::ResamplerFailed { message: "bad rate".to_string() });
    assert_eq!(error(&r).as_deref(), Some("resample_failed:bad rate"));
    assert_eq!(r.effect, Effect::Finish);
}

#[test]
fn long_silence_pauses_and_speech_reconnects() {
    let mut s = ready(true, true);
    s.step(frame(AudioLevel::Loud, vec![1, 2, 3]));
    pause(&mut s);
    assert_eq!(s.buffered(), 0);
    assert_eq!(s.take_chunk(), None);
    // between the thresholds: not loud enough to wake
    let r = s.step(frame(AudioLevel::Low, vec![1]));
    assert!(r.emit.is_none());
    assert_eq!(r.effect, Effect::Continue);
    assert!(s.step(SessionInput::Api(SessionEvent::Usage)).emit.is_none());
    let r = s.step(frame(AudioLevel::Loud, vec![1]));
    assert_eq!(status(&r).as_deref(), Some("reconnecting"));
    assert_eq!(r.effect, Effect::Reconnect);
    let r = s.step(SessionInput::Reconnected(HandshakeReply::Started));
    assert_eq!(status(&r).as_deref(), Some("reconnected_tts"));
    assert_eq!(s.phase(), Phase::Connected);
    assert_eq!(s.silence().silent_frames, 0);
    assert_eq!(s.buffered(), 0);
}

#[test]
fn reconnection_wording_without_speech() {
    let mut s = ready(false, false);
    pause(&mut s);
    let r = s.step(SessionInput::Reconnected(HandshakeReply::Started));
    assert_eq!(status(&r).as_deref(), Some("reconnected_text"));
}

#[test]
fn failed_reconnections_end_the_session() {
    let cases = [
        (HandshakeReply::Failed { message: "denied".to_string() }, "reconnect_failed:denied"),
        (HandshakeReply::ConnectFailed { message: "dns".to_string() }, "reconnect_failed:dns"),
        (HandshakeReply::Unexpected, "reconnect_timeout"),
        (HandshakeReply::TimedOut, "reconnect_timeout"),
    ];
    for (reply, expected) in cases {
        let mut s = ready(false, false);
        pause(&mut s);
        let r = s.step(SessionInput::Reconnected(reply));
        assert_eq!(error(&r).as_deref(), Some(expected));
        assert_eq!(r.effect, Effect::Finish);
        assert!(s.is_finished());
    }
}

#[test]
fn failed_send_drops_the_connection() {
    let mut s = ready(false, false);
    s.step(frame(AudioLevel::Loud, vec![1, 2, 3]));
    let r = s.step(SessionInput::SendFailed);
    assert!(r.emit.is_none());
    assert_eq!(r.effect, Effect::Disconnect);
    assert_eq!(s.phase(), Phase::Paused);
    assert_eq!(s.buffered(), 0);
}

#[test]
fn frame_breaking_a_quiet_run_is_sent_as_is() {
    let mut s = ready(false, false);
    for _ in 0..30 {
        s.step(frame(AudioLevel::Quiet, vec![1]));
    }
    // 29 frames counted as sound, the 30th muted
    for _ in 0..2 {
        s.step(frame(AudioLevel::Low, vec![2]));
    }
    s.step(frame(AudioLevel::Loud, vec![3, 3, 3, 3]));
    let mut all = Vec::new();
    while let Some(c) = s.take_chunk() {
        all.extend(c);
    }
    let mut expected = vec![1; 29];
    expected.extend(vec![0, 0, 0, 3, 3, 3, 3]);
    assert_eq!(all, expected[..32].to_vec());
    assert_eq!(s.buffered(), 4);
}

#[test]
fn sixteen_consecutive_finals_are_distinct() {
    let mut s = ready(false, false);
    let mut shown = Vec::new();
    let texts = ["a", "b", "a", "c", "ab", "bc", "d", "a"];
    for t in texts {
        if s.step(source(t, true)).emit.is_some() {
            shown.push(t);
        }
    }
    assert_eq!(shown, vec!["a", "b", "c", "d"]);
    for k in 0..20 {
        assert!(s.step(source(&format!("line {}", k), true)).emit.is_some());
    }
    // "a" left the window long ago
    assert!(s.step(source("a", true)).emit.is_some());
}
