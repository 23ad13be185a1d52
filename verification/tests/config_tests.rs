use transecho::config::{
    glossary_keys_distinct,
    lifecycle_status, opening_result, session_config, session_mode, LifecycleStage,
    SessionSettings,
};
use transecho::session::{HandshakeReply, SubtitleEvent};
use transecho::slot::SessionSlot;

fn settings() -> SessionSettings {
    SessionSettings {
        api_key: "SECRET-REDACTED".to_string(),
        source_language: "zh".to_string(),
        target_language: "en".to_string(),
        speaker_id: "speaker".to_string(),
        hot_words: vec!["Verus".to_string()],
        glossary: vec![("同传".to_string(), "interpretation".to_string())],
        correct_words: "".to_string(),
    }
}

fn is_uuid_v4(s: &str) -> bool {
    let b: Vec<char> = s.chars().collect();
    b.len() == 36
        && b.iter().enumerate().all(|(i, c)| {
            if i == 8 || i == 13 || i == 18 || i == 23 {
                *c == '-'
            } else {
                c.is_ascii_hexdigit() && !c.is_ascii_uppercase()
            }
        })
        && b[14] == '4'
        && "89ab".contains(b[19])
}

#[test]
fn modes() {
    assert_eq!(session_mode(true), "s2s");
    assert_eq!(session_mode(false), "s2t");
}

#[test]
fn config_carries_settings_and_fresh_ids() {
    let c = session_config(settings(), true);
    assert_eq!(c.resource_id, "volc.service_type.10053");
    assert_eq!(c.mode, "s2s");
    assert_eq!(c.api_key, "SECRET-REDACTED");
    assert_eq!(c.source_language, "zh");
    assert_eq!(c.target_language, "en");
    assert_eq!(c.speaker_id, "speaker");
    assert_eq!(c.hot_words, vec!["Verus".to_string()]);
    assert_eq!(c.glossary.len(), 1);
    assert!(is_uuid_v4(&c.session_id), "{}", c.session_id);
    assert!(is_uuid_v4(&c.connection_id), "{}", c.connection_id);
    let d = session_config(settings(), false);
    assert_eq!(d.mode, "s2t");
    assert!(is_uuid_v4(&d.session_id));
}

fn status_text(e: &SubtitleEvent) -> &str {
    match e {
        SubtitleEvent::Status { message } => message,
        other => panic!("unexpected {:?}", other),
    }
}

#[test]
fn opening_replies() {
    let ok = opening_result(HandshakeReply::Started, true).unwrap();
    assert_eq!(status_text(&ok), "connected_tts");
    let ok = opening_result(HandshakeReply::Started, false).unwrap();
    assert_eq!(status_text(&ok), "connected_text");
    assert_eq!(
        opening_result(HandshakeReply::Failed { message: "bad key".to_string() }, false).unwrap_err(),
        "api_failed:bad key"
    );
    assert_eq!(
        opening_result(HandshakeReply::ConnectFailed { message: "refused".to_string() }, false)
            .unwrap_err(),
        "refused"
    );
    assert_eq!(opening_result(HandshakeReply::Unexpected, true).unwrap_err(), "unexpected_response");
    assert_eq!(opening_result(HandshakeReply::TimedOut, true).unwrap_err(), "timeout");
}

#[test]
fn lifecycle_statuses() {
    assert_eq!(status_text(&lifecycle_status(LifecycleStage::Connecting)), "connecting");
    assert_eq!(status_text(&lifecycle_status(LifecycleStage::Started)), "started");
    assert_eq!(status_text(&lifecycle_status(LifecycleStage::TtsUnavailable)), "tts_init_failed");
}

#[test]
fn only_one_session_runs() {
    let mut slot: SessionSlot<u32> = SessionSlot::new();
    assert!(!slot.is_running());
    assert_eq!(slot.try_claim(1), Ok(()));
    assert!(slot.is_running());
    assert_eq!(slot.try_claim(2), Err("Already running".to_string()));
    assert_eq!(slot.take(), Some(1));
    assert!(!slot.is_running());
    assert_eq!(slot.take(), None);
    assert_eq!(slot.try_claim(3), Ok(()));
    slot.clear();
    assert!(!slot.is_running());
    assert_eq!(slot.try_claim(4), Ok(()));
}

#[test]
fn glossary_terms_must_be_distinct() {
    let g = vec![
        ("a".to_string(), "x".to_string()),
        ("b".to_string(), "y".to_string()),
    ];
    assert!(glossary_keys_distinct(&g));
    let dup = vec![
        ("a".to_string(), "x".to_string()),
        ("b".to_string(), "y".to_string()),
        ("a".to_string(), "z".to_string()),
    ];
    assert!(!glossary_keys_distinct(&dup));
    assert!(glossary_keys_distinct(&Vec::new()));
}
