use transecho::audio::{
    echo_active, forwards_input, require_input_device, sample_conversion, split_packets,
    AudioLevel, InputSampleFormat, SampleBuffer, SampleConversion, SilenceTracker,
    AUTO_PAUSE_FRAMES, PACKET_SAMPLES, SILENCE_SUSTAIN_FRAMES,
};

#[test]
fn silence_sets_in_at_the_thirtieth_quiet_frame() {
    let mut t = SilenceTracker::new();
    for _ in 0..(SILENCE_SUSTAIN_FRAMES - 1) {
        t.observe(AudioLevel::Quiet);
        assert!(!t.in_silence);
    }
    t.observe(AudioLevel::Quiet);
    assert!(t.in_silence);
    assert_eq!(t.silent_frames, SILENCE_SUSTAIN_FRAMES);
}

#[test]
fn low_frames_keep_silence_but_do_not_start_it() {
    let mut t = SilenceTracker::new();
    t.observe(AudioLevel::Quiet);
    t.observe(AudioLevel::Low);
    assert_eq!(t.silent_frames, 0);
    assert!(!t.in_silence);
    for _ in 0..SILENCE_SUSTAIN_FRAMES {
        t.observe(AudioLevel::Quiet);
    }
    assert!(t.in_silence);
    t.observe(AudioLevel::Low);
    assert!(t.in_silence);
    assert_eq!(t.silent_frames, SILENCE_SUSTAIN_FRAMES + 1);
}

#[test]
fn loud_or_unmeasured_frames_end_silence() {
    let mut t = SilenceTracker::new();
    for _ in 0..40 {
        t.observe(AudioLevel::Quiet);
    }
    t.observe(AudioLevel::Loud);
    assert_eq!(t, SilenceTracker { silent_frames: 0, in_silence: false });
    for _ in 0..40 {
        t.observe(AudioLevel::Quiet);
    }
    t.observe(AudioLevel::Unmeasured);
    assert_eq!(t, SilenceTracker { silent_frames: 0, in_silence: false });
}

#[test]
fn pause_is_due_after_three_thousand_quiet_frames() {
    let mut t = SilenceTracker::new();
    for _ in 0..(AUTO_PAUSE_FRAMES - 1) {
        t.observe(AudioLevel::Quiet);
        assert!(!t.should_pause());
    }
    t.observe(AudioLevel::Quiet);
    assert!(t.should_pause());
}

#[test]
fn echo_window_is_one_hundred_fifty_ms() {
    assert!(echo_active(1_000, 900));
    assert!(echo_active(1_000, 851));
    assert!(!echo_active(1_000, 850));
    assert!(!echo_active(1_000, 0));
    assert!(!echo_active(1_000, -5));
    assert!(echo_active(1_000, 2_000));
}

#[test]
fn buffer_gathers_and_releases_in_order() {
    let mut b: SampleBuffer<i32> = SampleBuffer::new();
    b.push_samples(&[1, 2, 3]);
    b.push_fill(0, 2);
    b.push_samples(&[4]);
    assert_eq!(b.len(), 6);
    assert_eq!(b.take_front(4), Some(vec![1, 2, 3, 0]));
    assert_eq!(b.take_front(3), None);
    assert_eq!(b.take_front(2), Some(vec![0, 4]));
    assert_eq!(b.len(), 0);
    b.push_samples(&[9]);
    b.clear();
    assert_eq!(b.len(), 0);
}

#[test]
fn packets_hold_at_most_1280_samples() {
    let pcm: Vec<i16> = (0..3000).map(|i| i as i16).collect();
    let packets = split_packets(&pcm);
    assert_eq!(packets.len(), 3);
    assert_eq!(packets[0].len(), PACKET_SAMPLES);
    assert_eq!(packets[1].len(), PACKET_SAMPLES);
    assert_eq!(packets[2].len(), 440);
    assert_eq!(packets.concat(), pcm);
}

#[test]
fn packets_edge_cases() {
    assert!(split_packets(&[]).is_empty());
    let exact: Vec<i16> = vec![3; PACKET_SAMPLES];
    assert_eq!(split_packets(&exact), vec![exact.clone()]);
    let one_more: Vec<i16> = vec![3; PACKET_SAMPLES + 1];
    let packets = split_packets(&one_more);
    assert_eq!(packets.len(), 2);
    assert_eq!(packets[1], vec![3]);
}

#[test]
fn sample_formats() {
    assert_eq!(sample_conversion(&InputSampleFormat::F32), Ok(SampleConversion::Float));
    assert_eq!(sample_conversion(&InputSampleFormat::I16), Ok(SampleConversion::SignedInt16));
    assert_eq!(sample_conversion(&InputSampleFormat::U16), Ok(SampleConversion::UnsignedInt16));
    assert_eq!(
        sample_conversion(&InputSampleFormat::Other { name: "I32".to_string() }),
        Err("Unsupported microphone sample format: I32".to_string())
    );
}

#[test]
fn missing_device_is_refused() {
    assert_eq!(require_input_device(Some(5)), Ok(5));
    assert_eq!(
        require_input_device::<u8>(None),
        Err("No microphone input device found".to_string())
    );
}

#[test]
fn empty_callbacks_yield_no_frame() {
    assert!(!forwards_input(0));
    assert!(forwards_input(480));
}
