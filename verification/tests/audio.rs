use voice_assistant::mic::{next_mic_event, MicEvent, MicStatus, SpeechHangover};
use voice_assistant::pipeline::{chunk_ranges, should_transcribe, UtteranceBuffer, MIN_UTTERANCE_BYTES};

#[test]
fn speech_after_silence_starts_an_utterance() {
    let mut status = MicStatus::Silence;
    match next_mic_event(&mut status, true, vec![1, 2]) {
        MicEvent::Start(f) => assert_eq!(f, vec![1, 2]),
        other => panic!("unexpected {:?}", other),
    }
    assert_eq!(status, MicStatus::Speaking);
    match next_mic_event(&mut status, true, vec![3]) {
        MicEvent::Frame(f) => assert_eq!(f, vec![3]),
        other => panic!("unexpected {:?}", other),
    }
    match next_mic_event(&mut status, false, vec![4]) {
        MicEvent::End(f) => assert_eq!(f, vec![4]),
        other => panic!("unexpected {:?}", other),
    }
    assert_eq!(status, MicStatus::Silence);
    assert!(matches!(next_mic_event(&mut status, false, vec![5]), MicEvent::Silence));
    assert_eq!(status, MicStatus::Silence);
}

#[test]
fn hangover_keeps_short_pauses_inside_speech() {
    let mut h2 = SpeechHangover::new(2);
    assert!(h2.observe(true));
    assert_eq!(h2.silence_counter, 0);
    assert!(h2.observe(false));
    assert!(h2.observe(false));
    assert!(!h2.observe(false));
    assert!(!h2.observe(false));
    assert!(h2.observe(true));
    assert!(h2.observe(false));
    assert_eq!(h2.min_silence_frames, 2);
}

#[test]
fn hangover_counter_stops_at_its_maximum() {
    let mut h = SpeechHangover::new(2);
    h.silence_counter = usize::MAX;
    assert!(!h.observe(false));
    assert_eq!(h.silence_counter, usize::MAX);
    assert!(h.observe(true));
    assert_eq!(h.silence_counter, 0);
}

#[test]
fn hangover_from_start_counts_quiet_frames() {
    let mut h = SpeechHangover::new(32);
    for _ in 0..32 {
        assert!(h.observe(false));
    }
    assert!(!h.observe(false));
}

#[test]
fn utterance_collects_frames_until_end() {
    let mut b = UtteranceBuffer::new();
    assert!(b.push(MicEvent::Start(vec![1, 2])).is_none());
    assert!(b.push(MicEvent::Frame(vec![3])).is_none());
    assert!(b.push(MicEvent::Silence).is_none());
    assert!(b.push(MicEvent::Frame(vec![])).is_none());
    assert_eq!(b.push(MicEvent::End(vec![4, 5])), Some(vec![1, 2, 3, 4, 5]));
    assert_eq!(b.push(MicEvent::End(vec![6])), Some(vec![6]));
    assert!(b.push(MicEvent::Start(vec![7])).is_none());
    assert_eq!(b.push(MicEvent::End(vec![])), Some(vec![7]));
}

#[test]
fn short_recordings_are_not_transcribed() {
    assert_eq!(MIN_UTTERANCE_BYTES, 40960);
    assert!(!should_transcribe(&vec![0u8; 40959]));
    assert!(should_transcribe(&vec![0u8; 40960]));
    assert!(!should_transcribe(&[]));
}

#[test]
fn chunks_cover_the_data() {
    assert_eq!(chunk_ranges(10, 4), vec![(0, 4), (4, 8), (8, 10)]);
    assert_eq!(chunk_ranges(8, 4), vec![(0, 4), (4, 8)]);
    assert_eq!(chunk_ranges(3, 1024), vec![(0, 3)]);
    assert_eq!(chunk_ranges(0, 1024), vec![]);
    let data = vec![7u8; 100_000];
    let ranges = chunk_ranges(data.len(), 1024 * 32);
    let expected: Vec<(usize, usize)> = data
        .chunks(1024 * 32)
        .scan(0usize, |off, c| {
            let s = *off;
            *off += c.len();
            Some((s, *off))
        })
        .collect();
    assert_eq!(ranges, expected);
}

#[test]
fn speech_from_silence_becomes_one_recording() {
    let mut status = MicStatus::Silence;
    let mut buf = UtteranceBuffer::new();
    let reads: Vec<(bool, Vec<u8>)> = vec![
        (false, vec![9]),
        (true, vec![1, 2]),
        (true, vec![3]),
        (true, vec![4, 5]),
        (false, vec![6]),
        (false, vec![7]),
    ];
    let mut recordings = Vec::new();
    for (speaking, frame) in reads {
        if let Some(r) = buf.push(next_mic_event(&mut status, speaking, frame)) {
            recordings.push(r);
        }
    }
    assert_eq!(recordings, vec![vec![1, 2, 3, 4, 5, 6]]);
    assert_eq!(status, MicStatus::Silence);
}

#[test]
fn empty_data_has_no_chunks_even_with_zero_size() {
    assert_eq!(chunk_ranges(0, 0), vec![]);
}

#[test]
fn events_stay_well_formed() {
    let mut status = MicStatus::Silence;
    let verdicts = [false, true, true, false, false, true, false, true];
    let mut open = false;
    for v in verdicts {
        match next_mic_event(&mut status, v, vec![0]) {
            MicEvent::Start(_) => { assert!(!open); open = true; }
            MicEvent::Frame(_) => assert!(open),
            MicEvent::End(_) => { assert!(open); open = false; }
            MicEvent::Silence => assert!(!open),
        }
    }
    assert!(open);
}
