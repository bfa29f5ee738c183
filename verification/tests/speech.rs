use serde_json::Value;
use voice_assistant::protocol::{
    bearer_auth, content_length, ws_auth_headers, chat_reply, chat_request_body, continue_task, finish_task, frame_task, run_task_with_payload, stt_run_task,
    tts_run_task, u8_decimal,
};
use voice_assistant::speech::{
    finish_transcript, should_forward_transcript, stt_message_event, tts_message_event, should_speak_reply, stt_event, tts_event,
    tts_segments, ServerFrame, SttSession, TtsSession, TtsStep, WsEvent, STT, TTS,
};

fn canonical(s: &str) -> String {
    serde_json::from_str::<Value>(s).unwrap().to_string()
}

#[test]
fn finish_frame_text() {
    let f = finish_task("abc");
    assert_eq!(
        f,
        r#"{"header":{"action":"finish-task","streaming":"duplex","task_id":"abc"},"payload":{"input":{}}}"#
    );
    assert_eq!(canonical(&f), f);
}

#[test]
fn run_frame_wraps_payload() {
    let f = run_task_with_payload("t-1", r#"{"a":1}"#);
    assert_eq!(
        f,
        r#"{"header":{"action":"run-task","streaming":"duplex","task_id":"t-1"},"payload":{"a":1}}"#
    );
    assert_eq!(frame_task("x", "\"q\"", "null"), r#"{"header":{"action":"x","streaming":"duplex","task_id":"q"},"payload":null}"#);
}

#[test]
fn task_id_is_escaped() {
    let f = finish_task("a\"b\\c\n");
    assert_eq!(
        f,
        r#"{"header":{"action":"finish-task","streaming":"duplex","task_id":"a\"b\\c\n"},"payload":{"input":{}}}"#
    );
    assert_eq!(canonical(&f), f);
}

#[test]
fn stt_start_frame_text() {
    let f = stt_run_task("id");
    assert_eq!(
        f,
        r#"{"header":{"action":"run-task","streaming":"duplex","task_id":"id"},"payload":{"function":"recognition","input":{},"model":"gummy-chat-v1","parameters":{"format":"wav","sample_rate":16000,"source_language":null,"transcription_enabled":true,"translation_enabled":false,"translation_target_languages":["en"]},"task":"asr","task_group":"audio"}}"#
    );
    assert_eq!(canonical(&f), f);
}

#[test]
fn tts_start_frame_text() {
    let f = tts_run_task("id", "longanhuan", 50, "1.0");
    assert_eq!(
        f,
        r#"{"header":{"action":"run-task","streaming":"duplex","task_id":"id"},"payload":{"function":"SpeechSynthesizer","input":{},"model":"cosyvoice-v3-flash","parameters":{"format":"pcm","pitch":1,"rate":1.0,"sample_rate":16000,"text_type":"PlainText","voice":"longanhuan","volume":50},"task":"tts","task_group":"audio"}}"#
    );
    assert_eq!(canonical(&f), f);
}

#[test]
fn continue_frame_text() {
    let f = continue_task("id", "你好，\"世界\"。");
    assert_eq!(
        f,
        r#"{"header":{"action":"continue-task","streaming":"duplex","task_id":"id"},"payload":{"input":{"text":"你好，\"世界\"。"}}}"#
    );
    assert_eq!(canonical(&f), f);
}

#[test]
fn chat_body_text() {
    let b = chat_request_body("今天天气怎么样");
    assert_eq!(
        b,
        r#"{"enable_search":true,"messages":[{"content":"你是一个语音助手，回答时禁止废话，精简标点符号，返回易于播放的文本格式。","role":"system"},{"content":"今天天气怎么样","role":"user"}],"model":"qwen-plus","stream":false}"#
    );
    assert_eq!(canonical(&b), b);
    let v: Value = serde_json::from_str(&chat_request_body("tab\there")).unwrap();
    assert_eq!(v["messages"][1]["content"], Value::String("tab\there".to_string()));
}

#[test]
fn decimal_of_bytes() {
    assert_eq!(u8_decimal(0), "0");
    assert_eq!(u8_decimal(7), "7");
    assert_eq!(u8_decimal(10), "10");
    assert_eq!(u8_decimal(42), "42");
    assert_eq!(u8_decimal(100), "100");
    assert_eq!(u8_decimal(255), "255");
    for v in 0..=255u8 {
        assert_eq!(u8_decimal(v), v.to_string());
    }
}

fn frame(event: Option<&str>, end: Option<bool>, text: Option<&str>) -> ServerFrame {
    ServerFrame {
        event: event.map(|s| s.to_string()),
        sentence_end: end,
        text: text.map(|s| s.to_string()),
    }
}

#[test]
fn recognition_messages_become_events() {
    assert_eq!(stt_event(&frame(Some("task-started"), None, None)), Some(WsEvent::TaskStarted));
    assert_eq!(
        stt_event(&frame(Some("result-generated"), Some(true), Some("你好"))),
        Some(WsEvent::ResultGenerated("你好".to_string()))
    );
    assert_eq!(
        stt_event(&frame(Some("result-generated"), Some(true), None)),
        Some(WsEvent::ResultGenerated(String::new()))
    );
    assert_eq!(stt_event(&frame(Some("result-generated"), Some(false), Some("你"))), None);
    assert_eq!(stt_event(&frame(Some("result-generated"), None, Some("你"))), None);
    assert_eq!(stt_event(&frame(Some("task-finished"), None, None)), Some(WsEvent::TaskFinished));
    assert_eq!(stt_event(&frame(Some("task-failed"), None, None)), None);
    assert_eq!(stt_event(&frame(None, Some(true), Some("x"))), None);
}

#[test]
fn synthesis_messages_become_events() {
    assert_eq!(tts_event(&frame(Some("task-started"), None, None)), Some(WsEvent::TaskStarted));
    assert_eq!(tts_event(&frame(Some("task-finished"), None, None)), Some(WsEvent::TaskFinished));
    assert_eq!(tts_event(&frame(Some("result-generated"), Some(true), Some("x"))), None);
    assert_eq!(tts_event(&frame(None, None, None)), None);
}

#[test]
fn transcript_is_trimmed_without_newlines() {
    assert_eq!(finish_transcript("  hello\nworld \n"), Some("helloworld".to_string()));
    assert_eq!(finish_transcript("\u{3000}你好\n"), Some("你好".to_string()));
    assert_eq!(finish_transcript("a\n\nb"), Some("ab".to_string()));
    assert_eq!(finish_transcript("  \n\t "), None);
    assert_eq!(finish_transcript(""), None);
}

#[test]
fn blank_transcripts_and_replies_are_dropped() {
    assert!(should_forward_transcript(" x "));
    assert!(!should_forward_transcript(" \n "));
    assert!(should_speak_reply("好"));
    assert!(!should_speak_reply(""));
    assert!(should_speak_reply(" "));
}

#[test]
fn reply_is_split_at_full_stops() {
    assert_eq!(tts_segments("你好。世界。"), vec!["你好。", "世界。", "。"]);
    assert_eq!(tts_segments("abc"), vec!["abc。"]);
    assert_eq!(tts_segments(""), vec!["。"]);
    assert_eq!(tts_segments("。。"), vec!["。", "。", "。"]);
    let text = "第一句。第二句，还有。最后";
    let segs = tts_segments(text);
    let expected: Vec<String> = text.split("。").map(|s| format!("{}。", s)).collect();
    assert_eq!(segs, expected);
    assert_eq!(segs.concat(), format!("{}。", text));
}

fn assert_v4_text(id: &str) {
    assert_eq!(id.chars().count(), 36);
    for (i, c) in id.chars().enumerate() {
        if [8, 13, 18, 23].contains(&i) {
            assert_eq!(c, '-');
        } else {
            assert!(c.is_ascii_digit() || ('a'..='f').contains(&c));
        }
    }
    assert_eq!(id.chars().nth(14), Some('4'));
    assert!("89ab".contains(id.chars().nth(19).unwrap()));
}

#[test]
fn recognition_session_flow() {
    let _client = STT::new();
    let mut s = SttSession::start();
    assert_v4_text(s.task_id());
    let run = s.run_task_frame();
    assert_eq!(run, stt_run_task(s.task_id()));
    assert_eq!(s.finish_task_frame(), finish_task(s.task_id()));
    s.take_event(None);
    assert!(!s.is_finished());
    assert_eq!(s.transcript(), None);
    s.take_event(Some(WsEvent::ResultGenerated(" 打开灯\n".to_string())));
    assert!(s.is_finished());
    assert_eq!(s.transcript(), Some("打开灯".to_string()));
    let mut t = SttSession::start();
    assert_ne!(t.task_id(), s.task_id());
    t.take_event(Some(WsEvent::TaskFinished));
    assert!(t.is_finished());
    assert_eq!(t.transcript(), None);
}

#[test]
fn synthesis_session_flow() {
    let _client = TTS::new();
    let s = TtsSession::start();
    assert_v4_text(s.task_id());
    assert_eq!(s.run_task_frame("longanhuan", 80, "1.5"), tts_run_task(s.task_id(), "longanhuan", 80, "1.5"));
    let fs = s.continue_frames("你好。再见");
    assert_eq!(fs, vec![continue_task(s.task_id(), "你好。"), continue_task(s.task_id(), "再见。")]);
    assert_eq!(s.finish_task_frame(), finish_task(s.task_id()));
    assert_eq!(TtsSession::next_step(Some(WsEvent::ResultGenerated(vec![1, 2]))), TtsStep::Play(vec![1, 2]));
    assert_eq!(TtsSession::next_step(Some(WsEvent::TaskFinished)), TtsStep::Finish);
    assert_eq!(TtsSession::next_step(Some(WsEvent::TaskStarted)), TtsStep::Wait);
    assert_eq!(TtsSession::next_step(None), TtsStep::Wait);
}

#[test]
fn recognition_text_messages_become_events() {
    assert_eq!(stt_message_event(r#"{"header":{"event":"task-started"}}"#), Some(Some(WsEvent::TaskStarted)));
    assert_eq!(
        stt_message_event(
            r#"{"header":{"event":"result-generated"},"payload":{"output":{"transcription":{"sentence_end":true,"text":"打开灯"}}}}"#
        ),
        Some(Some(WsEvent::ResultGenerated("打开灯".to_string())))
    );
    assert_eq!(
        stt_message_event(
            r#"{"header":{"event":"result-generated"},"payload":{"output":{"transcription":{"sentence_end":false,"text":"打开"}}}}"#
        ),
        Some(None)
    );
    assert_eq!(
        stt_message_event(r#"{"header":{"event":"result-generated"},"payload":{"output":{"transcription":{"sentence_end":true}}}}"#),
        Some(Some(WsEvent::ResultGenerated(String::new())))
    );
    assert_eq!(stt_message_event(r#"{"header":{"event":"task-finished"}}"#), Some(Some(WsEvent::TaskFinished)));
    assert_eq!(stt_message_event(r#"{"header":{"event":7}}"#), Some(None));
    assert_eq!(stt_message_event("[1,2]"), Some(None));
    assert_eq!(stt_message_event("not json"), None);
}

#[test]
fn synthesis_text_messages_become_events() {
    assert_eq!(tts_message_event(r#"{"header":{"event":"task-started"}}"#), Some(WsEvent::TaskStarted));
    assert_eq!(tts_message_event(r#"{"header":{"event":"task-finished"}}"#), Some(WsEvent::TaskFinished));
    assert_eq!(tts_message_event(r#"{"header":{"event":"result-generated"}}"#), None);
    assert_eq!(tts_message_event("{"), None);
}

#[test]
fn chat_reply_takes_message_content() {
    let body = r#"{"choices":[{"message":{"role":"assistant","content":"今天晴。"}}]}"#;
    assert_eq!(chat_reply(body.as_bytes()), "今天晴。");
    assert_eq!(chat_reply(br#"{"choices":[]}"#), "");
    assert_eq!(chat_reply(br#"{"choices":[{"message":{"content":3}}]}"#), "");
    assert_eq!(chat_reply(br#"{"choices":{"0":{"message":{"content":"x"}}}}"#), "");
    assert_eq!(chat_reply(b"{\"choices\":[{\"message\":{\"content\":\"a\xff\"}}]}"), "");
    assert_eq!(chat_reply(b"<html>"), "");
    assert_eq!(chat_reply(b""), "");
}

#[test]
fn control_characters_are_escaped_in_frames() {
    let f = continue_task("id", "a\u{1}b\u{8}\u{c}\r\t\u{1f}\u{7f}/");
    assert_eq!(
        f,
        "{\"header\":{\"action\":\"continue-task\",\"streaming\":\"duplex\",\"task_id\":\"id\"},\"payload\":{\"input\":{\"text\":\"a\\u0001b\\b\\f\\r\\t\\u001f\u{7f}/\"}}}"
    );
    let v: Value = serde_json::from_str(&f).unwrap();
    assert_eq!(v["payload"]["input"]["text"], Value::String("a\u{1}b\u{8}\u{c}\r\t\u{1f}\u{7f}/".to_string()));
    assert_eq!(canonical(&f), f);
}

#[test]
fn header_values() {
    assert_eq!(content_length(0), "0");
    assert_eq!(content_length(9), "9");
    assert_eq!(content_length(1234), "1234");
    assert_eq!(content_length(usize::MAX), usize::MAX.to_string());
    assert_eq!(bearer_auth("sk-1"), "Bearer sk-1");
    let headers = [("Authorization", "sk-2")];
    let mut expected = headers.iter().map(|(k, v)| format!("{k}: {v}")).collect::<Vec<_>>().join("\r\n");
    expected.push_str("\r\n\r\n");
    assert_eq!(ws_auth_headers("sk-2"), expected);
}

#[test]
fn transcript_is_its_own_trim() {
    for raw in [" \u{3000}你好\n 世界\u{2029} ", "\n\na\n", "a \n b", "\u{85}x\u{a0}"] {
        let t = finish_transcript(raw).unwrap();
        assert_eq!(t.trim(), t);
        assert!(!t.contains('\n'));
        assert_eq!(t, raw.trim().replace("\n", ""));
    }
    assert_eq!(finish_transcript("\u{1680}\u{2000}\u{200a}\u{202f}\u{205f}\u{3000}\u{b}\u{c}"), None);
}

#[test]
fn session_without_sentence_gives_no_transcript() {
    let mut s = SttSession::start();
    s.take_event(Some(WsEvent::TaskFinished));
    assert!(s.is_finished());
    assert_eq!(s.transcript(), None);
    let mut d = SttSession::start();
    d.take_event(Some(WsEvent::Disconnected));
    assert_eq!(d.transcript(), None);
}
