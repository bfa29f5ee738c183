use vstd::prelude::*;

verus! {

/// A lowercase hexadecimal digit for `d` (`0 <= d < 16`).
pub open spec fn lower_hex_digit(d: int) -> char {
    if d < 10 {
        (d + 48) as char
    } else {
        (d + 87) as char
    }
}

/// How serde_json writes one character inside a JSON string: `"` and `\` and
/// the control characters below U+0020 are escaped (the short escapes
/// `\b \t \n \f \r` where they exist, `\u00xx` in lowercase hex
/// otherwise); every other character is written as it is.
pub open spec fn json_escape_char(c: char) -> Seq<char> {
    if c == '"' {
        seq!['\\', '"']
    } else if c == '\\' {
        seq!['\\', '\\']
    } else if c == '\u{8}' {
        seq!['\\', 'b']
    } else if c == '\t' {
        seq!['\\', 't']
    } else if c == '\n' {
        seq!['\\', 'n']
    } else if c == '\u{c}' {
        seq!['\\', 'f']
    } else if c == '\r' {
        seq!['\\', 'r']
    } else if (c as u32) < 32 {
        seq![
            '\\',
            'u',
            '0',
            '0',
            lower_hex_digit(((c as u32) / 16) as int),
            lower_hex_digit(((c as u32) % 16) as int),
        ]
    } else {
        seq![c]
    }
}

/// The characters of a string escaped one after another.
pub open spec fn json_escape(s: Seq<char>) -> Seq<char>
    decreases s.len(),
{
    if s.len() == 0 {
        Seq::empty()
    } else {
        json_escape_char(s[0]) + json_escape(s.drop_first())
    }
}

/// What `serde_json::to_string` writes for a string slice: the escaped
/// characters between double quotes.
pub open spec fn json_string(s: Seq<char>) -> Seq<char> {
    seq!['"'] + json_escape(s) + seq!['"']
}

/// Calls `serde_json::to_string` on a string slice. Its source writes a
/// string as `json_string` says (ser.rs: `format_escaped_str`, the `ESCAPE`
/// table and `write_char_escape`). Serialising a `str` into serde_json's
/// in-memory writer cannot fail, so the error arm is never taken.
#[verifier::external_body]
fn quote_json(s: &str) -> (q: String)
    ensures
        q@ == json_string(s@),
{
    match serde_json::to_string(s) {
        Ok(q) => q,
        Err(_) => String::new(),
    }
}

/// The value of a lowercase hexadecimal digit, or -1 for any other character.
pub open spec fn lower_hex_value(c: char) -> int {
    if '0' <= c && c <= '9' {
        (c as int) - 48
    } else if 'a' <= c && c <= 'f' {
        (c as int) - 87
    } else {
        -1
    }
}

/// `c` put in front of a decoded text, when there is one.
pub open spec fn prepend(c: char, r: Option<Seq<char>>) -> Option<Seq<char>> {
    match r {
        Some(t) => Some(seq![c] + t),
        None => None,
    }
}

/// Decodes the inside of a JSON string written with the escapes above:
/// `None` for an unescaped `"` or control character, or an escape of
/// another form.
pub open spec fn json_unescape(t: Seq<char>) -> Option<Seq<char>>
    decreases t.len(),
{
    if t.len() == 0 {
        Some(Seq::empty())
    } else if t[0] == '\\' {
        if t.len() >= 2 && t[1] == '"' {
            prepend('"', json_unescape(t.skip(2)))
        } else if t.len() >= 2 && t[1] == '\\' {
            prepend('\\', json_unescape(t.skip(2)))
        } else if t.len() >= 2 && t[1] == 'b' {
            prepend('\u{8}', json_unescape(t.skip(2)))
        } else if t.len() >= 2 && t[1] == 't' {
            prepend('\t', json_unescape(t.skip(2)))
        } else if t.len() >= 2 && t[1] == 'n' {
            prepend('\n', json_unescape(t.skip(2)))
        } else if t.len() >= 2 && t[1] == 'f' {
            prepend('\u{c}', json_unescape(t.skip(2)))
        } else if t.len() >= 2 && t[1] == 'r' {
            prepend('\r', json_unescape(t.skip(2)))
        } else if t.len() >= 6 && t[1] == 'u' && t[2] == '0' && t[3] == '0' && lower_hex_value(t[4])
            >= 0 && lower_hex_value(t[5]) >= 0 {
            prepend(
                (lower_hex_value(t[4]) * 16 + lower_hex_value(t[5])) as char,
                json_unescape(t.skip(6)),
            )
        } else {
            None
        }
    } else if t[0] == '"' || (t[0] as u32) < 32 {
        None
    } else {
        prepend(t[0], json_unescape(t.skip(1)))
    }
}

/// The text a JSON string literal stands for: its inside decoded, when it is
/// between double quotes and decodes.
pub open spec fn json_literal_value(t: Seq<char>) -> Option<Seq<char>> {
    if t.len() >= 2 && t[0] == '"' && t[t.len() - 1] == '"' {
        json_unescape(t.subrange(1, t.len() - 1))
    } else {
        None
    }
}

proof fn lemma_unescape_char(c: char, rest: Seq<char>)
    ensures
        json_unescape(json_escape_char(c) + rest) == prepend(c, json_unescape(rest)),
{
    let e = json_escape_char(c);
    let t = e + rest;
    assert(t.skip(e.len() as int) =~= rest);
    if c != '"' && c != '\\' && c != '\u{8}' && c != '\t' && c != '\n' && c != '\u{c}' && c
        != '\r' && (c as u32) < 32 {
        let v = c as u32;
        assert(lower_hex_value(lower_hex_digit((v / 16) as int)) == v / 16);
        assert(lower_hex_value(lower_hex_digit((v % 16) as int)) == v % 16);
        assert((v / 16) * 16 + v % 16 == v);
        assert(t[4] == lower_hex_digit((v / 16) as int));
        assert(t[5] == lower_hex_digit((v % 16) as int));
        assert(((v as int) as char) == c);
    }
}

/// The literal serde_json writes for a string stands for exactly that
/// string: decoding it gives the string back, so the task ids and texts put
/// into the frames can be recovered unchanged.
pub proof fn json_string_round_trip(s: Seq<char>)
    ensures
        json_unescape(json_escape(s)) == Some(s),
        json_literal_value(json_string(s)) == Some(s),
    decreases s.len(),
{
    if s.len() == 0 {
        assert(json_escape(s) =~= Seq::<char>::empty());
    } else {
        json_string_round_trip(s.drop_first());
        lemma_unescape_char(s[0], json_escape(s.drop_first()));
        assert(seq![s[0]] + s.drop_first() =~= s);
    }
    let q = json_string(s);
    assert(q.subrange(1, q.len() - 1) =~= json_escape(s));
}

/// A lowercase hexadecimal digit.
pub open spec fn is_lower_hex(c: char) -> bool {
    ('0' <= c && c <= '9') || ('a' <= c && c <= 'f')
}

/// The hyphenated lowercase text of a random (version 4, RFC variant) UUID.
pub open spec fn is_v4_uuid_text(s: Seq<char>) -> bool {
    &&& s.len() == 36
    &&& forall|i: int|
        0 <= i < 36 ==> if i == 8 || i == 13 || i == 18 || i == 23 {
            s[i] == '-'
        } else {
            is_lower_hex(#[trigger] s[i])
        }
    &&& s[14] == '4'
    &&& (s[19] == '8' || s[19] == '9' || s[19] == 'a' || s[19] == 'b')
}

/// Calls `uuid::Uuid::new_v4` and formats the UUID with `to_string`. The
/// value is random; what holds of every outcome is its text form: 36
/// characters, hyphens at 8, 13, 18 and 23, lowercase hex digits elsewhere,
/// the version digit `4` and an RFC variant digit.
#[verifier::external_body]
pub(crate) fn new_task_id() -> (id: String)
    ensures
        is_v4_uuid_text(id@),
{
    uuid::Uuid::new_v4().to_string()
}

/// A frame of the speech service's duplex protocol: a header naming the
/// action and the task, and a payload (JSON text), with the keys in the
/// order serde_json writes them.
pub open spec fn task_frame(action: Seq<char>, quoted_task_id: Seq<char>, payload: Seq<char>) -> Seq<
    char,
> {
    "{\"header\":{\"action\":\""@ + action + "\",\"streaming\":\"duplex\",\"task_id\":"@
        + quoted_task_id + "},\"payload\":"@ + payload + "}"@
}

/// Builds a protocol frame from an action name, a task id already written as
/// a JSON string literal, and a payload already written as JSON.
pub fn frame_task(action: &str, quoted_task_id: &str, payload_json: &str) -> (f: String)
    ensures
        f@ == task_frame(action@, quoted_task_id@, payload_json@),
{
    let mut f = String::from_str("{\"header\":{\"action\":\"");
    f.append(action);
    f.append("\",\"streaming\":\"duplex\",\"task_id\":");
    f.append(quoted_task_id);
    f.append("},\"payload\":");
    f.append(payload_json);
    f.append("}");
    f
}

/// The frame that starts task `task_id` with the given payload (JSON text).
pub fn run_task_with_payload(task_id: &str, payload_json: &str) -> (f: String)
    ensures
        f@ == task_frame("run-task"@, json_string(task_id@), payload_json@),
{
    let q = quote_json(task_id);
    frame_task("run-task", q.as_str(), payload_json)
}

/// The payload of the frame that finishes a task.
pub open spec fn finish_payload() -> Seq<char> {
    "{\"input\":{}}"@
}

/// The frame that finishes task `task_id`.
pub fn finish_task(task_id: &str) -> (f: String)
    ensures
        f@ == task_frame("finish-task"@, json_string(task_id@), finish_payload()),
{
    let q = quote_json(task_id);
    frame_task("finish-task", q.as_str(), "{\"input\":{}}")
}

/// The payload of a frame that hands the synthesiser one piece of text,
/// given the text as a JSON string literal.
pub open spec fn continue_payload(quoted_text: Seq<char>) -> Seq<char> {
    "{\"input\":{\"text\":"@ + quoted_text + "}}"@
}

/// The frame that hands the synthesiser of task `task_id` one more piece of text.
pub fn continue_task(task_id: &str, text: &str) -> (f: String)
    ensures
        f@ == task_frame("continue-task"@, json_string(task_id@), continue_payload(json_string(text@))),
{
    let q = quote_json(task_id);
    let t = quote_json(text);
    let mut payload = String::from_str("{\"input\":{\"text\":");
    payload.append(t.as_str());
    payload.append("}}");
    frame_task("continue-task", q.as_str(), payload.as_str())
}

/// The payload that starts a speech-recognition task (16 kHz audio).
pub open spec fn stt_payload() -> Seq<char> {
    "{\"function\":\"recognition\",\"input\":{},\"model\":\"gummy-chat-v1\",\"parameters\":{\"format\":\"wav\",\"sample_rate\":16000,\"source_language\":null,\"transcription_enabled\":true,\"translation_enabled\":false,\"translation_target_languages\":[\"en\"]},\"task\":\"asr\",\"task_group\":\"audio\"}"@
}

/// The frame that starts speech-recognition task `task_id`.
pub fn stt_run_task(task_id: &str) -> (f: String)
    ensures
        f@ == task_frame("run-task"@, json_string(task_id@), stt_payload()),
{
    run_task_with_payload(
        task_id,
        "{\"function\":\"recognition\",\"input\":{},\"model\":\"gummy-chat-v1\",\"parameters\":{\"format\":\"wav\",\"sample_rate\":16000,\"source_language\":null,\"transcription_enabled\":true,\"translation_enabled\":false,\"translation_target_languages\":[\"en\"]},\"task\":\"asr\",\"task_group\":\"audio\"}",
    )
}

/// The decimal digit for `d` (`0 <= d < 10`).
pub open spec fn digit(d: int) -> char {
    if d == 0 {
        '0'
    } else if d == 1 {
        '1'
    } else if d == 2 {
        '2'
    } else if d == 3 {
        '3'
    } else if d == 4 {
        '4'
    } else if d == 5 {
        '5'
    } else if d == 6 {
        '6'
    } else if d == 7 {
        '7'
    } else if d == 8 {
        '8'
    } else {
        '9'
    }
}

/// The decimal text of a natural number, without leading zeros.
pub open spec fn decimal(n: nat) -> Seq<char>
    decreases n,
{
    if n < 10 {
        seq![digit(n as int)]
    } else {
        decimal(n / 10).push(digit((n % 10) as int))
    }
}

fn digit_char(d: u8) -> (c: char)
    requires
        d < 10,
    ensures
        c == digit(d as int),
{
    match d {
        0 => '0',
        1 => '1',
        2 => '2',
        3 => '3',
        4 => '4',
        5 => '5',
        6 => '6',
        7 => '7',
        8 => '8',
        _ => '9',
    }
}

/// The decimal text of a byte, as JSON writes the number.
pub fn u8_decimal(v: u8) -> (s: String)
    ensures
        s@ == decimal(v as nat),
{
    let mut s = String::new();
    if v >= 100 {
        crate::text::push_char(&mut s, digit_char(v / 100));
        crate::text::push_char(&mut s, digit_char((v / 10) % 10));
        crate::text::push_char(&mut s, digit_char(v % 10));
        let ghost a: nat = (v / 100) as nat;
        let ghost b: nat = (v / 10) as nat;
        assert(b / 10 == a && b % 10 == (v / 10) % 10 && a < 10 && b >= 10);
        assert(decimal(a) =~= seq![digit(a as int)]);
        assert(decimal(b) =~= decimal(a).push(digit((b % 10) as int)));
        assert(decimal(v as nat) =~= decimal(b).push(digit((v % 10) as int)));
        assert(s@ =~= seq![digit(a as int), digit((b % 10) as int), digit((v % 10) as int)]);
    } else if v >= 10 {
        crate::text::push_char(&mut s, digit_char(v / 10));
        crate::text::push_char(&mut s, digit_char(v % 10));
        assert(decimal(v as nat) =~= decimal((v / 10) as nat).push(digit((v % 10) as int)));
        assert(s@ =~= seq![digit((v / 10) as int), digit((v % 10) as int)]);
    } else {
        crate::text::push_char(&mut s, digit_char(v));
    }
    s
}

/// The payload that starts a speech-synthesis task: 16 kHz PCM in the given
/// voice, at the given volume and rate (the rate already written as a JSON
/// number), with the keys in the order serde_json writes them.
pub open spec fn tts_payload(quoted_voice: Seq<char>, volume: u8, rate_json: Seq<char>) -> Seq<char> {
    "{\"function\":\"SpeechSynthesizer\",\"input\":{},\"model\":\"cosyvoice-v3-flash\",\"parameters\":{\"format\":\"pcm\",\"pitch\":1,\"rate\":"@
        + rate_json + ",\"sample_rate\":16000,\"text_type\":\"PlainText\",\"voice\":"@
        + quoted_voice + ",\"volume\":"@ + decimal(volume as nat)
        + "},\"task\":\"tts\",\"task_group\":\"audio\"}"@
}

/// The frame that starts speech-synthesis task `task_id`.
pub fn tts_run_task(task_id: &str, voice: &str, volume: u8, rate_json: &str) -> (f: String)
    ensures
        f@ == task_frame(
            "run-task"@,
            json_string(task_id@),
            tts_payload(json_string(voice@), volume, rate_json@),
        ),
{
    let v = quote_json(voice);
    let vol = u8_decimal(volume);
    let mut payload = String::from_str(
        "{\"function\":\"SpeechSynthesizer\",\"input\":{},\"model\":\"cosyvoice-v3-flash\",\"parameters\":{\"format\":\"pcm\",\"pitch\":1,\"rate\":",
    );
    payload.append(rate_json);
    payload.append(",\"sample_rate\":16000,\"text_type\":\"PlainText\",\"voice\":");
    payload.append(v.as_str());
    payload.append(",\"volume\":");
    payload.append(vol.as_str());
    payload.append("},\"task\":\"tts\",\"task_group\":\"audio\"}");
    run_task_with_payload(task_id, payload.as_str())
}

/// The body of a chat-completion request for one user message, given as a
/// JSON string literal: the assistant's system prompt, model `qwen-plus`,
/// no streaming, web search on.
pub open spec fn chat_body(quoted_input: Seq<char>) -> Seq<char> {
    "{\"enable_search\":true,\"messages\":[{\"content\":\"你是一个语音助手，回答时禁止废话，精简标点符号，返回易于播放的文本格式。\",\"role\":\"system\"},{\"content\":"@
        + quoted_input + ",\"role\":\"user\"}],\"model\":\"qwen-plus\",\"stream\":false}"@
}

/// The JSON body of the chat request that asks the language model about `input`.
pub fn chat_request_body(input: &str) -> (b: String)
    ensures
        b@ == chat_body(json_string(input@)),
{
    let q = quote_json(input);
    let mut b = String::from_str(
        "{\"enable_search\":true,\"messages\":[{\"content\":\"你是一个语音助手，回答时禁止废话，精简标点符号，返回易于播放的文本格式。\",\"role\":\"system\"},{\"content\":",
    );
    b.append(q.as_str());
    b.append(",\"role\":\"user\"}],\"model\":\"qwen-plus\",\"stream\":false}");
    b
}

} // verus!

verus! {

/// What the chat service's reply body yields: the body decoded as UTF-8
/// (`std::str::from_utf8`) and parsed with `serde_json::from_str::<Value>`,
/// then `choices[0].message.content` where it is a string; `None` when the
/// body is not UTF-8, not JSON, or has no such string.
pub uninterp spec fn response_content(body: Seq<u8>) -> Option<Seq<char>>;

/// Decodes a reply body with `std::str::from_utf8`, parses it with
/// `serde_json::from_str::<serde_json::Value>` and picks
/// `choices[0].message.content` as a string (indexing a missing key, a
/// missing element or a non-container gives `Null`). The result is taken to
/// be `response_content` of the bytes; UTF-8 and JSON syntax are not spelled
/// out here.
#[verifier::external_body]
fn parse_response_content(body: &[u8]) -> (c: Option<String>)
    ensures
        match c {
            Some(s) => response_content(body@) == Some(s@),
            None => response_content(body@) is None,
        },
{
    let text = std::str::from_utf8(body).ok()?;
    let json: serde_json::Value = serde_json::from_str(text).ok()?;
    json["choices"][0]["message"]["content"].as_str().map(|s| s.to_string())
}

/// The language model's answer in a reply body: the message content, or an
/// empty text when the body is not UTF-8, not JSON, or carries no content.
pub fn chat_reply(body: &[u8]) -> (r: String)
    ensures
        r@ == match response_content(body@) {
            Some(c) => c,
            None => Seq::<char>::empty(),
        },
{
    match parse_response_content(body) {
        Some(c) => c,
        None => String::new(),
    }
}

} // verus!

verus! {

fn push_decimal(s: &mut String, n: usize)
    ensures
        final(s)@ == old(s)@ + decimal(n as nat),
    decreases n,
{
    if n >= 10 {
        push_decimal(s, n / 10);
    }
    crate::text::push_char(s, digit_char((n % 10) as u8));
    proof {
        if n >= 10 {
            assert(decimal(n as nat) == decimal((n / 10) as nat).push(digit((n % 10) as int)));
        } else {
            assert(decimal(n as nat) == seq![digit(n as int)]);
        }
        assert(old(s)@ + decimal((n / 10) as nat) + seq![digit((n % 10) as int)] =~= old(s)@
            + decimal((n / 10) as nat).push(digit((n % 10) as int)));
    }
}

/// The value of the `content-length` header for a body of `len` bytes.
pub fn content_length(len: usize) -> (s: String)
    ensures
        s@ == decimal(len as nat),
{
    let mut s = String::new();
    push_decimal(&mut s, len);
    assert(Seq::<char>::empty() + decimal(len as nat) =~= decimal(len as nat));
    s
}

/// The value of the `Authorization` header of the chat request.
pub fn bearer_auth(api_key: &str) -> (s: String)
    ensures
        s@ == "Bearer "@ + api_key@,
{
    let mut s = String::from_str("Bearer ");
    s.append(api_key);
    s
}

/// The extra headers of a websocket handshake with the speech service: the
/// `Authorization` header followed by the blank line that ends the headers.
pub fn ws_auth_headers(api_key: &str) -> (s: String)
    ensures
        s@ == "Authorization: "@ + api_key@ + "\r\n\r\n"@,
{
    let mut s = String::from_str("Authorization: ");
    s.append(api_key);
    s.append("\r\n\r\n");
    s
}

} // verus!

verus! {

/// The number a text of decimal digits stands for (`-1` when a character is
/// not a digit or the text is empty).
pub open spec fn decimal_value(s: Seq<char>) -> int
    decreases s.len(),
{
    if s.len() == 0 || !('0' <= s.last() && s.last() <= '9') {
        -1
    } else if s.len() == 1 {
        (s.last() as int) - ('0' as int)
    } else if decimal_value(s.drop_last()) < 0 {
        -1
    } else {
        decimal_value(s.drop_last()) * 10 + (s.last() as int) - ('0' as int)
    }
}

/// A number written in decimal reads back as that number.
pub proof fn decimal_reads_back(n: nat)
    ensures
        decimal_value(decimal(n)) == n,
    decreases n,
{
    if n >= 10 {
        decimal_reads_back(n / 10);
        assert(decimal(n).drop_last() == decimal(n / 10));
        assert(decimal(n / 10).len() >= 1) by {
            lemma_decimal_nonempty(n / 10);
        }
    }
}

proof fn lemma_decimal_nonempty(n: nat)
    ensures
        decimal(n).len() >= 1,
    decreases n,
{
    if n >= 10 {
        lemma_decimal_nonempty(n / 10);
    }
}

proof fn lemma_middle_equal(a: Seq<char>, x: Seq<char>, y: Seq<char>, b: Seq<char>)
    requires
        a + x + b == a + y + b,
    ensures
        x == y,
{
    let l = a + x + b;
    assert(l.len() == (a + y + b).len());
    assert(x.len() == y.len());
    assert(x =~= l.subrange(a.len() as int, (a.len() + x.len()) as int));
    assert(y =~= (a + y + b).subrange(a.len() as int, (a.len() + y.len()) as int));
}

/// The synthesis run-task frame carries the volume it was given: the frame
/// ends with `"volume":`, the digits of a number, and the closing
/// `},"task":"tts","task_group":"audio"}}`, and those digits read back as the
/// volume; so frames built with different volumes differ.
pub proof fn tts_frame_carries_volume(
    task_id: Seq<char>,
    voice: Seq<char>,
    rate_json: Seq<char>,
    v1: u8,
    v2: u8,
)
    ensures
        exists|p: Seq<char>, d: Seq<char>|
            task_frame("run-task"@, json_string(task_id), tts_payload(json_string(voice), v1, rate_json))
                == p + "\"volume\":"@ + d + "},\"task\":\"tts\",\"task_group\":\"audio\"}}"@
                && decimal_value(d) == v1 as int,
        task_frame("run-task"@, json_string(task_id), tts_payload(json_string(voice), v1, rate_json))
            == task_frame("run-task"@, json_string(task_id), tts_payload(json_string(voice), v2, rate_json))
            ==> v1 == v2,
{
    let quoted_task_id = json_string(task_id);
    let quoted_voice = json_string(voice);
    decimal_reads_back(v1 as nat);
    decimal_reads_back(v2 as nat);
    let pre = "{\"function\":\"SpeechSynthesizer\",\"input\":{},\"model\":\"cosyvoice-v3-flash\",\"parameters\":{\"format\":\"pcm\",\"pitch\":1,\"rate\":"@
        + rate_json + ",\"sample_rate\":16000,\"text_type\":\"PlainText\",\"voice\":"@
        + quoted_voice;
    let head = pre + ",\"volume\":"@;
    let tail = "},\"task\":\"tts\",\"task_group\":\"audio\"}"@;
    let fh = "{\"header\":{\"action\":\""@ + "run-task"@ + "\",\"streaming\":\"duplex\",\"task_id\":"@
        + quoted_task_id + "},\"payload\":"@;
    let ft = "}"@;
    let f1 = task_frame("run-task"@, quoted_task_id, tts_payload(quoted_voice, v1, rate_json));
    let f2 = task_frame("run-task"@, quoted_task_id, tts_payload(quoted_voice, v2, rate_json));
    assert(f1 =~= fh + tts_payload(quoted_voice, v1, rate_json) + ft);
    assert(f2 =~= fh + tts_payload(quoted_voice, v2, rate_json) + ft);
    assert(tts_payload(quoted_voice, v1, rate_json) =~= head + decimal(v1 as nat) + tail);
    assert(tts_payload(quoted_voice, v2, rate_json) =~= head + decimal(v2 as nat) + tail);
    let p1 = fh + pre + ","@;
    reveal_strlit(",");
    reveal_strlit("\"volume\":");
    reveal_strlit(",\"volume\":");
    reveal_strlit("}");
    reveal_strlit("},\"task\":\"tts\",\"task_group\":\"audio\"}");
    reveal_strlit("},\"task\":\"tts\",\"task_group\":\"audio\"}}");
    assert(f1 == p1 + "\"volume\":"@ + decimal(v1 as nat)
        + "},\"task\":\"tts\",\"task_group\":\"audio\"}}"@) by {
        assert(f1 =~= p1 + "\"volume\":"@ + decimal(v1 as nat)
            + "},\"task\":\"tts\",\"task_group\":\"audio\"}}"@);
    }
    if f1 == f2 {
        lemma_middle_equal(
            fh,
            tts_payload(quoted_voice, v1, rate_json),
            tts_payload(quoted_voice, v2, rate_json),
            ft,
        );
        lemma_middle_equal(head, decimal(v1 as nat), decimal(v2 as nat), tail);
    }
}

} // verus!
