use vstd::prelude::*;

use crate::protocol::{
    continue_payload, finish_payload, is_v4_uuid_text, json_string, stt_payload, task_frame,
    tts_payload,
};
use crate::text::{push_char, same_text};

verus! {

/// What the speech services' websocket tells the task that is waiting on it.
#[derive(Debug, PartialEq, Eq)]
pub enum WsEvent<T> {
    Connected,
    Disconnected,
    TaskStarted,
    ResultGenerated(T),
    TaskFinished,
    TaskFailed,
}

/// The fields of a JSON text message of the speech service that the tasks
/// read: `header.event`, `payload.output.transcription.sentence_end` and
/// `payload.output.transcription.text`, each absent when missing or not of
/// the expected JSON type.
pub struct ServerFrame {
    pub event: Option<String>,
    pub sentence_end: Option<bool>,
    pub text: Option<String>,
}

/// The view of an optional string.
pub open spec fn opt_view(o: Option<String>) -> Option<Seq<char>> {
    match o {
        Some(s) => Some(s@),
        None => None,
    }
}

/// The fields of a message as plain values: event name, sentence end, text.
pub open spec fn frame_fields(frame: ServerFrame) -> (Option<Seq<char>>, Option<bool>, Option<Seq<char>>) {
    (opt_view(frame.event), frame.sentence_end, opt_view(frame.text))
}

/// An event with its recognised text taken by its view.
pub open spec fn event_view(e: Option<WsEvent<String>>) -> Option<WsEvent<Seq<char>>> {
    match e {
        Some(WsEvent::Connected) => Some(WsEvent::Connected),
        Some(WsEvent::Disconnected) => Some(WsEvent::Disconnected),
        Some(WsEvent::TaskStarted) => Some(WsEvent::TaskStarted),
        Some(WsEvent::ResultGenerated(t)) => Some(WsEvent::ResultGenerated(t@)),
        Some(WsEvent::TaskFinished) => Some(WsEvent::TaskFinished),
        Some(WsEvent::TaskFailed) => Some(WsEvent::TaskFailed),
        None => None,
    }
}

/// The event a recognition-service message with these fields stands for:
/// the task started, a finished sentence was recognised (its text, empty when
/// absent), or the task finished; any other message stands for none.
pub open spec fn stt_event_of(f: (Option<Seq<char>>, Option<bool>, Option<Seq<char>>)) -> Option<
    WsEvent<Seq<char>>,
> {
    if f.0 == Some("task-started"@) {
        Some(WsEvent::TaskStarted)
    } else if f.0 == Some("result-generated"@) && f.1 == Some(true) {
        Some(
            WsEvent::ResultGenerated(
                match f.2 {
                    Some(t) => t,
                    None => Seq::empty(),
                },
            ),
        )
    } else if f.0 == Some("task-finished"@) {
        Some(WsEvent::TaskFinished)
    } else {
        None
    }
}

/// The event a synthesis-service text message with these fields stands for:
/// the task started or finished; any other message stands for none.
pub open spec fn tts_event_of(f: (Option<Seq<char>>, Option<bool>, Option<Seq<char>>)) -> Option<
    WsEvent<Vec<u8>>,
> {
    if f.0 == Some("task-started"@) {
        Some(WsEvent::TaskStarted)
    } else if f.0 == Some("task-finished"@) {
        Some(WsEvent::TaskFinished)
    } else {
        None
    }
}

fn event_is(frame: &ServerFrame, name: &str) -> (b: bool)
    ensures
        b == (opt_view(frame.event) == Some(name@)),
{
    match &frame.event {
        Some(e) => same_text(e.as_str(), name),
        None => false,
    }
}

/// The event a text message of the recognition service stands for (see
/// `stt_event_of`).
pub fn stt_event(frame: &ServerFrame) -> (e: Option<WsEvent<String>>)
    ensures
        event_view(e) == stt_event_of(frame_fields(*frame)),
{
    if event_is(frame, "task-started") {
        return Some(WsEvent::TaskStarted);
    }
    if event_is(frame, "result-generated") {
        if let Some(true) = frame.sentence_end {
            let text = match &frame.text {
                Some(t) => t.clone(),
                None => String::new(),
            };
            return Some(WsEvent::ResultGenerated(text));
        }
    }
    if event_is(frame, "task-finished") {
        return Some(WsEvent::TaskFinished);
    }
    None
}

/// The event a text message of the synthesis service stands for (see
/// `tts_event_of`); audio arrives in binary messages.
pub fn tts_event(frame: &ServerFrame) -> (e: Option<WsEvent<Vec<u8>>>)
    ensures
        e == tts_event_of(frame_fields(*frame)),
{
    if event_is(frame, "task-started") {
        Some(WsEvent::TaskStarted)
    } else if event_is(frame, "task-finished") {
        Some(WsEvent::TaskFinished)
    } else {
        None
    }
}

/// What `serde_json::from_str::<serde_json::Value>` makes of a message, as
/// the fields the tasks read: `None` when the text is not JSON; otherwise
/// `header.event` and `payload.output.transcription.text` where they are
/// strings, and `payload.output.transcription.sentence_end` where it is a
/// boolean.
pub uninterp spec fn json_frame_fields(text: Seq<char>) -> Option<
    (Option<Seq<char>>, Option<bool>, Option<Seq<char>>),
>;

/// Calls `serde_json::from_str::<serde_json::Value>` on a message and picks
/// the fields that the tasks read (indexing a missing key or a non-object
/// gives `Null`, which is neither a string nor a boolean). The result is
/// taken to be `json_frame_fields` of the text; JSON syntax is not spelled
/// out here.
#[verifier::external_body]
fn parse_server_frame(text: &str) -> (f: Option<ServerFrame>)
    ensures
        match f {
            Some(fr) => json_frame_fields(text@) == Some(frame_fields(fr)),
            None => json_frame_fields(text@) is None,
        },
{
    let json: serde_json::Value = serde_json::from_str(text).ok()?;
    let sentence = &json["payload"]["output"]["transcription"];
    Some(ServerFrame {
        event: json["header"]["event"].as_str().map(|s| s.to_string()),
        sentence_end: sentence["sentence_end"].as_bool(),
        text: sentence["text"].as_str().map(|s| s.to_string()),
    })
}

/// Reads a text message of the recognition service: `None` when it is not
/// JSON, otherwise the event it stands for, if any.
pub fn stt_message_event(text: &str) -> (r: Option<Option<WsEvent<String>>>)
    ensures
        match r {
            Some(e) => json_frame_fields(text@) matches Some(f) && event_view(e) == stt_event_of(f),
            None => json_frame_fields(text@) is None,
        },
{
    match parse_server_frame(text) {
        Some(frame) => Some(stt_event(&frame)),
        None => None,
    }
}

/// Reads a text message of the synthesis service: the event it stands for,
/// or `None` when it is not JSON or stands for no event.
pub fn tts_message_event(text: &str) -> (r: Option<WsEvent<Vec<u8>>>)
    ensures
        r == match json_frame_fields(text@) {
            Some(f) => tts_event_of(f),
            None => None,
        },
{
    match parse_server_frame(text) {
        Some(frame) => tts_event(&frame),
        None => None,
    }
}

/// Unicode white space (the `White_Space` property that `str::trim` and
/// `char::is_whitespace` go by): U+0009..U+000D, U+0020, U+0085, U+00A0,
/// U+1680, U+2000..U+200A, U+2028, U+2029, U+202F, U+205F, U+3000.
pub open spec fn is_white_space(c: char) -> bool {
    let u = c as u32;
    ||| 0x9 <= u && u <= 0xd
    ||| u == 0x20
    ||| u == 0x85
    ||| u == 0xa0
    ||| u == 0x1680
    ||| 0x2000 <= u && u <= 0x200a
    ||| u == 0x2028
    ||| u == 0x2029
    ||| u == 0x202f
    ||| u == 0x205f
    ||| u == 0x3000
}

/// A string without its leading white space.
pub open spec fn trim_start(s: Seq<char>) -> Seq<char>
    decreases s.len(),
{
    if s.len() > 0 && is_white_space(s[0]) {
        trim_start(s.drop_first())
    } else {
        s
    }
}

/// A string without its trailing white space.
pub open spec fn trim_end(s: Seq<char>) -> Seq<char>
    decreases s.len(),
{
    if s.len() > 0 && is_white_space(s.last()) {
        trim_end(s.drop_last())
    } else {
        s
    }
}

/// What `str::trim` returns for a string: the string without its leading and
/// trailing white space.
pub open spec fn trimmed(s: Seq<char>) -> Seq<char> {
    trim_end(trim_start(s))
}

/// Calls `str::trim`, which, as its documentation says, removes leading and
/// trailing white space as the Unicode `White_Space` property defines it.
#[verifier::external_body]
fn trim(s: &str) -> (t: &str)
    ensures
        t@ == trimmed(s@),
{
    s.trim()
}

proof fn lemma_trim_start(s: Seq<char>)
    ensures
        trim_start(s).len() > 0 ==> !is_white_space(trim_start(s)[0]),
    decreases s.len(),
{
    if s.len() > 0 && is_white_space(s[0]) {
        lemma_trim_start(s.drop_first());
    }
}

proof fn lemma_trim_end(s: Seq<char>)
    ensures
        trim_end(s).len() <= s.len(),
        forall|i: int| 0 <= i < trim_end(s).len() ==> trim_end(s)[i] == s[i],
        trim_end(s).len() > 0 ==> !is_white_space(trim_end(s).last()),
    decreases s.len(),
{
    if s.len() > 0 && is_white_space(s.last()) {
        lemma_trim_end(s.drop_last());
        assert forall|i: int| 0 <= i < trim_end(s).len() implies trim_end(s)[i] == s[i] by {
            assert(s.drop_last()[i] == s[i]);
        }
    }
}

/// A string that neither starts nor ends with white space is its own trim.
proof fn lemma_trim_fixed(t: Seq<char>)
    requires
        t.len() > 0 ==> !is_white_space(t[0]) && !is_white_space(t.last()),
    ensures
        trimmed(t) == t,
{
}

/// Trimming a trimmed string changes nothing, and the trim of a string that
/// is empty or all white space is empty.
pub proof fn trim_is_idempotent(s: Seq<char>)
    ensures
        trimmed(trimmed(s)) == trimmed(s),
        trimmed(Seq::<char>::empty()) == Seq::<char>::empty(),
{
    lemma_trimmed_ends(s);
    lemma_trim_fixed(trimmed(s));
}

proof fn lemma_trimmed_ends(s: Seq<char>)
    ensures
        trimmed(s).len() > 0 ==> !is_white_space(trimmed(s)[0]) && !is_white_space(
            trimmed(s).last(),
        ),
{
    lemma_trim_start(s);
    lemma_trim_end(trim_start(s));
}

/// A string without its line feeds.
pub open spec fn strip_newlines(s: Seq<char>) -> Seq<char>
    decreases s.len(),
{
    if s.len() == 0 {
        s
    } else if s.last() == '\n' {
        strip_newlines(s.drop_last())
    } else {
        strip_newlines(s.drop_last()).push(s.last())
    }
}

/// The recognised text of a session: trimmed, without line feeds, and
/// absent when nothing is left.
pub open spec fn transcript_of(raw: Seq<char>) -> Option<Seq<char>> {
    let t = strip_newlines(trimmed(raw));
    if t.len() == 0 {
        None
    } else {
        Some(t)
    }
}

/// Cleans up what a recognition session produced: trims it, drops its line
/// feeds, and reports `None` when nothing is left.
pub fn finish_transcript(raw: &str) -> (r: Option<String>)
    ensures
        match r {
            Some(t) => transcript_of(raw@) == Some(t@),
            None => transcript_of(raw@) is None,
        },
        r matches Some(t) ==> t@.len() > 0 && !t@.contains('\n') && trimmed(t@) == t@,
        raw@.len() == 0 ==> r is None,
{
    proof {
        transcript_is_clean(raw@);
    }
    let t = trim(raw);
    let n = t.unicode_len();
    let mut out = String::new();
    let mut i: usize = 0;
    while i < n
        invariant
            n == t@.len(),
            i <= n,
            out@ == strip_newlines(t@.subrange(0, i as int)),
        decreases n - i,
    {
        let c = t.get_char(i);
        assert(t@.subrange(0, i + 1).drop_last() =~= t@.subrange(0, i as int));
        if c != '\n' {
            push_char(&mut out, c);
        }
        i = i + 1;
    }
    assert(t@.subrange(0, n as int) =~= t@);
    if out.unicode_len() == 0 {
        None
    } else {
        Some(out)
    }
}

/// A transcript is never empty, holds no line feed, and is its own trim;
/// an empty text (a session whose first event was no sentence) gives none.
pub proof fn transcript_is_clean(raw: Seq<char>)
    ensures
        transcript_of(raw) matches Some(t) ==> t.len() > 0 && !t.contains('\n') && trimmed(t)
            == t,
        transcript_of(Seq::<char>::empty()) is None,
{
    lemma_strip_newlines(trimmed(raw));
    lemma_trimmed_ends(raw);
    let t = trimmed(raw);
    if t.len() > 0 {
        lemma_strip_keeps_ends(t);
        lemma_trim_fixed(strip_newlines(t));
    }
    assert(trimmed(Seq::<char>::empty()) == Seq::<char>::empty());
}

/// Dropping line feeds from a text that starts and ends with another
/// character keeps its first and last characters.
proof fn lemma_strip_keeps_ends(t: Seq<char>)
    requires
        t.len() > 0,
        t[0] != '\n',
        t.last() != '\n',
    ensures
        strip_newlines(t).len() > 0,
        strip_newlines(t)[0] == t[0],
        strip_newlines(t).last() == t.last(),
{
    lemma_strip_first(t);
}

proof fn lemma_strip_first(t: Seq<char>)
    requires
        t.len() > 0,
        t[0] != '\n',
    ensures
        strip_newlines(t).len() > 0,
        strip_newlines(t)[0] == t[0],
    decreases t.len(),
{
    if t.len() == 1 {
        assert(t.drop_last().len() == 0);
        assert(strip_newlines(t.drop_last()) == Seq::<char>::empty());
        assert(t.last() == t[0]);
    } else {
        let u = t.drop_last();
        assert(u[0] == t[0]);
        lemma_strip_first(u);
        if t.last() != '\n' {
            assert(strip_newlines(t) == strip_newlines(u).push(t.last()));
            assert(strip_newlines(u).push(t.last())[0] == strip_newlines(u)[0]);
        }
    }
}

proof fn lemma_strip_newlines(s: Seq<char>)
    ensures
        !strip_newlines(s).contains('\n'),
    decreases s.len(),
{
    if s.len() > 0 {
        lemma_strip_newlines(s.drop_last());
        let p = strip_newlines(s.drop_last());
        if s.last() != '\n' {
            assert forall|k: int| 0 <= k < p.push(s.last()).len() implies p.push(s.last())[k]
                != '\n' by {
                if k < p.len() {
                    assert(p.push(s.last())[k] == p[k]);
                }
            }
        }
    }
}

/// Whether a recognised text is worth sending on: something is left after trimming.
pub fn should_forward_transcript(text: &str) -> (b: bool)
    ensures
        b == (trimmed(text@).len() > 0),
{
    !trim(text).is_empty()
}

/// Whether a reply of the language model is worth speaking: it is not empty.
pub fn should_speak_reply(reply: &str) -> (b: bool)
    ensures
        b == (reply@.len() > 0),
{
    !reply.is_empty()
}

/// The sentence separator of the synthesised text (the ideographic full stop).
pub open spec fn full_stop() -> char {
    '。'
}

/// The pieces of a text between full stops (as `split("。")` yields them).
pub open spec fn pieces(s: Seq<char>) -> Seq<Seq<char>>
    decreases s.len(),
{
    if s.len() == 0 {
        seq![Seq::empty()]
    } else {
        let p = pieces(s.drop_last());
        if s.last() == full_stop() {
            p.push(Seq::empty())
        } else {
            p.update(p.len() - 1, p.last().push(s.last()))
        }
    }
}

/// The segments handed to the synthesiser: each piece followed by a full stop.
pub open spec fn segments(s: Seq<char>) -> Seq<Seq<char>> {
    Seq::new(pieces(s).len(), |k: int| pieces(s)[k].push(full_stop()))
}

proof fn lemma_pieces_nonempty(s: Seq<char>)
    ensures
        pieces(s).len() >= 1,
    decreases s.len(),
{
    if s.len() > 0 {
        lemma_pieces_nonempty(s.drop_last());
    }
}

/// Splits a reply at its full stops and ends every piece with one, as the
/// synthesiser is fed: a text ending in a full stop yields a last segment
/// that is a lone full stop.
pub fn tts_segments(text: &str) -> (segs: Vec<String>)
    ensures
        segs.len() == segments(text@).len(),
        forall|k: int| 0 <= k < segs.len() ==> (#[trigger] segs[k])@ == segments(text@)[k],
{
    let n = text.unicode_len();
    let mut segs: Vec<String> = Vec::new();
    let mut cur = String::new();
    let mut i: usize = 0;
    let ghost mut done: Seq<Seq<char>> = Seq::empty();
    assert(pieces(text@.subrange(0, 0)) =~= seq![Seq::<char>::empty()]);
    assert(done.push(cur@) =~= seq![Seq::<char>::empty()]);
    while i < n
        invariant
            n == text@.len(),
            i <= n,
            pieces(text@.subrange(0, i as int)) == done.push(cur@),
            segs.len() == done.len(),
            forall|k: int| 0 <= k < segs.len() ==> (#[trigger] segs[k])@ == done[k].push(full_stop()),
        decreases n - i,
    {
        let c = text.get_char(i);
        let ghost pre = text@.subrange(0, i as int);
        assert(text@.subrange(0, i + 1).drop_last() =~= pre);
        assert(text@.subrange(0, i + 1).last() == c);
        if c == '。' {
            let mut seg = String::new();
            seg.append(cur.as_str());
            push_char(&mut seg, '。');
            segs.push(seg);
            proof {
                done = done.push(cur@);
            }
            cur = String::new();
            assert(pieces(text@.subrange(0, i + 1)) =~= done.push(cur@));
        } else {
            push_char(&mut cur, c);
            assert(pieces(text@.subrange(0, i + 1)) =~= done.push(cur@));
        }
        i = i + 1;
    }
    assert(text@.subrange(0, n as int) =~= text@);
    let mut last = String::new();
    last.append(cur.as_str());
    push_char(&mut last, '。');
    segs.push(last);
    proof {
        done = done.push(cur@);
    }
    segs
}

/// A sequence of texts written one after another.
pub open spec fn concat(ss: Seq<Seq<char>>) -> Seq<char>
    decreases ss.len(),
{
    if ss.len() == 0 {
        Seq::empty()
    } else {
        concat(ss.drop_last()) + ss.last()
    }
}

/// Feeding the segments one after another gives back the whole text with
/// one more full stop at its end, and there is one segment more than the
/// text has full stops.
pub proof fn segments_rebuild_text(s: Seq<char>)
    ensures
        concat(segments(s)) == s.push(full_stop()),
        segments(s).len() == s.filter(|c: char| c == full_stop()).len() + 1,
    decreases s.len(),
{
    lemma_pieces_nonempty(s);
    if s.len() == 0 {
        let sg = segments(s);
        assert(pieces(s) =~= seq![Seq::<char>::empty()]);
        assert(sg.len() == 1);
        assert(sg[0] =~= seq![full_stop()]);
        assert(sg.drop_last() =~= Seq::<Seq<char>>::empty());
        assert(concat(sg.drop_last()) =~= Seq::<char>::empty());
        assert(concat(sg) =~= s.push(full_stop()));
        assert(s.filter(|c: char| c == full_stop()) =~= Seq::<char>::empty());
    } else {
        let t = s.drop_last();
        let c = s.last();
        segments_rebuild_text(t);
        lemma_pieces_nonempty(t);
        let pt = pieces(t);
        let ps = pieces(s);
        let st = segments(t);
        let ss = segments(s);
        assert(s =~= t.push(c));
        reveal_with_fuel(Seq::filter, 1);
        assert(s.filter(|c: char| c == full_stop()) == if c == full_stop() {
            t.filter(|c: char| c == full_stop()).push(c)
        } else {
            t.filter(|c: char| c == full_stop())
        }) by {
            assert(s.drop_last() =~= t);
        }
        if c == full_stop() {
            assert(ss.drop_last() =~= st);
            assert(ss.last() =~= seq![full_stop()]);
            assert(concat(ss) =~= s.push(full_stop()));
        } else {
            assert(ss.drop_last() =~= st.drop_last());
            assert(ss.last() =~= pt.last().push(c).push(full_stop()));
            assert(concat(st) == concat(st.drop_last()) + st.last());
            assert(st.last() =~= pt.last().push(full_stop()));
            assert(concat(st.drop_last()) + pt.last() =~= t) by {
                assert(concat(st.drop_last()) + pt.last().push(full_stop()) =~= t.push(
                    full_stop(),
                ));
                assert((concat(st.drop_last()) + pt.last().push(full_stop())).drop_last() =~= concat(
                    st.drop_last(),
                ) + pt.last());
            }
            assert(concat(ss) =~= s.push(full_stop()));
        }
    }
}

/// The speech-recognition client (stateless; each run opens its own session).
pub struct STT;

impl STT {
    pub fn new() -> (s: Self) {
        STT
    }
}

/// The speech-synthesis client (stateless; each run opens its own session).
pub struct TTS {}

impl TTS {
    pub fn new() -> (t: Self) {
        TTS {  }
    }
}

/// One recognition task: its id, the text gathered so far, and whether the
/// wait for results is over.
pub struct SttSession {
    task_id: String,
    text: String,
    finished: bool,
}

impl SttSession {
    pub closed spec fn spec_task_id(self) -> Seq<char> {
        self.task_id@
    }

    pub closed spec fn spec_text(self) -> Seq<char> {
        self.text@
    }

    pub closed spec fn spec_finished(self) -> bool {
        self.finished
    }

    /// Opens a session under a fresh random task id.
    pub fn start() -> (s: Self)
        ensures
            is_v4_uuid_text(s.spec_task_id()),
            s.spec_text() == Seq::<char>::empty(),
            !s.spec_finished(),
    {
        SttSession { task_id: crate::protocol::new_task_id(), text: String::new(), finished: false }
    }

    /// The session's task id.
    pub fn task_id(&self) -> (id: &str)
        ensures
            id@ == self.spec_task_id(),
    {
        self.task_id.as_str()
    }

    /// The frame that starts the recognition task.
    pub fn run_task_frame(&self) -> (f: String)
        ensures
            f@ == task_frame("run-task"@, json_string(self.spec_task_id()), stt_payload()),
    {
        crate::protocol::stt_run_task(self.task_id.as_str())
    }

    /// The frame that finishes the recognition task.
    pub fn finish_task_frame(&self) -> (f: String)
        ensures
            f@ == task_frame("finish-task"@, json_string(self.spec_task_id()), finish_payload()),
    {
        crate::protocol::finish_task(self.task_id.as_str())
    }

    /// Takes what one poll of the event channel gave: nothing keeps the
    /// session waiting; the first event ends the wait, and a recognised
    /// sentence is added to the text.
    pub fn take_event(&mut self, event: Option<WsEvent<String>>)
        ensures
            final(self).spec_task_id() == old(self).spec_task_id(),
            event is None ==> *final(self) == *old(self),
            event is Some ==> final(self).spec_finished(),
            event matches Some(WsEvent::ResultGenerated(t))
                ==> final(self).spec_text() == old(self).spec_text() + t@,
            (event is Some && !(event matches Some(WsEvent::ResultGenerated(_))))
                ==> final(self).spec_text() == old(self).spec_text(),
    {
        match event {
            Some(WsEvent::ResultGenerated(t)) => {
                self.text.append(t.as_str());
                self.finished = true;
            },
            Some(_) => {
                self.finished = true;
            },
            None => {},
        }
    }

    /// Whether the wait for results is over.
    pub fn is_finished(&self) -> (b: bool)
        ensures
            b == self.spec_finished(),
    {
        self.finished
    }

    /// The recognised text, cleaned up; `None` when nothing was recognised.
    pub fn transcript(&self) -> (r: Option<String>)
        ensures
            match r {
                Some(t) => transcript_of(self.spec_text()) == Some(t@),
                None => transcript_of(self.spec_text()) is None,
            },
            r matches Some(t) ==> t@.len() > 0 && !t@.contains('\n') && trimmed(t@) == t@,
            self.spec_text().len() == 0 ==> r is None,
    {
        finish_transcript(self.text.as_str())
    }
}

/// What the synthesis task does after one poll of its event channel.
#[derive(Debug, PartialEq, Eq)]
pub enum TtsStep {
    /// Play this audio, then poll again.
    Play(Vec<u8>),
    /// The task is over.
    Finish,
    /// Nothing to do; poll again.
    Wait,
}

/// One synthesis task, named by its id.
pub struct TtsSession {
    task_id: String,
}

impl TtsSession {
    pub closed spec fn spec_task_id(self) -> Seq<char> {
        self.task_id@
    }

    /// Opens a session under a fresh random task id.
    pub fn start() -> (s: Self)
        ensures
            is_v4_uuid_text(s.spec_task_id()),
    {
        TtsSession { task_id: crate::protocol::new_task_id() }
    }

    /// The session's task id.
    pub fn task_id(&self) -> (id: &str)
        ensures
            id@ == self.spec_task_id(),
    {
        self.task_id.as_str()
    }

    /// The frame that starts the synthesis task with the given voice, volume
    /// and rate (the rate already written as a JSON number).
    pub fn run_task_frame(&self, voice: &str, volume: u8, rate_json: &str) -> (f: String)
        ensures
            f@ == task_frame(
                "run-task"@,
                json_string(self.spec_task_id()),
                tts_payload(json_string(voice@), volume, rate_json@),
            ),
    {
        crate::protocol::tts_run_task(self.task_id.as_str(), voice, volume, rate_json)
    }

    /// One frame per segment of `text`, in order, each handing that segment
    /// to the synthesiser.
    pub fn continue_frames(&self, text: &str) -> (fs: Vec<String>)
        ensures
            fs.len() == segments(text@).len(),
            forall|k: int|
                0 <= k < fs.len() ==> (#[trigger] fs[k])@ == task_frame(
                    "continue-task"@,
                    json_string(self.spec_task_id()),
                    continue_payload(json_string(segments(text@)[k])),
                ),
    {
        let segs = tts_segments(text);
        let mut fs: Vec<String> = Vec::new();
        let n = segs.len();
        let mut i: usize = 0;
        while i < n
            invariant
                n == segs.len(),
                n == segments(text@).len(),
                i <= n,
                fs.len() == i,
                forall|k: int| 0 <= k < n ==> (#[trigger] segs[k])@ == segments(text@)[k],
                forall|k: int|
                    0 <= k < i ==> (#[trigger] fs[k])@ == task_frame(
                        "continue-task"@,
                        json_string(self.spec_task_id()),
                        continue_payload(json_string(segments(text@)[k])),
                    ),
            decreases n - i,
        {
            fs.push(crate::protocol::continue_task(self.task_id.as_str(), segs[i].as_str()));
            i = i + 1;
        }
        fs
    }

    /// The frame that finishes the synthesis task.
    pub fn finish_task_frame(&self) -> (f: String)
        ensures
            f@ == task_frame("finish-task"@, json_string(self.spec_task_id()), finish_payload()),
    {
        crate::protocol::finish_task(self.task_id.as_str())
    }

    /// Decides on one poll of the event channel: audio is played, the end of
    /// the task ends the session, anything else (or nothing) is waited past.
    pub fn next_step(event: Option<WsEvent<Vec<u8>>>) -> (s: TtsStep)
        ensures
            event matches Some(WsEvent::ResultGenerated(d)) ==> s == TtsStep::Play(d),
            event matches Some(WsEvent::TaskFinished) ==> s == TtsStep::Finish,
            !(event matches Some(WsEvent::ResultGenerated(_))) && !(event matches Some(
                WsEvent::TaskFinished,
            )) ==> s == TtsStep::Wait,
    {
        match event {
            Some(WsEvent::ResultGenerated(d)) => TtsStep::Play(d),
            Some(WsEvent::TaskFinished) => TtsStep::Finish,
            _ => TtsStep::Wait,
        }
    }
}

} // verus!


verus! {

/// A synthesis message stands for `TaskStarted` exactly when its event is
/// `task-started`, for `TaskFinished` exactly when it is `task-finished`, and
/// for no event under any other event name (or none).
pub proof fn tts_events_follow_event_name(f: (Option<Seq<char>>, Option<bool>, Option<Seq<char>>))
    ensures
        tts_event_of(f) == Some(WsEvent::<Vec<u8>>::TaskStarted) <==> f.0 == Some("task-started"@),
        tts_event_of(f) == Some(WsEvent::<Vec<u8>>::TaskFinished) <==> f.0 == Some(
            "task-finished"@,
        ),
        tts_event_of(f) is None <==> (f.0 != Some("task-started"@) && f.0 != Some(
            "task-finished"@,
        )),
{
    reveal_strlit("task-started");
    reveal_strlit("task-finished");
    assert("task-started"@ != "task-finished"@) by {
        assert("task-started"@[5] != "task-finished"@[5]);
    }
}

/// A recognition message stands for `TaskStarted` exactly when its event is
/// `task-started`; for a recognised sentence exactly when its event is
/// `result-generated` and the sentence is finished, the sentence being the
/// message's text (empty when it has none); for `TaskFinished` exactly when
/// its event is `task-finished`; and for no event otherwise.
pub proof fn stt_events_follow_event_name(f: (Option<Seq<char>>, Option<bool>, Option<Seq<char>>))
    ensures
        stt_event_of(f) == Some(WsEvent::<Seq<char>>::TaskStarted) <==> f.0 == Some(
            "task-started"@,
        ),
        (stt_event_of(f) matches Some(WsEvent::ResultGenerated(_))) <==> (f.0 == Some(
            "result-generated"@,
        ) && f.1 == Some(true)),
        stt_event_of(f) matches Some(WsEvent::ResultGenerated(t)) ==> t == match f.2 {
            Some(x) => x,
            None => Seq::<char>::empty(),
        },
        stt_event_of(f) == Some(WsEvent::<Seq<char>>::TaskFinished) <==> f.0 == Some(
            "task-finished"@,
        ),
        stt_event_of(f) is None <==> (f.0 != Some("task-started"@) && !(f.0 == Some(
            "result-generated"@,
        ) && f.1 == Some(true)) && f.0 != Some("task-finished"@)),
{
    reveal_strlit("task-started");
    reveal_strlit("task-finished");
    reveal_strlit("result-generated");
    assert("task-started"@ != "task-finished"@) by {
        assert("task-started"@[5] != "task-finished"@[5]);
    }
    assert("task-started"@ != "result-generated"@) by {
        assert("task-started"@[0] != "result-generated"@[0]);
    }
    assert("task-finished"@ != "result-generated"@) by {
        assert("task-finished"@[0] != "result-generated"@[0]);
    }
}

} // verus!
