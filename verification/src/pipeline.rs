use vstd::prelude::*;

use crate::mic::{MicEvent, MicEventKind};

verus! {

/// The shortest recording, in bytes, that is worth transcribing.
pub const MIN_UTTERANCE_BYTES: usize = 40960;

/// Whether a recorded utterance is long enough to be sent for transcription.
pub fn should_transcribe(audio: &[u8]) -> (b: bool)
    ensures
        b == (audio@.len() >= MIN_UTTERANCE_BYTES),
{
    audio.len() >= MIN_UTTERANCE_BYTES
}

/// The buffered audio after one microphone event, and the utterance it
/// completes, if any.
pub open spec fn utterance_step(buf: Seq<u8>, kind: MicEventKind, frame: Seq<u8>) -> (
    Seq<u8>,
    Option<Seq<u8>>,
) {
    match kind {
        MicEventKind::Silence => (buf, None),
        MicEventKind::End => (Seq::empty(), Some(buf + frame)),
        _ => (buf + frame, None),
    }
}

/// Collects the frames of an utterance until it ends.
pub struct UtteranceBuffer {
    buf: Vec<u8>,
}

impl View for UtteranceBuffer {
    type V = Seq<u8>;

    closed spec fn view(&self) -> Seq<u8> {
        self.buf@
    }
}

impl UtteranceBuffer {
    /// An empty buffer.
    pub fn new() -> (b: Self)
        ensures
            b@ == Seq::<u8>::empty(),
    {
        UtteranceBuffer { buf: Vec::new() }
    }

    /// Takes one microphone event: frames of speech are appended, and the
    /// frame that ends an utterance is appended too, after which the whole
    /// utterance is handed out and the buffer emptied.
    pub fn push(&mut self, event: MicEvent) -> (done: Option<Vec<u8>>)
        ensures
            (final(self)@, match done {
                Some(v) => Some(v@),
                None => None::<Seq<u8>>,
            }) == utterance_step(old(self)@, event.kind(), event.frame()),
    {
        match event {
            MicEvent::Start(frame) => {
                let mut f = frame;
                self.buf.append(&mut f);
                None
            },
            MicEvent::Frame(frame) => {
                let mut f = frame;
                self.buf.append(&mut f);
                None
            },
            MicEvent::End(frame) => {
                let mut f = frame;
                self.buf.append(&mut f);
                let mut data: Vec<u8> = Vec::new();
                std::mem::swap(&mut data, &mut self.buf);
                Some(data)
            },
            MicEvent::Silence => None,
        }
    }
}

/// The buffered audio after a series of events (kind and frame) none of
/// which ends an utterance.
pub open spec fn replay_buffer(buf: Seq<u8>, events: Seq<(MicEventKind, Seq<u8>)>) -> Seq<u8>
    decreases events.len(),
{
    if events.len() == 0 {
        buf
    } else {
        replay_buffer(utterance_step(buf, events[0].0, events[0].1).0, events.drop_first())
    }
}

/// All the frames of a series of events, in order (`Silence` has none).
pub open spec fn all_frames(events: Seq<(MicEventKind, Seq<u8>)>) -> Seq<u8>
    decreases events.len(),
{
    if events.len() == 0 {
        Seq::empty()
    } else {
        (if events[0].0 == MicEventKind::Silence {
            Seq::empty()
        } else {
            events[0].1
        }) + all_frames(events.drop_first())
    }
}

/// The utterance handed out when speech ends is exactly every frame heard
/// since the previous utterance was handed out, in the order heard, followed
/// by the frame that ended it.
pub proof fn utterance_is_every_frame_since_last(
    events: Seq<(MicEventKind, Seq<u8>)>,
    last: Seq<u8>,
)
    requires
        forall|i: int| 0 <= i < events.len() ==> events[i].0 != MicEventKind::End,
    ensures
        utterance_step(replay_buffer(Seq::empty(), events), MicEventKind::End, last).1 == Some(
            all_frames(events) + last,
        ),
{
    lemma_replay_appends(Seq::empty(), events);
    assert(Seq::<u8>::empty() + all_frames(events) =~= all_frames(events));
}

proof fn lemma_replay_appends(buf: Seq<u8>, events: Seq<(MicEventKind, Seq<u8>)>)
    requires
        forall|i: int| 0 <= i < events.len() ==> events[i].0 != MicEventKind::End,
    ensures
        replay_buffer(buf, events) == buf + all_frames(events),
    decreases events.len(),
{
    if events.len() == 0 {
        assert(buf + Seq::<u8>::empty() =~= buf);
    } else {
        let rest = events.drop_first();
        assert forall|i: int| 0 <= i < rest.len() implies rest[i].0 != MicEventKind::End by {
            assert(rest[i] == events[i + 1]);
        }
        let next = utterance_step(buf, events[0].0, events[0].1).0;
        lemma_replay_appends(next, rest);
        let head = if events[0].0 == MicEventKind::Silence {
            Seq::<u8>::empty()
        } else {
            events[0].1
        };
        assert(next =~= buf + head);
        assert(buf + head + all_frames(rest) =~= buf + (head + all_frames(rest)));
    }
}

/// The chunks, as `(start, end)` offsets, in which `len` bytes are handed on
/// `size` at a time from `offset` on.
pub open spec fn chunk_list(offset: int, len: int, size: int) -> Seq<(int, int)>
    decreases len - offset,
{
    if offset >= len || size <= 0 {
        Seq::empty()
    } else if offset + size < len {
        seq![(offset, offset + size)] + chunk_list(offset + size, len, size)
    } else {
        seq![(offset, len)]
    }
}

/// The `(start, end)` offsets of the chunks in which `len` bytes are played or
/// sent, `chunk_size` at a time. Empty data gives no chunk whatever the size;
/// with a size of 0, data that is not empty would never get through.
pub fn chunk_ranges(len: usize, chunk_size: usize) -> (r: Vec<(usize, usize)>)
    requires
        chunk_size > 0 || len == 0,
    ensures
        r.len() == chunk_list(0, len as int, chunk_size as int).len(),
        forall|i: int|
            0 <= i < r.len() ==> (#[trigger] r[i]).0 == chunk_list(0, len as int, chunk_size as int)[i].0
                && r[i].1 == chunk_list(0, len as int, chunk_size as int)[i].1,
{
    let mut r: Vec<(usize, usize)> = Vec::new();
    let mut offset: usize = 0;
    let ghost total = chunk_list(0, len as int, chunk_size as int);
    assert(r@.len() + chunk_list(0, len as int, chunk_size as int).len() == total.len());
    while offset < len
        invariant
            chunk_size > 0 || len == 0,
            offset <= len,
            total == chunk_list(0, len as int, chunk_size as int),
            r.len() + chunk_list(offset as int, len as int, chunk_size as int).len() == total.len(),
            forall|i: int|
                0 <= i < r.len() ==> (#[trigger] r[i]).0 == total[i].0 && r[i].1 == total[i].1,
            forall|i: int|
                0 <= i < chunk_list(offset as int, len as int, chunk_size as int).len() ==> total[r.len()
                    + i] == #[trigger] chunk_list(offset as int, len as int, chunk_size as int)[i],
        decreases len - offset,
    {
        let end = if len - offset > chunk_size {
            offset + chunk_size
        } else {
            len
        };
        let ghost rest = chunk_list(offset as int, len as int, chunk_size as int);
        let ghost next = chunk_list(end as int, len as int, chunk_size as int);
        assert(rest[0] == (offset as int, end as int));
        assert(total[r.len() as int] == rest[0]);
        assert forall|i: int| 0 <= i < next.len() implies total[r.len() + 1 + i] == #[trigger] next[i] by {
            assert(rest[i + 1] == next[i]);
        }
        r.push((offset, end));
        offset = end;
        assert(next == chunk_list(offset as int, len as int, chunk_size as int));
    }
    r
}

/// The chunks cover every byte once, in order: the first starts at 0, each
/// starts where the previous ended, the last ends at `len`, and every chunk
/// but the last holds exactly `size` bytes (the last holds 1 to `size`).
pub proof fn chunks_partition(len: int, size: int)
    requires
        len > 0,
        size > 0,
    ensures
        chunk_list(0, len, size).len() > 0,
        chunk_list(0, len, size)[0].0 == 0,
        chunk_list(0, len, size).last().1 == len,
        0 < chunk_list(0, len, size).last().1 - chunk_list(0, len, size).last().0 <= size,
        forall|i: int|
            0 <= i < chunk_list(0, len, size).len() - 1 ==> (#[trigger] chunk_list(0, len, size)[i]).1
                == chunk_list(0, len, size)[i + 1].0 && chunk_list(0, len, size)[i].1 - chunk_list(
                0,
                len,
                size,
            )[i].0 == size,
{
    lemma_chunks_from(0, len, size);
}

proof fn lemma_chunks_from(offset: int, len: int, size: int)
    requires
        offset < len,
        size > 0,
    ensures
        chunk_list(offset, len, size).len() > 0,
        chunk_list(offset, len, size)[0].0 == offset,
        chunk_list(offset, len, size).last().1 == len,
        0 < chunk_list(offset, len, size).last().1 - chunk_list(offset, len, size).last().0 <= size,
        forall|i: int|
            0 <= i < chunk_list(offset, len, size).len() - 1 ==> (#[trigger] chunk_list(
                offset,
                len,
                size,
            )[i]).1 == chunk_list(offset, len, size)[i + 1].0 && chunk_list(offset, len, size)[i].1
                - chunk_list(offset, len, size)[i].0 == size,
    decreases len - offset,
{
    let cl = chunk_list(offset, len, size);
    let rest = chunk_list(offset + size, len, size);
    if offset + size < len {
        assert(cl == seq![(offset, offset + size)] + rest);
        lemma_chunks_from(offset + size, len, size);
        assert forall|i: int| 0 <= i < cl.len() - 1 implies (#[trigger] cl[i]).1 == cl[i + 1].0
            && cl[i].1 - cl[i].0 == size by {
            if i > 0 {
                assert(cl[i] == rest[i - 1]);
                assert(cl[i + 1] == rest[i]);
            }
        }
    }
}

} // verus!

verus! {

/// Feeds a series of read frames, each with its voice-activity verdict,
/// through the microphone state machine and the utterance buffer; gives the
/// final status, the final buffer, and the utterances handed out in order.
pub open spec fn record(
    status: crate::mic::MicStatus,
    buf: Seq<u8>,
    reads: Seq<(bool, Seq<u8>)>,
) -> (crate::mic::MicStatus, Seq<u8>, Seq<Seq<u8>>)
    decreases reads.len(),
{
    if reads.len() == 0 {
        (status, buf, Seq::empty())
    } else {
        let (next_status, kind) = crate::mic::mic_step(status, reads[0].0);
        let frame = if kind == MicEventKind::Silence {
            Seq::empty()
        } else {
            reads[0].1
        };
        let (next_buf, done) = utterance_step(buf, kind, frame);
        let rest = record(next_status, next_buf, reads.drop_first());
        (rest.0, rest.1, match done {
            Some(u) => seq![u] + rest.2,
            None => rest.2,
        })
    }
}

/// The frames of a series of reads, written one after another.
pub open spec fn joined_frames(reads: Seq<(bool, Seq<u8>)>) -> Seq<u8>
    decreases reads.len(),
{
    if reads.len() == 0 {
        Seq::empty()
    } else {
        reads[0].1 + joined_frames(reads.drop_first())
    }
}

/// Speech heard from silence and followed by one quiet frame is handed out
/// as exactly one recording: every frame from the first loud one through the
/// quiet one that ended it, in order; afterwards the microphone is quiet and
/// the buffer empty.
pub proof fn speech_becomes_one_recording(reads: Seq<(bool, Seq<u8>)>)
    requires
        reads.len() >= 2,
        forall|i: int| 0 <= i < reads.len() - 1 ==> (#[trigger] reads[i]).0,
        !reads.last().0,
    ensures
        record(crate::mic::MicStatus::Silence, Seq::empty(), reads) == (
            crate::mic::MicStatus::Silence,
            Seq::<u8>::empty(),
            seq![joined_frames(reads)],
        ),
{
    let rest = reads.drop_first();
    assert forall|i: int| 0 <= i < rest.len() - 1 implies (#[trigger] rest[i]).0 by {
        assert(rest[i] == reads[i + 1]);
    }
    lemma_record_speaking(reads[0].1, rest);
    assert(Seq::<u8>::empty() + reads[0].1 =~= reads[0].1);
}

proof fn lemma_record_speaking(buf: Seq<u8>, reads: Seq<(bool, Seq<u8>)>)
    requires
        reads.len() >= 1,
        forall|i: int| 0 <= i < reads.len() - 1 ==> (#[trigger] reads[i]).0,
        !reads.last().0,
    ensures
        record(crate::mic::MicStatus::Speaking, buf, reads) == (
            crate::mic::MicStatus::Silence,
            Seq::<u8>::empty(),
            seq![buf + joined_frames(reads)],
        ),
    decreases reads.len(),
{
    let rest = reads.drop_first();
    if reads.len() == 1 {
        assert(rest.len() == 0);
        assert(joined_frames(reads) =~= reads[0].1);
        assert(seq![buf + reads[0].1] + Seq::<Seq<u8>>::empty() =~= seq![buf + reads[0].1]);
        assert(!reads[0].0);
        assert(crate::mic::mic_step(crate::mic::MicStatus::Speaking, false) == (
            crate::mic::MicStatus::Silence,
            MicEventKind::End,
        ));
        assert(record(crate::mic::MicStatus::Silence, Seq::empty(), rest) == (
            crate::mic::MicStatus::Silence,
            Seq::<u8>::empty(),
            Seq::<Seq<u8>>::empty(),
        ));
    } else {
        assert(reads[0].0);
        assert forall|i: int| 0 <= i < rest.len() - 1 implies (#[trigger] rest[i]).0 by {
            assert(rest[i] == reads[i + 1]);
        }
        assert(rest.last() == reads.last());
        lemma_record_speaking(buf + reads[0].1, rest);
        assert(buf + reads[0].1 + joined_frames(rest) =~= buf + joined_frames(reads));
        assert(crate::mic::mic_step(crate::mic::MicStatus::Speaking, true) == (
            crate::mic::MicStatus::Speaking,
            MicEventKind::Frame,
        ));
    }
}

} // verus!
