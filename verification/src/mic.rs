use vstd::prelude::*;

verus! {

/// Whether the microphone currently hears speech.
#[derive(Clone, Copy, Debug, PartialEq, Eq, Structural)]
pub enum MicStatus {
    /// Quiet.
    Silence,
    /// Someone is speaking.
    Speaking,
}

/// What one read of the microphone yields; each variant but `Silence`
/// carries the frame that was read.
#[derive(Debug)]
pub enum MicEvent {
    /// Speech begins with this frame.
    Start(Vec<u8>),
    /// Speech ends with this frame.
    End(Vec<u8>),
    /// Speech goes on with this frame.
    Frame(Vec<u8>),
    /// Nothing is being said.
    Silence,
}

/// The kind of a microphone event, without its frame.
#[derive(Clone, Copy, Debug, PartialEq, Eq, Structural)]
pub enum MicEventKind {
    Start,
    End,
    Frame,
    Silence,
}

impl MicEvent {
    pub open spec fn kind(self) -> MicEventKind {
        match self {
            MicEvent::Start(_) => MicEventKind::Start,
            MicEvent::End(_) => MicEventKind::End,
            MicEvent::Frame(_) => MicEventKind::Frame,
            MicEvent::Silence => MicEventKind::Silence,
        }
    }

    /// The frame an event carries; empty for `Silence`.
    pub open spec fn frame(self) -> Seq<u8> {
        match self {
            MicEvent::Start(f) => f@,
            MicEvent::End(f) => f@,
            MicEvent::Frame(f) => f@,
            MicEvent::Silence => Seq::empty(),
        }
    }
}

/// The status after one frame, and the kind of event that frame yields.
pub open spec fn mic_step(status: MicStatus, speaking: bool) -> (MicStatus, MicEventKind) {
    if speaking {
        match status {
            MicStatus::Silence => (MicStatus::Speaking, MicEventKind::Start),
            MicStatus::Speaking => (MicStatus::Speaking, MicEventKind::Frame),
        }
    } else {
        match status {
            MicStatus::Silence => (MicStatus::Silence, MicEventKind::Silence),
            MicStatus::Speaking => (MicStatus::Silence, MicEventKind::End),
        }
    }
}

/// Turns the voice-activity verdict on a freshly read frame into an event,
/// and moves the status on: speech after quiet starts an utterance, quiet
/// after speech ends it.
pub fn next_mic_event(status: &mut MicStatus, speaking: bool, frame: Vec<u8>) -> (e: MicEvent)
    ensures
        (*final(status), e.kind()) == mic_step(*old(status), speaking),
        e.kind() != MicEventKind::Silence ==> e.frame() == frame@,
{
    if speaking {
        match *status {
            MicStatus::Silence => {
                *status = MicStatus::Speaking;
                MicEvent::Start(frame)
            },
            MicStatus::Speaking => MicEvent::Frame(frame),
        }
    } else {
        match *status {
            MicStatus::Silence => MicEvent::Silence,
            MicStatus::Speaking => {
                *status = MicStatus::Silence;
                MicEvent::End(frame)
            },
        }
    }
}

/// The status reached from `status` after a series of verdicts.
pub open spec fn replay_status(status: MicStatus, verdicts: Seq<bool>) -> MicStatus
    decreases verdicts.len(),
{
    if verdicts.len() == 0 {
        status
    } else {
        replay_status(mic_step(status, verdicts[0]).0, verdicts.drop_first())
    }
}

/// The kinds of the events a series of verdicts yields from `status`.
pub open spec fn replay_kinds(status: MicStatus, verdicts: Seq<bool>) -> Seq<MicEventKind>
    decreases verdicts.len(),
{
    if verdicts.len() == 0 {
        Seq::empty()
    } else {
        seq![mic_step(status, verdicts[0]).1] + replay_kinds(
            mic_step(status, verdicts[0]).0,
            verdicts.drop_first(),
        )
    }
}

/// How many events of a kind a series holds.
pub open spec fn count_kind(kinds: Seq<MicEventKind>, k: MicEventKind) -> nat
    decreases kinds.len(),
{
    if kinds.len() == 0 {
        0
    } else {
        (if kinds[0] == k { 1nat } else { 0nat }) + count_kind(kinds.drop_first(), k)
    }
}

/// Starting quiet, utterances open and close in turn: every `End` closes a
/// `Start`, at most one utterance is open, and it is open exactly when the
/// microphone is left speaking.
pub proof fn starts_and_ends_alternate(verdicts: Seq<bool>)
    ensures
        count_kind(replay_kinds(MicStatus::Silence, verdicts), MicEventKind::Start) == count_kind(
            replay_kinds(MicStatus::Silence, verdicts),
            MicEventKind::End,
        ) + (if replay_status(MicStatus::Silence, verdicts) == MicStatus::Speaking {
            1nat
        } else {
            0nat
        }),
{
    lemma_balance(MicStatus::Silence, verdicts);
}

proof fn lemma_balance(status: MicStatus, verdicts: Seq<bool>)
    ensures
        count_kind(replay_kinds(status, verdicts), MicEventKind::Start) + (if status
            == MicStatus::Speaking {
            1nat
        } else {
            0nat
        }) == count_kind(replay_kinds(status, verdicts), MicEventKind::End) + (if replay_status(
            status,
            verdicts,
        ) == MicStatus::Speaking {
            1nat
        } else {
            0nat
        }),
    decreases verdicts.len(),
{
    if verdicts.len() > 0 {
        let next = mic_step(status, verdicts[0]);
        lemma_balance(next.0, verdicts.drop_first());
        let ks = replay_kinds(status, verdicts);
        assert(ks.drop_first() =~= replay_kinds(next.0, verdicts.drop_first()));
    }
}

/// Whether a series of event kinds is well formed, given whether an
/// utterance is open before it: `Start` only opens one when none is open,
/// `Frame` and `End` only come while one is open (`End` closes it), and
/// `Silence` only comes while none is open.
pub open spec fn well_formed_kinds(kinds: Seq<MicEventKind>, open: bool) -> bool
    decreases kinds.len(),
{
    if kinds.len() == 0 {
        true
    } else {
        match kinds[0] {
            MicEventKind::Start => !open && well_formed_kinds(kinds.drop_first(), true),
            MicEventKind::Frame => open && well_formed_kinds(kinds.drop_first(), true),
            MicEventKind::End => open && well_formed_kinds(kinds.drop_first(), false),
            MicEventKind::Silence => !open && well_formed_kinds(kinds.drop_first(), false),
        }
    }
}

/// Starting quiet, the events of any series of verdicts are well formed:
/// `Start` and `End` alternate beginning with `Start`, `Frame` comes only
/// between a `Start` and the next `End`, and `Silence` only outside them.
pub proof fn events_are_well_formed(verdicts: Seq<bool>)
    ensures
        well_formed_kinds(replay_kinds(MicStatus::Silence, verdicts), false),
{
    lemma_well_formed(MicStatus::Silence, verdicts);
}

proof fn lemma_well_formed(status: MicStatus, verdicts: Seq<bool>)
    ensures
        well_formed_kinds(replay_kinds(status, verdicts), status == MicStatus::Speaking),
    decreases verdicts.len(),
{
    if verdicts.len() > 0 {
        let next = mic_step(status, verdicts[0]);
        lemma_well_formed(next.0, verdicts.drop_first());
        let ks = replay_kinds(status, verdicts);
        assert(ks.drop_first() =~= replay_kinds(next.0, verdicts.drop_first()));
    }
}

/// Keeps reporting speech for a while after the last loud frame, so that
/// short pauses do not cut an utterance.
pub struct SpeechHangover {
    /// Quiet frames seen since the last loud one.
    pub silence_counter: usize,
    /// How many quiet frames still count as speech.
    pub min_silence_frames: usize,
}

/// The counter after one frame, and whether that frame counts as speech.
pub open spec fn hangover_step(counter: usize, min_silence_frames: usize, loud: bool) -> (usize, bool) {
    if loud {
        (0, true)
    } else {
        let c = if counter < usize::MAX { (counter + 1) as usize } else { counter };
        (c, c <= min_silence_frames)
    }
}

impl SpeechHangover {
    /// A detector that has heard nothing yet.
    pub fn new(min_silence_frames: usize) -> (h: Self)
        ensures
            h.silence_counter == 0,
            h.min_silence_frames == min_silence_frames,
    {
        SpeechHangover { silence_counter: 0, min_silence_frames }
    }

    /// Takes whether the frame's energy is above the threshold and says
    /// whether the frame counts as speech. The counter stops at its maximum.
    pub fn observe(&mut self, loud: bool) -> (speaking: bool)
        ensures
            final(self).min_silence_frames == old(self).min_silence_frames,
            (final(self).silence_counter, speaking) == hangover_step(
                old(self).silence_counter,
                old(self).min_silence_frames,
                loud,
            ),
    {
        if loud {
            self.silence_counter = 0;
            true
        } else {
            if self.silence_counter < usize::MAX {
                self.silence_counter = self.silence_counter + 1;
            }
            self.silence_counter <= self.min_silence_frames
        }
    }
}

/// The counter after `k` quiet frames.
pub open spec fn quiet_counter(counter: usize, k: nat) -> usize
    decreases k,
{
    if k == 0 {
        counter
    } else {
        hangover_step(quiet_counter(counter, (k - 1) as nat), 0, false).0
    }
}

/// After a loud frame, the next `min_silence_frames` quiet frames still count
/// as speech and the one after them does not.
pub proof fn hangover_lasts_min_silence_frames(min_silence_frames: usize, k: nat)
    requires
        1 <= k < usize::MAX,
    ensures
        hangover_step(quiet_counter(0, (k - 1) as nat), min_silence_frames, false).1 <==> k
            <= min_silence_frames,
{
    lemma_quiet_counter(k);
}

proof fn lemma_quiet_counter(k: nat)
    requires
        k < usize::MAX,
    ensures
        quiet_counter(0, k) == k,
    decreases k,
{
    if k > 0 {
        lemma_quiet_counter((k - 1) as nat);
    }
}

} // verus!

verus! {

/// A loud frame always counts as speech and always resets the quiet
/// counter, whatever the counter was: so after any loud frame, whatever came
/// before it, the `k`-th quiet frame still counts as speech exactly when
/// `k <= min_silence_frames`.
pub proof fn loud_frame_always_resets(counter: usize, min_silence_frames: usize, k: nat)
    requires
        1 <= k < usize::MAX,
    ensures
        hangover_step(counter, min_silence_frames, true) == (0usize, true),
        hangover_step(
            quiet_counter(hangover_step(counter, min_silence_frames, true).0, (k - 1) as nat),
            min_silence_frames,
            false,
        ).1 <==> k <= min_silence_frames,
{
    hangover_lasts_min_silence_frames(min_silence_frames, k);
}

} // verus!
