//! The playback scheduler: which frame to write next, how long to sleep, and
//! when to give up. It decides and does nothing else: whoever drives it
//! writes, measures, sleeps, and tells it what happened. The frames are
//! used up as they are played.

use vstd::prelude::*;
use crate::ansi::{clear_text, push_clear};
use crate::error::PaxciiError;
use crate::fps::{budget_micros, Fps};
use crate::video::texts;

verus! {

/// Where a playback stands.
#[derive(Debug, Clone, Copy, PartialEq, Eq)]
pub enum PlaybackState {
    /// Nothing has been written yet.
    Ready,
    /// The frame with this index has been handed out for writing.
    Emitting(usize),
    /// A frame came too late, or could not be written. Nothing follows.
    Aborted,
    /// Every frame has been written in time.
    Done,
}

/// What happened outside since the last step.
#[derive(Debug, Clone, PartialEq, Eq)]
pub enum PlaybackEvent {
    /// Playback is to begin.
    Start,
    /// The frame handed out was written, in so many microseconds.
    Written { elapsed_micros: u64 },
    /// The frame handed out could not be written.
    WriteFailed { cause: String },
}

/// What is to be done outside before the next step.
#[derive(Debug, Clone, PartialEq, Eq)]
pub enum PlaybackAction {
    /// Sleep, then write `text`, measure the time that the write takes, and
    /// report it.
    Write { sleep_micros: u64, text: String },
    /// Sleep, then stop: playback is complete.
    Finish { sleep_micros: u64 },
    /// Stop: playback has failed.
    Fail { error: PaxciiError },
    /// Nothing: the event has no meaning where the playback stands.
    Ignore,
}

/// What a [`Playback`] holds: its state, the frames not yet handed out, in
/// order, and the microseconds that one frame may take.
pub struct PlaybackView {
    pub state: PlaybackState,
    pub remaining: Seq<Seq<char>>,
    pub budget: nat,
}

/// What an action asks for, with texts as sequences of characters.
pub enum ActionView {
    Write { sleep_micros: nat, text: Seq<char> },
    Finish { sleep_micros: nat },
    Fail { error: PaxciiError },
    Ignore,
}

impl View for PlaybackAction {
    type V = ActionView;

    open spec fn view(&self) -> ActionView {
        match *self {
            PlaybackAction::Write { sleep_micros, text } => ActionView::Write {
                sleep_micros: sleep_micros as nat,
                text: text@,
            },
            PlaybackAction::Finish { sleep_micros } => ActionView::Finish {
                sleep_micros: sleep_micros as nat,
            },
            PlaybackAction::Fail { error } => ActionView::Fail { error },
            PlaybackAction::Ignore => ActionView::Ignore,
        }
    }
}

impl PlaybackView {
    /// The index of the frame being written can still be counted up past
    /// the frames that remain.
    pub open spec fn wf(self) -> bool {
        self.state matches PlaybackState::Emitting(i) ==> i + self.remaining.len() < usize::MAX
    }

    /// The playback after `event`.
    ///
    /// From `Ready`, `Start` hands out the first frame, or ends the playback
    /// if there is none. While `Emitting`, a write that took less than the
    /// budget hands out the next frame, or ends the playback after the last
    /// one; a write that took the budget or more, or that failed, aborts it
    /// and drops the frames that remain. Any other event changes nothing.
    pub open spec fn after(self, event: PlaybackEvent) -> PlaybackView {
        match (self.state, event) {
            (PlaybackState::Ready, PlaybackEvent::Start) => if self.remaining.len() == 0 {
                PlaybackView { state: PlaybackState::Done, ..self }
            } else {
                PlaybackView {
                    state: PlaybackState::Emitting(0),
                    remaining: self.remaining.skip(1),
                    ..self
                }
            },
            (PlaybackState::Emitting(i), PlaybackEvent::Written { elapsed_micros }) => if elapsed_micros
                >= self.budget {
                PlaybackView { state: PlaybackState::Aborted, remaining: Seq::empty(), ..self }
            } else if self.remaining.len() == 0 {
                PlaybackView { state: PlaybackState::Done, ..self }
            } else {
                PlaybackView {
                    state: PlaybackState::Emitting((i + 1) as usize),
                    remaining: self.remaining.skip(1),
                    ..self
                }
            },
            (PlaybackState::Emitting(_), PlaybackEvent::WriteFailed { .. }) => PlaybackView {
                state: PlaybackState::Aborted,
                remaining: Seq::empty(),
                ..self
            },
            _ => self,
        }
    }

    /// What `event` asks to be done.
    ///
    /// A frame is written behind the clear-screen escape. Before the first
    /// frame there is no sleep; after a write that took `elapsed` there is
    /// one of `budget - elapsed`, also after the last frame.
    pub open spec fn action(self, event: PlaybackEvent) -> ActionView {
        match (self.state, event) {
            (PlaybackState::Ready, PlaybackEvent::Start) => if self.remaining.len() == 0 {
                ActionView::Finish { sleep_micros: 0 }
            } else {
                ActionView::Write { sleep_micros: 0, text: clear_text() + self.remaining[0] }
            },
            (PlaybackState::Emitting(_), PlaybackEvent::Written { elapsed_micros }) => if elapsed_micros
                >= self.budget {
                ActionView::Fail { error: PaxciiError::RenderTooSlow }
            } else if self.remaining.len() == 0 {
                ActionView::Finish { sleep_micros: (self.budget - elapsed_micros) as nat }
            } else {
                ActionView::Write {
                    sleep_micros: (self.budget - elapsed_micros) as nat,
                    text: clear_text() + self.remaining[0],
                }
            },
            (PlaybackState::Emitting(_), PlaybackEvent::WriteFailed { cause }) => ActionView::Fail {
                error: PaxciiError::IoFailure { cause },
            },
            _ => ActionView::Ignore,
        }
    }
}

/// The playback after a run of events, one after the other.
pub open spec fn after_all(v: PlaybackView, events: Seq<PlaybackEvent>) -> PlaybackView
    decreases events.len(),
{
    if events.len() == 0 {
        v
    } else {
        after_all(v, events.drop_last()).after(events.last())
    }
}

/// The events of a playback in which every write succeeds: `Start`, and
/// then a `Written` for each of the times in `elapsed`.
pub open spec fn timed_run(elapsed: Seq<u64>) -> Seq<PlaybackEvent> {
    seq![PlaybackEvent::Start] + elapsed.map_values(
        |e: u64| PlaybackEvent::Written { elapsed_micros: e },
    )
}

/// A write that takes the budget or longer aborts the playback with
/// `RenderTooSlow`, whatever frames remain, and no frame remains after it.
pub proof fn lemma_late_write_aborts(v: PlaybackView, elapsed_micros: u64)
    requires
        v.state is Emitting,
        elapsed_micros >= v.budget,
    ensures
        v.after(PlaybackEvent::Written { elapsed_micros }).state == PlaybackState::Aborted,
        v.after(PlaybackEvent::Written { elapsed_micros }).remaining.len() == 0,
        v.action(PlaybackEvent::Written { elapsed_micros }) == (ActionView::Fail {
            error: PaxciiError::RenderTooSlow,
        }),
{
}

/// A playback that is aborted or done stays as it is: no event changes it
/// and none makes it hand out a frame.
pub proof fn lemma_ended_stays(v: PlaybackView, events: Seq<PlaybackEvent>)
    requires
        v.state == PlaybackState::Aborted || v.state == PlaybackState::Done,
    ensures
        after_all(v, events) == v,
        forall|e: PlaybackEvent| v.action(e) == ActionView::Ignore,
    decreases events.len(),
{
    if events.len() > 0 {
        lemma_ended_stays(v, events.drop_last());
    }
}

/// While every write takes less than the budget, the frames go out one by
/// one: after `Start` and `k` writes the playback is writing frame `k`, and
/// the frames behind it remain.
pub proof fn lemma_steady_run(v: PlaybackView, elapsed: Seq<u64>)
    requires
        v.state == PlaybackState::Ready,
        v.remaining.len() <= usize::MAX,
        elapsed.len() < v.remaining.len(),
        forall|i: int| 0 <= i < elapsed.len() ==> #[trigger] elapsed[i] < v.budget,
    ensures
        after_all(v, timed_run(elapsed)) == (PlaybackView {
            state: PlaybackState::Emitting(elapsed.len() as usize),
            remaining: v.remaining.skip(elapsed.len() as int + 1),
            budget: v.budget,
        }),
    decreases elapsed.len(),
{
    let run = timed_run(elapsed);
    if elapsed.len() == 0 {
        assert(run.drop_last() =~= Seq::<PlaybackEvent>::empty());
        assert(run.last() == PlaybackEvent::Start);
        assert(after_all(v, run.drop_last()) == v);
    } else {
        let shorter = elapsed.drop_last();
        lemma_steady_run(v, shorter);
        assert(run.drop_last() =~= timed_run(shorter));
        assert(run.last() == PlaybackEvent::Written { elapsed_micros: elapsed.last() });
        let before = after_all(v, timed_run(shorter));
        assert(before.remaining.len() > 0);
        assert(before.remaining.skip(1) =~= v.remaining.skip(elapsed.len() as int + 1));
    }
}

/// A playback in which every write takes less than the budget reaches
/// `Done` with the write of its last frame, and not before.
pub proof fn lemma_steady_run_completes(v: PlaybackView, elapsed: Seq<u64>)
    requires
        v.state == PlaybackState::Ready,
        v.remaining.len() <= usize::MAX,
        elapsed.len() == v.remaining.len(),
        forall|i: int| 0 <= i < elapsed.len() ==> #[trigger] elapsed[i] < v.budget,
    ensures
        after_all(v, timed_run(elapsed)).state == PlaybackState::Done,
        forall|k: int|
            0 <= k < elapsed.len() ==> #[trigger] after_all(v, timed_run(elapsed.take(k))).state
                == PlaybackState::Emitting(k as usize),
{
    let run = timed_run(elapsed);
    if elapsed.len() == 0 {
        assert(run.drop_last() =~= Seq::<PlaybackEvent>::empty());
        assert(run.last() == PlaybackEvent::Start);
        assert(after_all(v, run.drop_last()) == v);
    } else {
        let shorter = elapsed.drop_last();
        lemma_steady_run(v, shorter);
        assert(run.drop_last() =~= timed_run(shorter));
        assert(run.last() == PlaybackEvent::Written { elapsed_micros: elapsed.last() });
        let before = after_all(v, timed_run(shorter));
        assert(before.remaining.len() == 0);
    }
    assert forall|k: int| 0 <= k < elapsed.len() implies #[trigger] after_all(
        v,
        timed_run(elapsed.take(k)),
    ).state == PlaybackState::Emitting(k as usize) by {
        lemma_steady_run(v, elapsed.take(k));
    }
}

/// What the event with index `k` of a run asks to be done.
pub open spec fn action_at(v: PlaybackView, events: Seq<PlaybackEvent>, k: int) -> ActionView {
    after_all(v, events.take(k)).action(events[k])
}

/// In a playback in which every write takes less than the budget, every
/// frame is written once and in order, each behind the clear-screen escape:
/// the first at once, every other after a sleep of what the write before it
/// left of the budget. The write of the last frame is followed by such a
/// sleep as well, and then the playback is finished.
pub proof fn lemma_steady_run_writes(v: PlaybackView, elapsed: Seq<u64>)
    requires
        v.state == PlaybackState::Ready,
        v.remaining.len() <= usize::MAX,
        elapsed.len() == v.remaining.len(),
        forall|i: int| 0 <= i < elapsed.len() ==> #[trigger] elapsed[i] < v.budget,
    ensures
        v.remaining.len() == 0 ==> action_at(v, timed_run(elapsed), 0) == (ActionView::Finish {
            sleep_micros: 0,
        }),
        v.remaining.len() >= 1 ==> action_at(v, timed_run(elapsed), 0) == (ActionView::Write {
            sleep_micros: 0,
            text: clear_text() + v.remaining[0],
        }),
        forall|k: int|
            1 <= k < elapsed.len() ==> #[trigger] action_at(v, timed_run(elapsed), k) == (
            ActionView::Write {
                sleep_micros: (v.budget - elapsed[k - 1]) as nat,
                text: clear_text() + v.remaining[k],
            }),
        v.remaining.len() >= 1 ==> action_at(v, timed_run(elapsed), elapsed.len() as int) == (
        ActionView::Finish { sleep_micros: (v.budget - elapsed.last()) as nat }),
{
    let run = timed_run(elapsed);
    let n = elapsed.len() as int;
    assert(run.take(0) =~= Seq::<PlaybackEvent>::empty());
    assert(run[0] == PlaybackEvent::Start);
    assert forall|k: int| 1 <= k <= n implies {
        &&& run.take(k) == timed_run(elapsed.take(k - 1))
        &&& run[k] == PlaybackEvent::Written { elapsed_micros: elapsed[k - 1] }
        &&& after_all(v, run.take(k)).state is Emitting
        &&& after_all(v, run.take(k)).remaining == v.remaining.skip(k)
        &&& after_all(v, run.take(k)).budget == v.budget
    } by {
        assert(run.take(k) =~= timed_run(elapsed.take(k - 1)));
        lemma_steady_run(v, elapsed.take(k - 1));
    }
    assert forall|k: int| 1 <= k < n implies #[trigger] action_at(v, run, k) == (
    ActionView::Write {
        sleep_micros: (v.budget - elapsed[k - 1]) as nat,
        text: clear_text() + v.remaining[k],
    }) by {
        assert(v.remaining.skip(k)[0] == v.remaining[k]);
    }
}

/// The texts of a stack of frames, from the top down.
pub open spec fn top_down(stack: Seq<String>) -> Seq<Seq<char>> {
    Seq::new(stack.len(), |i: int| stack[stack.len() - 1 - i]@)
}

/// A playback of rendered frames at a fixed rate. It holds the frames that
/// are still to be written and no others: a frame leaves it when it is
/// handed out.
#[derive(Debug)]
pub struct Playback {
    state: PlaybackState,
    /// The frames not yet handed out, the next one on top.
    pending: Vec<String>,
    budget: u64,
}

impl View for Playback {
    type V = PlaybackView;

    closed spec fn view(&self) -> PlaybackView {
        PlaybackView {
            state: self.state,
            remaining: top_down(self.pending@),
            budget: self.budget as nat,
        }
    }
}

impl Playback {
    #[verifier::type_invariant]
    spec fn inv(self) -> bool {
        self.state matches PlaybackState::Emitting(i) ==> i + self.pending@.len() < usize::MAX
    }

    /// A playback of `frames` at the rate `fps`, ready to start.
    pub fn new(frames: Vec<String>, fps: &Fps) -> (playback: Playback)
        ensures
            playback@.state == PlaybackState::Ready,
            playback@.remaining == texts(frames@),
            playback@.budget == budget_micros(fps@.0, fps@.1),
            playback@.wf(),
    {
        let budget = fps.frame_micros();
        let ghost all = frames@;
        let mut frames = frames;
        let mut pending: Vec<String> = Vec::new();
        while frames.len() > 0
            invariant
                frames@.len() + pending@.len() == all.len(),
                frames@ == all.take(frames@.len() as int),
                forall|i: int|
                    0 <= i < pending@.len() ==> #[trigger] pending@[i] == all[all.len() - 1 - i],
            decreases frames@.len(),
        {
            let frame = frames.pop().unwrap();
            pending.push(frame);
        }
        assert(top_down(pending@) =~= texts(all));
        Playback { state: PlaybackState::Ready, pending, budget }
    }

    /// Where the playback stands.
    pub fn state(&self) -> (state: PlaybackState)
        ensures
            state == self@.state,
            self@.wf(),
    {
        proof {
            use_type_invariant(self);
        }
        self.state
    }

    /// The microseconds that one frame may take.
    pub fn budget(&self) -> (micros: u64)
        ensures
            micros == self@.budget,
    {
        self.budget
    }

    /// The number of frames not yet handed out.
    pub fn remaining(&self) -> (n: usize)
        ensures
            n == self@.remaining.len(),
    {
        self.pending.len()
    }

    /// Takes the next frame out and puts the clear-screen escape before it.
    fn next_text(&mut self) -> (text: String)
        requires
            old(self).pending@.len() > 0,
        ensures
            final(self).state == old(self).state,
            final(self).budget == old(self).budget,
            final(self).pending@ == old(self).pending@.drop_last(),
            final(self)@.remaining == old(self)@.remaining.skip(1),
            text@ == clear_text() + old(self)@.remaining[0],
    {
        proof {
            use_type_invariant(&*self);
        }
        let mut pending: Vec<String> = Vec::new();
        core::mem::swap(&mut self.pending, &mut pending);
        let frame = pending.pop();
        core::mem::swap(&mut self.pending, &mut pending);
        let mut text = String::new();
        push_clear(&mut text);
        match frame {
            Some(frame) => {
                text.append(frame.as_str());
            },
            None => {},
        }
        assert(top_down(self.pending@) =~= top_down(old(self).pending@).skip(1));
        text
    }

    /// Takes note of `event` and says what is to be done next.
    pub fn step(&mut self, event: PlaybackEvent) -> (action: PlaybackAction)
        ensures
            final(self)@ == old(self)@.after(event),
            action@ == old(self)@.action(event),
            final(self)@.wf(),
    {
        proof {
            use_type_invariant(&*self);
        }
        match (self.state, event) {
            (PlaybackState::Ready, PlaybackEvent::Start) => {
                if self.pending.len() == 0 {
                    self.state = PlaybackState::Done;
                    PlaybackAction::Finish { sleep_micros: 0 }
                } else {
                    let text = self.next_text();
                    self.state = PlaybackState::Emitting(0);
                    PlaybackAction::Write { sleep_micros: 0, text }
                }
            },
            (PlaybackState::Emitting(i), PlaybackEvent::Written { elapsed_micros }) => {
                if elapsed_micros >= self.budget {
                    self.state = PlaybackState::Aborted;
                    self.pending = Vec::new();
                    assert(top_down(self.pending@) =~= Seq::<Seq<char>>::empty());
                    PlaybackAction::Fail { error: PaxciiError::RenderTooSlow }
                } else if self.pending.len() == 0 {
                    self.state = PlaybackState::Done;
                    PlaybackAction::Finish { sleep_micros: self.budget - elapsed_micros }
                } else {
                    let text = self.next_text();
                    self.state = PlaybackState::Emitting(i + 1);
                    PlaybackAction::Write { sleep_micros: self.budget - elapsed_micros, text }
                }
            },
            (PlaybackState::Emitting(_), PlaybackEvent::WriteFailed { cause }) => {
                self.state = PlaybackState::Aborted;
                self.pending = Vec::new();
                assert(top_down(self.pending@) =~= Seq::<Seq<char>>::empty());
                PlaybackAction::Fail { error: PaxciiError::IoFailure { cause } }
            },
            _ => PlaybackAction::Ignore,
        }
    }
}

} // verus!
