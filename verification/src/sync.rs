//! The input synchronizer: one per remote player, it tracks confirmed
//! input frames arriving over the network, predicts missing frames,
//! detects mispredictions and reports liveness.

use vstd::prelude::*;
use crate::input::InputFrame;

verus! {

/// What receiving one network message did to a synchronizer.
#[derive(Clone, Copy, PartialEq, Eq, Structural, Debug)]
pub enum MessageOutcome {
    /// A new frame was confirmed and no prediction for it had been served.
    Accepted,
    /// A new frame was confirmed and it differs from the prediction that
    /// was served for it: the session must roll back to this frame.
    Mispredicted,
    /// The frame was already confirmed; the message changed nothing.
    AlreadyConfirmed,
    /// The frame lies before the discarded horizon; the message changed
    /// nothing.
    Stale,
}

/// Liveness of a remote player, as judged by its synchronizer.
#[derive(Clone, Copy, PartialEq, Eq, Structural, Debug)]
pub enum ConnectionStatus {
    Connected,
    /// Nothing has been received for longer than the configured timeout.
    Disconnected,
}

/// The mathematical state of a synchronizer: frames below `base` have
/// been discarded; entry `i` of the buffers belongs to frame `base + i`.
#[verifier::ext_equal]
pub struct SyncModel {
    pub base: int,
    pub confirmed: Seq<Option<InputFrame>>,
    pub predicted: Seq<Option<InputFrame>>,
    pub last_input: InputFrame,
    pub highest: Option<int>,
    pub idle_ticks: int,
    pub timeout: int,
}

/// The confirmed input of a frame, if one has been received and retained.
pub open spec fn confirmed_at(m: SyncModel, frame: int) -> Option<InputFrame> {
    if m.base <= frame < m.base + m.confirmed.len() {
        m.confirmed[frame - m.base]
    } else {
        None
    }
}

/// The prediction last served for a frame, if any.
pub open spec fn predicted_at(m: SyncModel, frame: int) -> Option<InputFrame> {
    if m.base <= frame < m.base + m.predicted.len() {
        m.predicted[frame - m.base]
    } else {
        None
    }
}

/// The input a synchronizer resolves for a frame: the confirmed input
/// when one has been received, else the last confirmed input as a
/// prediction.
pub open spec fn resolved_input(m: SyncModel, frame: int) -> InputFrame {
    match confirmed_at(m, frame) {
        Some(v) => v,
        None => m.last_input,
    }
}

/// How serving input for `frame` changes a synchronizer: nothing but the
/// prediction record of that one frame, and only when no confirmed input
/// was available for it.
pub open spec fn served_model(m0: SyncModel, m1: SyncModel, frame: int) -> bool {
    &&& m1.base == m0.base
    &&& m1.last_input == m0.last_input
    &&& m1.highest == m0.highest
    &&& m1.idle_ticks == m0.idle_ticks
    &&& m1.timeout == m0.timeout
    &&& forall|f: int| confirmed_at(m1, f) == confirmed_at(m0, f)
    &&& forall|f: int| f != frame ==> predicted_at(m1, f) == predicted_at(m0, f)
    &&& (confirmed_at(m0, frame) is None ==> predicted_at(m1, frame) == Some(m0.last_input))
    &&& (confirmed_at(m0, frame) is Some ==> m1 == m0)
}

/// A buffer extended with empty entries until it has length `n`.
pub open spec fn grown(s: Seq<Option<InputFrame>>, n: int) -> Seq<Option<InputFrame>> {
    if s.len() >= n {
        s
    } else {
        s + Seq::new((n - s.len()) as nat, |i: int| None::<InputFrame>)
    }
}

/// What receiving input for one frame does to a synchronizer: a stale or
/// duplicate frame changes nothing; otherwise the input is recorded, the
/// confirmed frontier advances, the liveness clock resets, and the message
/// counts as mispredicted exactly when a differing prediction had been
/// served for its frame.
pub open spec fn spec_receive(m: SyncModel, frame: int, input: InputFrame) -> (SyncModel,
    MessageOutcome) {
    if frame < m.base {
        (m, MessageOutcome::Stale)
    } else {
        let idx = frame - m.base;
        let c = grown(m.confirmed, idx + 1);
        let p = grown(m.predicted, idx + 1);
        if c[idx] is Some {
            (m, MessageOutcome::AlreadyConfirmed)
        } else {
            let fresher = m.highest is None || frame > m.highest->0;
            let m2 = SyncModel {
                base: m.base,
                confirmed: c.update(idx, Some(input)),
                predicted: p,
                last_input: if fresher {
                    input
                } else {
                    m.last_input
                },
                highest: if fresher {
                    Some(frame)
                } else {
                    m.highest
                },
                idle_ticks: 0,
                timeout: m.timeout,
            };
            let outcome = if p[idx] is Some && p[idx]->0 != input {
                MessageOutcome::Mispredicted
            } else {
                MessageOutcome::Accepted
            };
            (m2, outcome)
        }
    }
}

/// What discarding every frame below a horizon does to a synchronizer:
/// the buffer entries of those frames are dropped and the base moves up
/// to the horizon; the prediction source, the confirmed frontier and the
/// liveness clock stay.
pub open spec fn spec_discard(m: SyncModel, horizon: int) -> SyncModel {
    if horizon <= m.base {
        m
    } else {
        let k = if horizon - m.base <= m.confirmed.len() {
            horizon - m.base
        } else {
            m.confirmed.len() as int
        };
        SyncModel {
            base: horizon,
            confirmed: m.confirmed.skip(k),
            predicted: m.predicted.skip(k),
            ..m
        }
    }
}

/// Discarding keeps every entry at or above the horizon and leaves
/// nothing below it.
pub proof fn lemma_discard_entries(m: SyncModel, horizon: int)
    requires
        m.confirmed.len() == m.predicted.len(),
    ensures
        forall|f: int|
            f >= horizon ==> #[trigger] confirmed_at(spec_discard(m, horizon), f) == confirmed_at(
                m,
                f,
            ) && predicted_at(spec_discard(m, horizon), f) == predicted_at(m, f),
        forall|f: int|
            f < horizon ==> #[trigger] confirmed_at(spec_discard(m, horizon), f) is None
                && predicted_at(spec_discard(m, horizon), f) is None,
{
}

/// Receiving input never changes which predictions have been served: the
/// prediction buffer only grows by empty entries; and a misprediction is
/// only ever reported for a frame a prediction was served for.
pub proof fn lemma_receive_predictions(m: SyncModel, frame: int, input: InputFrame)
    ensures
        forall|f: int|
            predicted_at(#[trigger] spec_receive(m, frame, input).0, f) == predicted_at(m, f),
        spec_receive(m, frame, input).1 == MessageOutcome::Mispredicted ==> predicted_at(
            m,
            frame,
        ) is Some,
{
    if frame >= m.base {
        let idx = frame - m.base;
        let c = grown(m.confirmed, idx + 1);
        let p = grown(m.predicted, idx + 1);
        assert forall|f: int|
            predicted_at(#[trigger] spec_receive(m, frame, input).0, f) == predicted_at(
                m,
                f,
            ) by {
            if c[idx] is None && m.base <= f < m.base + p.len() && f - m.base
                >= m.predicted.len() {
                assert(p[f - m.base] is None);
            }
        }
        if c[idx] is None && p[idx] is Some {
            assert(idx < m.predicted.len());
        }
    }
}

/// Idempotence: delivering the same (frame, input) message twice leaves
/// the synchronizer exactly as delivering it once does.
pub proof fn lemma_receive_idempotent(m: SyncModel, frame: int, input: InputFrame)
    ensures
        spec_receive(spec_receive(m, frame, input).0, frame, input).0 == spec_receive(
            m,
            frame,
            input,
        ).0,
{
    let m1 = spec_receive(m, frame, input).0;
    if frame >= m.base {
        let idx = frame - m.base;
        let c = grown(m.confirmed, idx + 1);
        if c[idx] is None {
            assert(m1.confirmed[idx] == Some(input));
        }
    }
}

/// Well-formedness of a synchronizer's state: the buffers run in step,
/// frame numbers fit the machine, and the prediction source is the input
/// of the highest confirmed frame.
pub open spec fn model_wf(m: SyncModel) -> bool {
    &&& m.confirmed.len() == m.predicted.len()
    &&& m.base + m.confirmed.len() <= usize::MAX
    &&& match m.highest {
        None => forall|i: int| 0 <= i < m.confirmed.len() ==> m.confirmed[i] is None,
        Some(h) => {
            &&& h < m.base + m.confirmed.len()
            &&& forall|i: int|
                0 <= i < m.confirmed.len() && m.confirmed[i] is Some ==> m.base + i <= h
            &&& m.base <= h ==> m.confirmed[h - m.base] == Some(m.last_input)
        },
    }
}

/// Per remote player: buffers confirmed input frames arriving out of
/// order, rejects duplicates by frame number, serves the last confirmed
/// input as a prediction for missing frames, detects mispredictions, and
/// reports disconnection after a configurable idle timeout.
pub struct InputSynchronizer {
    base: usize,
    confirmed: Vec<Option<InputFrame>>,
    predicted: Vec<Option<InputFrame>>,
    last_input: InputFrame,
    highest: Option<usize>,
    idle_ticks: usize,
    timeout: usize,
}

impl InputSynchronizer {
    /// The mathematical state of this synchronizer.
    pub closed spec fn model(self) -> SyncModel {
        SyncModel {
            base: self.base as int,
            confirmed: self.confirmed@,
            predicted: self.predicted@,
            last_input: self.last_input,
            highest: match self.highest {
                Some(h) => Some(h as int),
                None => None,
            },
            idle_ticks: self.idle_ticks as int,
            timeout: self.timeout as int,
        }
    }

    /// The buffers run in step, frame numbers fit the machine, and the
    /// prediction source is the input of the highest confirmed frame.
    pub open spec fn wf(self) -> bool {
        model_wf(self.model())
    }

    /// A fresh synchronizer: nothing confirmed, nothing predicted, the
    /// empty input as prediction source, and a full liveness clock.
    pub fn new(timeout: usize) -> (r: InputSynchronizer)
        ensures
            r.wf(),
            r.model().base == 0,
            r.model().confirmed == Seq::<Option<InputFrame>>::empty(),
            r.model().predicted == Seq::<Option<InputFrame>>::empty(),
            r.model().last_input == (InputFrame { up: false, down: false, left: false, right: false }),
            r.model().highest is None,
            r.model().idle_ticks == 0,
            r.model().timeout == timeout,
    {
        InputSynchronizer {
            base: 0,
            confirmed: Vec::new(),
            predicted: Vec::new(),
            last_input: InputFrame::empty(),
            highest: None,
            idle_ticks: 0,
            timeout,
        }
    }

    /// Receive input for one frame from the remote, exactly as
    /// `spec_receive` describes: duplicates and stale frames are ignored,
    /// a new frame is confirmed, and a misprediction is reported when a
    /// differing prediction had been served.
    #[verifier::loop_isolation(false)]
    pub fn receive(&mut self, frame: usize, input: InputFrame) -> (r: MessageOutcome)
        requires
            old(self).wf(),
            frame < usize::MAX,
        ensures
            final(self).wf(),
            final(self).model() == spec_receive(old(self).model(), frame as int, input).0,
            r == spec_receive(old(self).model(), frame as int, input).1,
    {
        if frame < self.base {
            return MessageOutcome::Stale;
        }
        let idx = frame - self.base;
        let ghost orig = self.confirmed@;
        let ghost origp = self.predicted@;
        while self.confirmed.len() <= idx
            invariant
                self.confirmed@.len() == self.predicted@.len(),
                orig.len() <= self.confirmed@.len(),
                self.confirmed@.len() <= idx + 1 || self.confirmed@.len() == orig.len(),
                self.base == old(self).base,
                self.last_input == old(self).last_input,
                self.highest == old(self).highest,
                self.idle_ticks == old(self).idle_ticks,
                self.timeout == old(self).timeout,
                self.confirmed@ == grown(orig, self.confirmed@.len() as int),
                self.predicted@ == grown(origp, self.predicted@.len() as int),
            decreases idx + 1 - self.confirmed.len(),
        {
            self.confirmed.push(None);
            self.predicted.push(None);
            proof {
                assert(self.confirmed@ =~= grown(orig, self.confirmed@.len() as int));
                assert(self.predicted@ =~= grown(origp, self.predicted@.len() as int));
            }
        }
        proof {
            assert(self.confirmed@ =~= grown(orig, idx + 1));
            assert(self.predicted@ =~= grown(origp, idx + 1));
        }
        if self.confirmed[idx].is_some() {
            proof {
                assert(orig.len() > idx);
                assert(self.confirmed@ =~= orig);
                assert(self.predicted@ =~= origp);
                assert(self.model() =~= old(self).model());
            }
            return MessageOutcome::AlreadyConfirmed;
        }
        self.confirmed[idx] = Some(input);
        self.idle_ticks = 0;
        let fresher = match self.highest {
            None => true,
            Some(h) => frame > h,
        };
        if fresher {
            self.highest = Some(frame);
            self.last_input = input;
        }
        let outcome = if self.predicted[idx].is_some() {
            let p = self.predicted[idx].unwrap();
            if p != input {
                MessageOutcome::Mispredicted
            } else {
                MessageOutcome::Accepted
            }
        } else {
            MessageOutcome::Accepted
        };
        proof {
            assert(self.model() =~= spec_receive(old(self).model(), frame as int, input).0);
        }
        outcome
    }

    /// The input to use for a frame: the confirmed input when one has been
    /// received; otherwise the last confirmed input, served and recorded
    /// as a prediction, with the second component flagging that case.
    #[verifier::loop_isolation(false)]
    pub fn get_input(&mut self, frame: usize) -> (r: (InputFrame, bool))
        requires
            old(self).wf(),
            frame < usize::MAX,
            frame >= old(self).model().base,
        ensures
            final(self).wf(),
            served_model(old(self).model(), final(self).model(), frame as int),
            r.0 == resolved_input(old(self).model(), frame as int),
            r.1 == (confirmed_at(old(self).model(), frame as int) is None),
            confirmed_at(old(self).model(), frame as int) is Some ==> *final(self) == *old(self),
    {
        let idx = frame - self.base;
        if idx < self.confirmed.len() {
            match self.confirmed[idx] {
                Some(v) => {
                    return (v, false);
                },
                None => {},
            }
        }
        let ghost orig = self.confirmed@;
        let ghost origp = self.predicted@;
        while self.confirmed.len() <= idx
            invariant
                self.confirmed@.len() == self.predicted@.len(),
                orig.len() <= self.confirmed@.len(),
                self.confirmed@.len() <= idx + 1 || self.confirmed@.len() == orig.len(),
                self.base == old(self).base,
                self.last_input == old(self).last_input,
                self.highest == old(self).highest,
                self.idle_ticks == old(self).idle_ticks,
                self.timeout == old(self).timeout,
                self.confirmed@ == grown(orig, self.confirmed@.len() as int),
                self.predicted@ == grown(origp, self.predicted@.len() as int),
            decreases idx + 1 - self.confirmed.len(),
        {
            self.confirmed.push(None);
            self.predicted.push(None);
            proof {
                assert(self.confirmed@ =~= grown(orig, self.confirmed@.len() as int));
                assert(self.predicted@ =~= grown(origp, self.predicted@.len() as int));
            }
        }
        proof {
            assert(self.confirmed@ =~= grown(orig, idx + 1));
            assert(self.predicted@ =~= grown(origp, idx + 1));
        }
        self.predicted[idx] = Some(self.last_input);
        (self.last_input, true)
    }

    /// Discard every buffered frame below the horizon: the session no
    /// longer rolls back that far, so their entries are dropped to keep
    /// the buffer bounded, exactly as `spec_discard` describes.
    #[verifier::loop_isolation(false)]
    pub fn discard_below(&mut self, horizon: usize)
        requires
            old(self).wf(),
        ensures
            final(self).wf(),
            final(self).model() == spec_discard(old(self).model(), horizon as int),
            final(self).model().base >= old(self).model().base,
            final(self).model().base >= horizon,
    {
        while self.base < horizon && self.confirmed.len() > 0
            invariant
                old(self).base <= self.base,
                self.base <= horizon || self.base == old(self).base,
                self.confirmed@.len() == self.predicted@.len(),
                self.base - old(self).base <= old(self).confirmed@.len(),
                self.confirmed@ == old(self).confirmed@.skip(self.base - old(self).base),
                self.predicted@ == old(self).predicted@.skip(self.base - old(self).base),
                self.last_input == old(self).last_input,
                self.highest == old(self).highest,
                self.idle_ticks == old(self).idle_ticks,
                self.timeout == old(self).timeout,
            decreases horizon - self.base,
        {
            self.confirmed.remove(0);
            self.predicted.remove(0);
            self.base = self.base + 1;
            proof {
                assert(self.confirmed@ =~= old(self).confirmed@.skip(self.base - old(self).base));
                assert(self.predicted@ =~= old(self).predicted@.skip(self.base - old(self).base));
            }
        }
        if self.base < horizon {
            self.base = horizon;
        }
        proof {
            if horizon > old(self).base {
                assert(self.model() =~= spec_discard(old(self).model(), horizon as int));
            }
        }
    }

    /// The confirmed input of a frame, if one has been received and
    /// retained.
    pub fn confirmed_input(&self, frame: usize) -> (r: Option<InputFrame>)
        requires
            self.wf(),
        ensures
            r == confirmed_at(self.model(), frame as int),
    {
        if frame >= self.base {
            let idx = frame - self.base;
            if idx < self.confirmed.len() {
                return self.confirmed[idx];
            }
        }
        None
    }

    /// One simulation tick has passed without a message being drained.
    pub fn advance_tick(&mut self)
        requires
            old(self).wf(),
        ensures
            final(self).wf(),
            final(self).model() == (SyncModel {
                idle_ticks: if old(self).model().idle_ticks < usize::MAX {
                    old(self).model().idle_ticks + 1
                } else {
                    old(self).model().idle_ticks
                },
                ..old(self).model()
            }),
    {
        if self.idle_ticks < usize::MAX {
            self.idle_ticks = self.idle_ticks + 1;
        }
        proof {
            assert(self.model() =~= (SyncModel {
                idle_ticks: if old(self).model().idle_ticks < usize::MAX {
                    old(self).model().idle_ticks + 1
                } else {
                    old(self).model().idle_ticks
                },
                ..old(self).model()
            }));
        }
    }

    /// Liveness: disconnected exactly when more ticks than the timeout
    /// have passed since the last received message.
    pub fn status(&self) -> (r: ConnectionStatus)
        ensures
            r == (if self.model().idle_ticks > self.model().timeout {
                ConnectionStatus::Disconnected
            } else {
                ConnectionStatus::Connected
            }),
    {
        if self.idle_ticks > self.timeout {
            ConnectionStatus::Disconnected
        } else {
            ConnectionStatus::Connected
        }
    }
}

} // verus!
