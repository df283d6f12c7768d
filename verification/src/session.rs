//! The rollback session: orchestrates per-tick advancement, input
//! exchange, misprediction detection, state snapshots, rollback and
//! resimulation.  The host drives it, performing the simulation steps and
//! transport I/O itself and handing the session plain values.

use vstd::prelude::*;
use crate::input::{DecodeError, InputFrame};
use crate::player::{PlayerHandle, PlayerKind, PlayerRegistry, SessionError};
use crate::snapshot::SnapshotStore;
use crate::sync::{
    confirmed_at, lemma_discard_entries, lemma_receive_predictions, predicted_at, resolved_input,
    served_model, spec_discard, spec_receive, ConnectionStatus, InputSynchronizer, MessageOutcome,
    SyncModel,
};

verus! {

/// Tunable constants of a session.
#[derive(Clone, Copy, PartialEq, Eq, Structural, Debug)]
pub struct SessionConfig {
    /// How many snapshots are retained: the maximum rollback depth.
    pub rollback_window: usize,
    /// How many recent confirmed local frames each outgoing message
    /// piggybacks to tolerate packet loss.
    pub resend_count: usize,
    /// After how many silent ticks a remote counts as disconnected.
    pub disconnect_timeout: usize,
    /// Below how many connected players the session stops.
    pub min_players: usize,
}

/// Lifecycle of a session.
#[derive(Clone, Copy, PartialEq, Eq, Structural, Debug)]
pub enum SessionState {
    /// Players are being added; the simulation has not started.
    Building,
    /// The per-tick advance loop is running.
    Running,
    /// Terminal: stopped explicitly, by disconnection below the player
    /// minimum, or by a fatal rollback failure.
    Stopped,
}

/// Whether a player still contributes: local players always do, a remote
/// one only while its synchronizer's liveness clock is within the
/// timeout.
pub open spec fn is_connected(kind: PlayerKind, m: SyncModel) -> bool {
    kind is Local || m.idle_ticks <= m.timeout
}

/// How many of the first `n` players are connected.
pub open spec fn count_connected(kinds: Seq<PlayerKind>, models: Seq<SyncModel>, n: int) -> int
    decreases n,
{
    if n <= 0 {
        0
    } else {
        count_connected(kinds, models, n - 1) + if is_connected(kinds[n - 1], models[n - 1]) {
            1int
        } else {
            0int
        }
    }
}

/// A synchronizer after one silent tick: its liveness clock one higher,
/// saturating at the machine limit.
pub open spec fn ticked(m: SyncModel) -> SyncModel {
    SyncModel {
        idle_ticks: if m.idle_ticks < usize::MAX {
            m.idle_ticks + 1
        } else {
            m.idle_ticks
        },
        ..m
    }
}

/// A rollback-netcode session over the registered players.
pub struct Session {
    config: SessionConfig,
    state: SessionState,
    registry: PlayerRegistry,
    syncs: Vec<InputSynchronizer>,
    store: SnapshotStore,
    current_frame: usize,
    pending_rollback: Option<usize>,
}

impl Session {
    /// The configuration the session was built with.
    pub closed spec fn spec_config(self) -> SessionConfig {
        self.config
    }

    /// The lifecycle state.
    pub closed spec fn spec_state(self) -> SessionState {
        self.state
    }

    /// The registered players, in add-order.
    pub closed spec fn players(self) -> Seq<PlayerKind> {
        self.registry.players()
    }

    /// The synchronizer state of each player, in add-order.  A local
    /// player's synchronizer confirms its sampled input each tick.
    pub closed spec fn sync_models(self) -> Seq<SyncModel> {
        self.syncs@.map(|i: int, s: InputSynchronizer| s.model())
    }

    /// The snapshot ring buffer.
    pub closed spec fn snapshots(self) -> SnapshotStore {
        self.store
    }

    /// The frame the session is currently simulating.
    pub closed spec fn spec_frame(self) -> usize {
        self.current_frame
    }

    /// The lowest mispredicted frame for which a rollback is still owed.
    pub closed spec fn spec_pending_rollback(self) -> Option<usize> {
        self.pending_rollback
    }

    /// The oldest frame the session can still need input for: one full
    /// rollback window behind the frame after the current one, clamped
    /// at frame zero.  Frames below it may be discarded.
    pub open spec fn spec_trim_point(self) -> usize {
        if self.spec_frame() >= self.spec_config().rollback_window {
            (self.spec_frame() + 1 - self.spec_config().rollback_window) as usize
        } else {
            0
        }
    }

    /// Internal consistency: one synchronizer per player, all well
    /// formed and undiscarded, the store sized to the rollback window,
    /// the registry frozen iff the build phase is over, and any pending
    /// rollback pointing at or before the current frame.
    pub closed spec fn wf(self) -> bool {
        &&& self.registry.players().len() == self.syncs@.len()
        &&& forall|i: int|
            0 <= i < self.syncs@.len() ==> (#[trigger] self.syncs@[i]).wf()
                && self.syncs@[i].model().base <= self.spec_trim_point()
        &&& self.store.wf()
        &&& self.store.window() == self.config.rollback_window
        &&& self.config.rollback_window >= 1
        &&& (self.registry.is_started() <==> !(self.state is Building))
        &&& forall|i: int, f: int|
            0 <= i < self.syncs@.len() && #[trigger] predicted_at(self.syncs@[i].model(), f)
                is Some ==> f <= self.current_frame
        &&& match self.pending_rollback {
            Some(f) => f <= self.current_frame && self.state is Running,
            None => true,
        }
    }

    /// A session in the build phase, with no players, no snapshots, at
    /// frame zero.
    pub fn new(config: SessionConfig) -> (r: Session)
        requires
            config.rollback_window >= 1,
        ensures
            r.wf(),
            r.spec_config() == config,
            r.spec_state() == SessionState::Building,
            r.players() == Seq::<PlayerKind>::empty(),
            r.sync_models() == Seq::<SyncModel>::empty(),
            r.snapshots().wf(),
            r.snapshots().window() == config.rollback_window,
            r.snapshots().blobs().len() == 0,
            r.spec_frame() == 0,
            r.spec_pending_rollback() is None,
    {
        let r = Session {
            config,
            state: SessionState::Building,
            registry: PlayerRegistry::new(),
            syncs: Vec::new(),
            store: SnapshotStore::new(config.rollback_window),
            current_frame: 0,
            pending_rollback: None,
        };
        proof {
            assert(r.sync_models() =~= Seq::<SyncModel>::empty());
        }
        r
    }

    /// Register one more participant, in the build phase only.  Handles
    /// are assigned in add-order, so all participants adding players in
    /// the same canonical order agree on the numbering.  After `start`
    /// the call fails with `SessionAlreadyStarted` and alters nothing.
    pub fn add_player(&mut self, kind: PlayerKind) -> (r: Result<PlayerHandle, SessionError>)
        requires
            old(self).wf(),
        ensures
            final(self).wf(),
            old(self).spec_state() is Building ==> r == Ok::<PlayerHandle, SessionError>(
                PlayerHandle { id: old(self).players().len() as usize },
            ) && final(self).players() == old(self).players().push(kind),
            !(old(self).spec_state() is Building) ==> r == Err::<PlayerHandle, SessionError>(
                SessionError::SessionAlreadyStarted,
            ) && *final(self) == *old(self),
            final(self).spec_state() == old(self).spec_state(),
            final(self).spec_config() == old(self).spec_config(),
            final(self).snapshots() == old(self).snapshots(),
            final(self).spec_frame() == old(self).spec_frame(),
            final(self).spec_pending_rollback() == old(self).spec_pending_rollback(),
    {
        match self.registry.add_player(kind) {
            Ok(handle) => {
                self.syncs.push(InputSynchronizer::new(self.config.disconnect_timeout));
                proof {
                    assert(self.sync_models() =~= old(self).sync_models().push(
                        self.syncs@[self.syncs@.len() - 1].model(),
                    ));
                }
                Ok(handle)
            },
            Err(e) => Err(e),
        }
    }

    /// End the build phase and begin running.  A second `start` fails
    /// with `SessionAlreadyStarted` and alters nothing.
    pub fn start(&mut self) -> (r: Result<(), SessionError>)
        requires
            old(self).wf(),
        ensures
            final(self).wf(),
            old(self).spec_state() is Building ==> r == Ok::<(), SessionError>(())
                && final(self).spec_state() == SessionState::Running,
            !(old(self).spec_state() is Building) ==> r == Err::<(), SessionError>(
                SessionError::SessionAlreadyStarted,
            ) && *final(self) == *old(self),
            final(self).players() == old(self).players(),
            final(self).sync_models() == old(self).sync_models(),
            final(self).spec_config() == old(self).spec_config(),
            final(self).snapshots() == old(self).snapshots(),
            final(self).spec_frame() == old(self).spec_frame(),
            final(self).spec_pending_rollback() == old(self).spec_pending_rollback(),
    {
        match self.state {
            SessionState::Building => {
                let started = self.registry.start();
                proof {
                    assert(started is Ok);
                }
                self.state = SessionState::Running;
                Ok(())
            },
            _ => Err(SessionError::SessionAlreadyStarted),
        }
    }

    /// The lifecycle state.
    pub fn state(&self) -> (r: SessionState)
        ensures
            r == self.spec_state(),
    {
        self.state
    }

    /// The frame the session is currently simulating.
    pub fn current_frame(&self) -> (r: usize)
        ensures
            r == self.spec_frame(),
    {
        self.current_frame
    }

    /// How many players are registered.
    pub fn player_count(&self) -> (r: usize)
        ensures
            r == self.players().len(),
    {
        self.registry.len()
    }

    /// The kind registered under a handle.
    pub fn player_kind(&self, handle: PlayerHandle) -> (r: PlayerKind)
        requires
            handle.id < self.players().len(),
        ensures
            r == self.players()[handle.id as int],
    {
        self.registry.kind_of(handle)
    }

    /// The lowest mispredicted frame for which a rollback is still owed.
    pub fn rollback_needed(&self) -> (r: Option<usize>)
        ensures
            r == self.spec_pending_rollback(),
    {
        self.pending_rollback
    }

    /// The liveness a player's synchronizer reports: disconnected
    /// exactly when more ticks than the timeout have passed since its
    /// last received message.  A local player's clock resets every
    /// sampled frame, so only remotes ever disconnect.
    pub fn player_status(&self, handle: PlayerHandle) -> (r: ConnectionStatus)
        requires
            self.wf(),
            handle.id < self.players().len(),
        ensures
            r == (if self.sync_models()[handle.id as int].idle_ticks > self.sync_models()[handle.id as int].timeout {
                ConnectionStatus::Disconnected
            } else {
                ConnectionStatus::Connected
            }),
    {
        let r = self.syncs[handle.id].status();
        proof {
            assert(self.sync_models()[handle.id as int] == self.syncs@[handle.id as int].model());
        }
        r
    }

    /// Record the input just sampled for a local player at the current
    /// frame: it is confirmed immediately, exactly as `spec_receive`
    /// describes on that player's synchronizer.
    pub fn add_local_input(&mut self, handle: PlayerHandle, input: InputFrame) -> (r:
        MessageOutcome)
        requires
            old(self).wf(),
            old(self).spec_state() is Running,
            handle.id < old(self).players().len(),
            old(self).players()[handle.id as int] is Local,
            old(self).spec_frame() < usize::MAX,
        ensures
            final(self).wf(),
            final(self).sync_models() == old(self).sync_models().update(
                handle.id as int,
                spec_receive(
                    old(self).sync_models()[handle.id as int],
                    old(self).spec_frame() as int,
                    input,
                ).0,
            ),
            r == spec_receive(
                old(self).sync_models()[handle.id as int],
                old(self).spec_frame() as int,
                input,
            ).1,
            final(self).spec_state() == old(self).spec_state(),
            final(self).players() == old(self).players(),
            final(self).spec_config() == old(self).spec_config(),
            final(self).snapshots() == old(self).snapshots(),
            final(self).spec_frame() == old(self).spec_frame(),
            final(self).spec_pending_rollback() == old(self).spec_pending_rollback(),
    {
        let frame = self.current_frame;
        let ghost m0 = self.syncs@[handle.id as int].model();
        let r = self.syncs[handle.id].receive(frame, input);
        proof {
            assert(self.sync_models() =~= old(self).sync_models().update(
                handle.id as int,
                spec_receive(m0, frame as int, input).0,
            ));
            lemma_receive_predictions(m0, frame as int, input);
            assert forall|i2: int, f: int|
                0 <= i2 < self.syncs@.len() && #[trigger] predicted_at(
                    self.syncs@[i2].model(),
                    f,
                ) is Some implies f <= self.current_frame by {
                if i2 == handle.id as int {
                    assert(predicted_at(m0, f) is Some);
                } else {
                    assert(self.syncs@[i2] == old(self).syncs@[i2]);
                }
            }
        }
        r
    }

    /// Process one received network message carrying a remote player's
    /// input for one frame: a duplicate or stale frame changes nothing
    /// (delivery is idempotent); a newly confirmed frame that contradicts
    /// a served prediction schedules a rollback to the lowest such frame.
    pub fn handle_message(&mut self, sender: PlayerHandle, frame: usize, input: InputFrame) -> (r:
        MessageOutcome)
        requires
            old(self).wf(),
            old(self).spec_state() is Running,
            sender.id < old(self).players().len(),
            frame < usize::MAX,
        ensures
            final(self).wf(),
            final(self).sync_models() == old(self).sync_models().update(
                sender.id as int,
                spec_receive(old(self).sync_models()[sender.id as int], frame as int, input).0,
            ),
            r == spec_receive(old(self).sync_models()[sender.id as int], frame as int, input).1,
            r == MessageOutcome::Mispredicted ==> final(self).spec_pending_rollback() == (match old(
                self,
            ).spec_pending_rollback() {
                Some(p) => if p <= frame {
                    Some(p)
                } else {
                    Some(frame)
                },
                None => Some(frame),
            }),
            r != MessageOutcome::Mispredicted ==> final(self).spec_pending_rollback() == old(
                self,
            ).spec_pending_rollback(),
            final(self).spec_state() == old(self).spec_state(),
            final(self).players() == old(self).players(),
            final(self).spec_config() == old(self).spec_config(),
            final(self).snapshots() == old(self).snapshots(),
            final(self).spec_frame() == old(self).spec_frame(),
    {
        let ghost m0 = self.syncs@[sender.id as int].model();
        let r = self.syncs[sender.id].receive(frame, input);
        proof {
            assert(self.sync_models() =~= old(self).sync_models().update(
                sender.id as int,
                spec_receive(m0, frame as int, input).0,
            ));
            lemma_receive_predictions(m0, frame as int, input);
            assert forall|i2: int, f: int|
                0 <= i2 < self.syncs@.len() && #[trigger] predicted_at(
                    self.syncs@[i2].model(),
                    f,
                ) is Some implies f <= self.current_frame by {
                if i2 == sender.id as int {
                    assert(predicted_at(m0, f) is Some);
                } else {
                    assert(self.syncs@[i2] == old(self).syncs@[i2]);
                }
            }
            if r == MessageOutcome::Mispredicted {
                assert(predicted_at(m0, frame as int) is Some);
            }
        }
        if matches!(r, MessageOutcome::Mispredicted) {
            self.pending_rollback = match self.pending_rollback {
                Some(p) => if p <= frame {
                    Some(p)
                } else {
                    Some(frame)
                },
                None => Some(frame),
            };
        }
        r
    }

    /// Process one received datagram payload: a well-formed payload is
    /// handled as `handle_message`; a malformed or undersized one is
    /// dropped with its decode error and changes nothing.
    pub fn handle_packet(&mut self, sender: PlayerHandle, frame: usize, payload: &[u8]) -> (r:
        Result<MessageOutcome, DecodeError>)
        requires
            old(self).wf(),
            old(self).spec_state() is Running,
            sender.id < old(self).players().len(),
            frame < usize::MAX,
        ensures
            final(self).wf(),
            match crate::input::spec_decode(payload@) {
                Some(input) => r == Ok::<MessageOutcome, DecodeError>(
                    spec_receive(old(self).sync_models()[sender.id as int], frame as int, input).1,
                ) && final(self).sync_models() == old(self).sync_models().update(
                    sender.id as int,
                    spec_receive(old(self).sync_models()[sender.id as int], frame as int, input).0,
                ),
                None => r is Err && *final(self) == *old(self),
            },
            final(self).spec_state() == old(self).spec_state(),
            final(self).players() == old(self).players(),
            final(self).spec_config() == old(self).spec_config(),
            final(self).snapshots() == old(self).snapshots(),
            final(self).spec_frame() == old(self).spec_frame(),
    {
        match InputFrame::decode(payload) {
            Ok(input) => Ok(self.handle_message(sender, frame, input)),
            Err(e) => Err(e),
        }
    }

    /// Resolve the input set for a frame: for every player in add-order,
    /// the confirmed input when available, else the last confirmed input
    /// as a recorded prediction.
    #[verifier::loop_isolation(false)]
    pub fn resolve_frame_inputs(&mut self, frame: usize) -> (r: Vec<InputFrame>)
        requires
            old(self).wf(),
            old(self).spec_state() is Running,
            frame <= old(self).spec_frame(),
            frame >= old(self).spec_trim_point(),
            frame < usize::MAX,
        ensures
            final(self).wf(),
            r@.len() == old(self).players().len(),
            forall|j: int|
                0 <= j < r@.len() ==> r@[j] == resolved_input(
                    old(self).sync_models()[j],
                    frame as int,
                ),
            final(self).sync_models().len() == old(self).sync_models().len(),
            forall|j: int|
                0 <= j < r@.len() ==> served_model(
                    old(self).sync_models()[j],
                    final(self).sync_models()[j],
                    frame as int,
                ),
            final(self).spec_state() == old(self).spec_state(),
            final(self).players() == old(self).players(),
            final(self).spec_config() == old(self).spec_config(),
            final(self).snapshots() == old(self).snapshots(),
            final(self).spec_frame() == old(self).spec_frame(),
            final(self).spec_pending_rollback() == old(self).spec_pending_rollback(),
    {
        let mut out: Vec<InputFrame> = Vec::new();
        let n = self.syncs.len();
        let mut i: usize = 0;
        while i < n
            invariant
                i <= n,
                out@.len() == i,
                self.syncs@.len() == n,
                self.registry == old(self).registry,
                self.state == old(self).state,
                self.config == old(self).config,
                self.store == old(self).store,
                self.current_frame == old(self).current_frame,
                self.pending_rollback == old(self).pending_rollback,
                forall|j: int|
                    0 <= j < i ==> out@[j] == resolved_input(
                        old(self).syncs@[j].model(),
                        frame as int,
                    ),
                forall|j: int| 0 <= j < i ==> (#[trigger] self.syncs@[j]).wf(),
                forall|j: int|
                    0 <= j < i ==> served_model(
                        old(self).syncs@[j].model(),
                        #[trigger] self.syncs@[j].model(),
                        frame as int,
                    ),
                forall|j: int| i <= j < n ==> self.syncs@[j] == old(self).syncs@[j],
            decreases n - i,
        {
            let (v, _was_predicted) = self.syncs[i].get_input(frame);
            out.push(v);
            i = i + 1;
        }
        proof {
            assert forall|i2: int, f: int|
                0 <= i2 < self.syncs@.len() && #[trigger] predicted_at(
                    self.syncs@[i2].model(),
                    f,
                ) is Some implies f <= self.current_frame by {
                assert(served_model(
                    old(self).syncs@[i2].model(),
                    self.syncs@[i2].model(),
                    frame as int,
                ));
                if f != frame {
                    assert(predicted_at(old(self).syncs@[i2].model(), f) is Some);
                }
            }
            assert forall|j: int| 0 <= j < n as int implies served_model(
                old(self).sync_models()[j],
                self.sync_models()[j],
                frame as int,
            ) by {
                assert(served_model(
                    old(self).syncs@[j].model(),
                    self.syncs@[j].model(),
                    frame as int,
                ));
            }
            assert forall|j: int| 0 <= j < n as int implies out@[j] == resolved_input(
                old(self).sync_models()[j],
                frame as int,
            ) by {
                assert(out@[j] == resolved_input(old(self).syncs@[j].model(), frame as int));
            }
        }
        out
    }

    /// The oldest frame the session can still need input for; frames
    /// below it may be discarded from the synchronizers' buffers.
    pub fn trim_point(&self) -> (r: usize)
        requires
            self.wf(),
        ensures
            r == self.spec_trim_point(),
    {
        if self.current_frame >= self.config.rollback_window {
            self.current_frame - self.config.rollback_window + 1
        } else {
            0
        }
    }

    /// Bound the synchronizers' buffers: discard every buffered frame
    /// older than the rollback horizon, which no rollback can reach any
    /// more.  Call it once per tick, when no rollback is owed.
    #[verifier::loop_isolation(false)]
    pub fn trim_history(&mut self)
        requires
            old(self).wf(),
            old(self).spec_pending_rollback() is None,
        ensures
            final(self).wf(),
            final(self).sync_models().len() == old(self).sync_models().len(),
            forall|j: int|
                0 <= j < old(self).players().len() ==> final(self).sync_models()[j]
                    == spec_discard(
                    old(self).sync_models()[j],
                    old(self).spec_trim_point() as int,
                ),
            final(self).spec_state() == old(self).spec_state(),
            final(self).players() == old(self).players(),
            final(self).spec_config() == old(self).spec_config(),
            final(self).snapshots() == old(self).snapshots(),
            final(self).spec_frame() == old(self).spec_frame(),
            final(self).spec_pending_rollback() is None,
    {
        let horizon = self.trim_point();
        let n = self.syncs.len();
        let mut i: usize = 0;
        while i < n
            invariant
                i <= n,
                self.syncs@.len() == n,
                self.registry == old(self).registry,
                self.state == old(self).state,
                self.config == old(self).config,
                self.store == old(self).store,
                self.current_frame == old(self).current_frame,
                self.pending_rollback == old(self).pending_rollback,
                forall|j: int|
                    0 <= j < i ==> #[trigger] self.syncs@[j].model() == spec_discard(
                        old(self).syncs@[j].model(),
                        horizon as int,
                    ),
                forall|j: int| 0 <= j < i ==> (#[trigger] self.syncs@[j]).wf(),
                forall|j: int| i <= j < n ==> self.syncs@[j] == old(self).syncs@[j],
            decreases n - i,
        {
            self.syncs[i].discard_below(horizon);
            i = i + 1;
        }
        proof {
            assert forall|j: int| 0 <= j < n as int implies self.sync_models()[j] == spec_discard(
                old(self).sync_models()[j],
                old(self).spec_trim_point() as int,
            ) by {
                assert(self.sync_models()[j] == self.syncs@[j].model());
            }
            assert forall|i2: int, f: int|
                0 <= i2 < self.syncs@.len() && #[trigger] predicted_at(
                    self.syncs@[i2].model(),
                    f,
                ) is Some implies f <= self.current_frame by {
                let m0 = old(self).syncs@[i2].model();
                lemma_discard_entries(m0, horizon as int);
                if f >= horizon {
                    assert(predicted_at(m0, f) is Some);
                }
            }
        }
    }

    /// The first frame whose confirmed input outgoing messages still
    /// retransmit: the configured number of frames back from the current
    /// one, clamped at frame zero.
    pub open spec fn spec_resend_start(self) -> usize {
        if self.spec_config().resend_count > self.spec_frame() {
            0
        } else {
            (self.spec_frame() + 1 - self.spec_config().resend_count) as usize
        }
    }

    /// The confirmed inputs of a player's most recent frames, for
    /// piggybacking on every outgoing message to tolerate packet loss:
    /// entry `j` is the confirmed input of frame `start + j`, up to and
    /// including the current frame.
    #[verifier::loop_isolation(false)]
    pub fn recent_confirmed(&self, handle: PlayerHandle) -> (r: (usize, Vec<Option<InputFrame>>))
        requires
            self.wf(),
            handle.id < self.players().len(),
            self.spec_frame() < usize::MAX,
        ensures
            r.0 == self.spec_resend_start(),
            r.1@.len() == self.spec_frame() + 1 - r.0,
            forall|j: int|
                0 <= j < r.1@.len() ==> r.1@[j] == confirmed_at(
                    self.sync_models()[handle.id as int],
                    r.0 + j,
                ),
    {
        let start: usize = if self.config.resend_count > self.current_frame {
            0
        } else {
            self.current_frame + 1 - self.config.resend_count
        };
        let mut out: Vec<Option<InputFrame>> = Vec::new();
        let mut f: usize = start;
        while f <= self.current_frame
            invariant
                start <= f <= self.current_frame + 1,
                out@.len() == f - start,
                forall|j: int|
                    0 <= j < out@.len() ==> out@[j] == confirmed_at(
                        self.sync_models()[handle.id as int],
                        start + j,
                    ),
            decreases self.current_frame + 1 - f,
        {
            let v = self.syncs[handle.id].confirmed_input(f);
            proof {
                assert(self.sync_models()[handle.id as int] == self.syncs@[handle.id as int].model());
            }
            out.push(v);
            f = f + 1;
        }
        (start, out)
    }

    /// Store the snapshot the host saved of the simulation state at a
    /// frame: the frame just simulated, or a resimulated frame whose
    /// snapshot is being recomputed.
    pub fn save_snapshot(&mut self, frame: usize, blob: Vec<u8>)
        requires
            old(self).wf(),
            old(self).snapshots().contains(frame) || (old(self).snapshots().blobs().len() == 0
                && frame < usize::MAX) || (old(self).snapshots().blobs().len() > 0 && frame
                < usize::MAX && frame == old(self).snapshots().first_frame() + old(
                self,
            ).snapshots().blobs().len()),
        ensures
            final(self).wf(),
            final(self).snapshots().wf(),
            final(self).snapshots().window() == old(self).snapshots().window(),
            final(self).snapshots().contains(frame),
            final(self).snapshots().blob_at(frame) == blob@,
            forall|f: usize|
                #[trigger] final(self).snapshots().contains(f) && f != frame ==> old(
                    self,
                ).snapshots().contains(f) && final(self).snapshots().blob_at(f) == old(
                    self,
                ).snapshots().blob_at(f),
            forall|f: usize|
                old(self).snapshots().contains(f) && f + final(self).snapshots().window() > frame
                    ==> #[trigger] final(self).snapshots().contains(f),
            final(self).spec_state() == old(self).spec_state(),
            final(self).players() == old(self).players(),
            final(self).sync_models() == old(self).sync_models(),
            final(self).spec_config() == old(self).spec_config(),
            final(self).spec_frame() == old(self).spec_frame(),
            final(self).spec_pending_rollback() == old(self).spec_pending_rollback(),
    {
        self.store.save(frame, blob);
        proof {
            assert(self.sync_models() =~= old(self).sync_models());
        }
    }

    /// Load the retained snapshot of a frame; an evicted or never-saved
    /// frame fails with `SnapshotUnavailable`, never yielding stale data.
    pub fn load_snapshot(&self, frame: usize) -> (r: Result<Vec<u8>, SessionError>)
        requires
            self.wf(),
        ensures
            self.snapshots().contains(frame) ==> r is Ok && r->Ok_0@ == self.snapshots().blob_at(
                frame,
            ),
            !self.snapshots().contains(frame) ==> r == Err::<Vec<u8>, SessionError>(
                SessionError::SnapshotUnavailable,
            ),
    {
        self.store.load(frame)
    }

    /// Begin the rollback owed for the lowest mispredicted frame F: hand
    /// the host F and the snapshot of F−1, the last known-correct frame,
    /// to restore before resimulating F onwards.  When no snapshot that
    /// old is retained the rollback window is exceeded, which is fatal:
    /// the session stops.
    pub fn begin_rollback(&mut self) -> (r: Result<(usize, Vec<u8>), SessionError>)
        requires
            old(self).wf(),
            old(self).spec_pending_rollback() is Some,
        ensures
            final(self).wf(),
            final(self).spec_pending_rollback() is None,
            ({
                let f = old(self).spec_pending_rollback()->0;
                if f >= 1 && old(self).snapshots().contains((f - 1) as usize) {
                    r is Ok && r->Ok_0.0 == f && r->Ok_0.1@ == old(self).snapshots().blob_at(
                        (f - 1) as usize,
                    ) && final(self).spec_state() == SessionState::Running
                } else {
                    r == Err::<(usize, Vec<u8>), SessionError>(SessionError::RollbackWindowExceeded)
                        && final(self).spec_state() == SessionState::Stopped
                }
            }),
            final(self).players() == old(self).players(),
            final(self).sync_models() == old(self).sync_models(),
            final(self).spec_config() == old(self).spec_config(),
            final(self).snapshots() == old(self).snapshots(),
            final(self).spec_frame() == old(self).spec_frame(),
    {
        let f = match self.pending_rollback {
            Some(f) => f,
            None => 0,
        };
        self.pending_rollback = None;
        if f >= 1 {
            match self.store.load(f - 1) {
                Ok(blob) => {
                    return Ok((f, blob));
                },
                Err(_) => {},
            }
        }
        self.state = SessionState::Stopped;
        Err(SessionError::RollbackWindowExceeded)
    }

    /// End the tick: advance the frame counter, age every remote
    /// synchronizer's liveness clock by one tick, and stop the session
    /// when fewer connected players remain than the configured minimum.
    #[verifier::loop_isolation(false)]
    pub fn advance_frame(&mut self)
        requires
            old(self).wf(),
            old(self).spec_state() is Running,
            old(self).spec_pending_rollback() is None,
            old(self).spec_frame() < usize::MAX,
        ensures
            final(self).wf(),
            final(self).spec_frame() == old(self).spec_frame() + 1,
            final(self).sync_models().len() == old(self).sync_models().len(),
            forall|j: int|
                0 <= j < old(self).players().len() ==> final(self).sync_models()[j] == (if old(
                    self,
                ).players()[j] is Remote {
                    ticked(old(self).sync_models()[j])
                } else {
                    old(self).sync_models()[j]
                }),
            final(self).spec_state() == (if count_connected(
                old(self).players(),
                final(self).sync_models(),
                old(self).players().len() as int,
            ) >= old(self).spec_config().min_players {
                SessionState::Running
            } else {
                SessionState::Stopped
            }),
            final(self).players() == old(self).players(),
            final(self).spec_config() == old(self).spec_config(),
            final(self).snapshots() == old(self).snapshots(),
            final(self).spec_pending_rollback() is None,
    {
        let n = self.syncs.len();
        let mut i: usize = 0;
        let mut connected: usize = 0;
        while i < n
            invariant
                i <= n,
                connected <= i,
                self.syncs@.len() == n,
                self.registry == old(self).registry,
                self.state == old(self).state,
                self.config == old(self).config,
                self.store == old(self).store,
                self.current_frame == old(self).current_frame,
                self.pending_rollback == old(self).pending_rollback,
                forall|j: int|
                    0 <= j < i ==> #[trigger] self.syncs@[j].model() == (if old(
                        self,
                    ).players()[j] is Remote {
                        ticked(old(self).syncs@[j].model())
                    } else {
                        old(self).syncs@[j].model()
                    }),
                forall|j: int| 0 <= j < i ==> (#[trigger] self.syncs@[j]).wf(),
                forall|j: int| i <= j < n ==> self.syncs@[j] == old(self).syncs@[j],
                connected == count_connected(
                    old(self).players(),
                    self.syncs@.map(|k: int, s: InputSynchronizer| s.model()),
                    i as int,
                ),
            decreases n - i,
        {
            let kind = self.registry.kind_of(PlayerHandle { id: i });
            let ghost models_before = self.syncs@.map(|k: int, s: InputSynchronizer| s.model());
            let live = match kind {
                PlayerKind::Local => true,
                PlayerKind::Remote(_) => {
                    self.syncs[i].advance_tick();
                    matches!(self.syncs[i].status(), ConnectionStatus::Connected)
                },
            };
            proof {
                let models_now = self.syncs@.map(|k: int, s: InputSynchronizer| s.model());
                assert forall|k: int| 0 <= k < i as int implies models_now[k] == models_before[k] by {}
                lemma_count_connected_prefix_agree(
                    old(self).players(),
                    models_before,
                    models_now,
                    i as int,
                );
                assert(live == is_connected(old(self).players()[i as int], models_now[i as int]));
            }
            if live {
                connected = connected + 1;
            }
            i = i + 1;
        }
        self.current_frame = self.current_frame + 1;
        if connected < self.config.min_players {
            self.state = SessionState::Stopped;
        }
        proof {
            assert forall|j: int| 0 <= j < n as int implies self.sync_models()[j] == (if old(
                self,
            ).players()[j] is Remote {
                ticked(old(self).sync_models()[j])
            } else {
                old(self).sync_models()[j]
            }) by {
                assert(self.sync_models()[j] == self.syncs@[j].model());
            }
            assert forall|i2: int, f: int|
                0 <= i2 < self.syncs@.len() && #[trigger] predicted_at(
                    self.syncs@[i2].model(),
                    f,
                ) is Some implies f <= self.current_frame by {
                assert(predicted_at(old(self).syncs@[i2].model(), f) is Some);
            }
        }
    }
}

/// Build and start a canonical two-participant session: the player at
/// index `client` is local, the other is remote behind `endpoint`.  Both
/// processes add the two players in the same order, so their handle
/// numbering agrees.  On a session already past the build phase it fails
/// with `SessionAlreadyStarted` and alters nothing.
pub fn spawn_players(session: &mut Session, client: usize, endpoint: usize) -> (r: Result<
    (PlayerHandle, PlayerHandle),
    SessionError,
>)
    requires
        old(session).wf(),
    ensures
        final(session).wf(),
        old(session).spec_state() is Building ==> {
            let kind0 = if client == 0 {
                PlayerKind::Local
            } else {
                PlayerKind::Remote(endpoint)
            };
            let kind1 = if client == 1 {
                PlayerKind::Local
            } else {
                PlayerKind::Remote(endpoint)
            };
            &&& r is Ok
            &&& r->Ok_0.0 == (PlayerHandle { id: old(session).players().len() as usize })
            &&& r->Ok_0.1 == (PlayerHandle { id: (old(session).players().len() + 1) as usize })
            &&& final(session).players() == old(session).players().push(kind0).push(kind1)
            &&& final(session).spec_state() == SessionState::Running
        },
        !(old(session).spec_state() is Building) ==> r == Err::<
            (PlayerHandle, PlayerHandle),
            SessionError,
        >(SessionError::SessionAlreadyStarted) && *final(session) == *old(session),
{
    let kind0 = if client == 0 {
        PlayerKind::Local
    } else {
        PlayerKind::Remote(endpoint)
    };
    let kind1 = if client == 1 {
        PlayerKind::Local
    } else {
        PlayerKind::Remote(endpoint)
    };
    let h0 = match session.add_player(kind0) {
        Ok(h) => h,
        Err(e) => {
            return Err(e);
        },
    };
    let h1 = match session.add_player(kind1) {
        Ok(h) => h,
        Err(e) => {
            return Err(e);
        },
    };
    match session.start() {
        Ok(()) => Ok((h0, h1)),
        Err(e) => Err(e),
    }
}

/// Two model sequences that agree below `n` count the same connected
/// players among the first `n`.
pub proof fn lemma_count_connected_prefix_agree(
    kinds: Seq<PlayerKind>,
    a: Seq<SyncModel>,
    b: Seq<SyncModel>,
    n: int,
)
    requires
        forall|k: int| 0 <= k < n ==> a[k] == b[k],
    ensures
        count_connected(kinds, a, n) == count_connected(kinds, b, n),
    decreases n,
{
    if n > 0 {
        lemma_count_connected_prefix_agree(kinds, a, b, n - 1);
    }
}

/// The simulation state reached by folding the host's deterministic step
/// callback over per-frame input sets, starting from an initial state
/// blob.
pub open spec fn replay(
    step: spec_fn(Seq<u8>, Seq<InputFrame>) -> Seq<u8>,
    init: Seq<u8>,
    inputs: Seq<Seq<InputFrame>>,
) -> Seq<u8>
    decreases inputs.len(),
{
    if inputs.len() == 0 {
        init
    } else {
        step(replay(step, init, inputs.drop_last()), inputs.last())
    }
}

/// Determinism and convergence: once every player's true input for every
/// frame below a horizon has been confirmed, the inputs the synchronizers
/// resolve are exactly the true inputs, so replaying the horizon with a
/// deterministic step callback reaches the same state as a hypothetical
/// zero-latency run that knew the true inputs from the start.
pub proof fn lemma_convergence(
    step: spec_fn(Seq<u8>, Seq<InputFrame>) -> Seq<u8>,
    init: Seq<u8>,
    models: Seq<SyncModel>,
    truth: Seq<Seq<InputFrame>>,
)
    requires
        forall|f: int| 0 <= f < truth.len() ==> (#[trigger] truth[f]).len() == models.len(),
        forall|f: int, p: int|
            0 <= f < truth.len() && 0 <= p < models.len() ==> #[trigger] confirmed_at(
                models[p],
                f,
            ) == Some(truth[f][p]),
    ensures
        Seq::new(
            truth.len(),
            |f: int| Seq::new(models.len(), |p: int| resolved_input(models[p], f)),
        ) == truth,
        replay(
            step,
            init,
            Seq::new(
                truth.len(),
                |f: int| Seq::new(models.len(), |p: int| resolved_input(models[p], f)),
            ),
        ) == replay(step, init, truth),
{
    let resolved = Seq::new(
        truth.len(),
        |f: int| Seq::new(models.len(), |p: int| resolved_input(models[p], f)),
    );
    assert forall|f: int| 0 <= f < truth.len() implies resolved[f] == truth[f] by {
        assert forall|p: int| 0 <= p < models.len() implies resolved[f][p] == truth[f][p] by {
            assert(confirmed_at(models[p], f) == Some(truth[f][p]));
        }
        assert(resolved[f] =~= truth[f]);
    }
    assert(resolved =~= truth);
}

} // verus!
