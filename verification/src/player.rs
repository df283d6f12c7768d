//! Player handles, player kinds and the registry built before a session
//! starts.

use vstd::prelude::*;

verus! {

/// Opaque identifier of a participant, unique within a session, assigned
/// in add-order and stable for the session's lifetime.
#[derive(Clone, Copy, PartialEq, Eq, Structural, Debug)]
pub struct PlayerHandle {
    pub id: usize,
}

/// What a registered participant is: sampled on this host, or reached
/// through a transport endpoint.
#[derive(Clone, Copy, PartialEq, Eq, Structural, Debug)]
pub enum PlayerKind {
    Local,
    /// A remote participant; the value identifies its transport endpoint.
    Remote(usize),
}

/// The tag a simulation entity carries to find its participant.
#[derive(Clone, Copy, PartialEq, Eq, Structural, Debug)]
pub struct Player {
    pub handle: PlayerHandle,
}

/// A logical violation of the session protocol, surfaced to the caller.
#[derive(Clone, Copy, PartialEq, Eq, Structural, Debug)]
pub enum SessionError {
    /// A player was added, or the session started, after `start`.
    SessionAlreadyStarted,
    /// No snapshot is retained for the requested frame.
    SnapshotUnavailable,
    /// A rollback would reach further back than any retained snapshot.
    RollbackWindowExceeded,
}

/// The port the first participant binds; the second connects to it.
pub const FIRST_PLAYER_PORT: u16 = 4001;

/// The port the second participant binds; the first connects to it.
pub const SECOND_PLAYER_PORT: u16 = 4002;

/// Which participant this process is and which UDP ports it uses, as
/// plain port numbers; the host turns them into socket addresses.
#[derive(Clone, Copy, PartialEq, Eq, Structural, Debug)]
pub struct StartupNetworkConfig {
    /// This participant's index: 0 or 1.
    pub client: usize,
    /// The local port to bind.
    pub bind_port: u16,
    /// The peer's port to connect to.
    pub remote_port: u16,
}

/// The network configuration of a two-participant session: participant 0
/// binds the first port and connects to the second, participant 1 the
/// other way round.
pub fn config_for_player(player_num: usize) -> (r: StartupNetworkConfig)
    ensures
        r.client == player_num,
        r.bind_port == (if player_num == 0 {
            FIRST_PLAYER_PORT
        } else {
            SECOND_PLAYER_PORT
        }),
        r.remote_port == (if player_num == 0 {
            SECOND_PLAYER_PORT
        } else {
            FIRST_PLAYER_PORT
        }),
{
    if player_num == 0 {
        StartupNetworkConfig {
            client: player_num,
            bind_port: FIRST_PLAYER_PORT,
            remote_port: SECOND_PLAYER_PORT,
        }
    } else {
        StartupNetworkConfig {
            client: player_num,
            bind_port: SECOND_PLAYER_PORT,
            remote_port: FIRST_PLAYER_PORT,
        }
    }
}

/// Maps player handles to player kinds.  Frozen once the session starts:
/// handle numbering must be agreed identically on every participant, which
/// is achieved by all participants adding players in the same canonical
/// order before starting.
pub struct PlayerRegistry {
    players: Vec<PlayerKind>,
    started: bool,
}

impl PlayerRegistry {
    /// The kinds of the registered players, in add-order; the handle with
    /// `id == i` denotes the player at index `i`.
    pub closed spec fn players(self) -> Seq<PlayerKind> {
        self.players@
    }

    /// Whether the build phase is over.
    pub closed spec fn is_started(self) -> bool {
        self.started
    }

    /// An empty registry in the build phase.
    pub fn new() -> (r: PlayerRegistry)
        ensures
            r.players() == Seq::<PlayerKind>::empty(),
            !r.is_started(),
    {
        PlayerRegistry { players: Vec::new(), started: false }
    }

    /// Register one more participant.  Succeeds exactly in the build
    /// phase, handing out the next handle in add-order; after `start` the
    /// registry is frozen and unchanged.
    pub fn add_player(&mut self, kind: PlayerKind) -> (r: Result<PlayerHandle, SessionError>)
        ensures
            old(self).is_started() ==> r == Err::<PlayerHandle, SessionError>(
                SessionError::SessionAlreadyStarted,
            ) && *final(self) == *old(self),
            !old(self).is_started() ==> r == Ok::<PlayerHandle, SessionError>(
                PlayerHandle { id: old(self).players().len() as usize },
            ) && final(self).players() == old(self).players().push(kind)
                && !final(self).is_started(),
    {
        if self.started {
            return Err(SessionError::SessionAlreadyStarted);
        }
        let id = self.players.len();
        self.players.push(kind);
        Ok(PlayerHandle { id })
    }

    /// End the build phase.  Succeeds once; afterwards the registry is
    /// frozen and a second `start` is rejected without altering it.
    pub fn start(&mut self) -> (r: Result<(), SessionError>)
        ensures
            old(self).is_started() ==> r == Err::<(), SessionError>(
                SessionError::SessionAlreadyStarted,
            ) && *final(self) == *old(self),
            !old(self).is_started() ==> r == Ok::<(), SessionError>(())
                && final(self).is_started()
                && final(self).players() == old(self).players(),
    {
        if self.started {
            return Err(SessionError::SessionAlreadyStarted);
        }
        self.started = true;
        Ok(())
    }

    /// How many players are registered.
    pub fn len(&self) -> (r: usize)
        ensures
            r == self.players().len(),
    {
        self.players.len()
    }

    /// The kind registered under a handle.
    pub fn kind_of(&self, handle: PlayerHandle) -> (r: PlayerKind)
        requires
            handle.id < self.players().len(),
        ensures
            r == self.players()[handle.id as int],
    {
        self.players[handle.id]
    }
}

} // verus!
