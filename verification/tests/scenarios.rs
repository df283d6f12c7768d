use rollback::input::{DecodeError, InputFrame};
use rollback::player::{PlayerKind, SessionError};
use rollback::player::PlayerHandle;
use rollback::session::{spawn_players, Session, SessionConfig, SessionState};
use rollback::sync::ConnectionStatus;
use rollback::wire::{decode_message, encode_message};

fn frame_from_bits(bits: u8) -> InputFrame {
    InputFrame::new(bits & 1 != 0, bits & 2 != 0, bits & 4 != 0, bits & 8 != 0)
}

fn config() -> SessionConfig {
    SessionConfig { rollback_window: 8, resend_count: 4, disconnect_timeout: 5, min_players: 2 }
}

/// A deterministic stand-in for the host simulation: the state is an
/// 8-byte blob mixed from every applied input in order.
fn step_state(state: &mut Vec<u8>, inputs: &[InputFrame]) {
    let mut bytes = [0u8; 8];
    bytes.copy_from_slice(&state[..8]);
    let mut h = u64::from_le_bytes(bytes);
    for inp in inputs {
        h = h
            .wrapping_mul(6364136223846793005)
            .wrapping_add(inp.bits() as u64 + 1);
    }
    *state = h.to_le_bytes().to_vec();
}

fn initial_state() -> Vec<u8> {
    vec![0u8; 8]
}

/// The zero-latency reference: fold the step function over the true
/// inputs of every frame, in frame order.
fn reference_state(truth: &[Vec<InputFrame>]) -> Vec<u8> {
    let mut state = initial_state();
    for inputs in truth {
        step_state(&mut state, inputs);
    }
    state
}

fn input_stream(frame: usize) -> InputFrame {
    frame_from_bits((frame % 16) as u8)
}

/// Scenario: two players, no packet loss, identical input streams of 100
/// frames; the final states on both sides are bit-identical and equal to
/// the zero-latency reference.
#[test]
fn two_players_without_loss_reach_identical_states() {
    let mut s0 = Session::new(config());
    let mut s1 = Session::new(config());
    let (h0, h1) = spawn_players(&mut s0, 0, 1).unwrap();
    spawn_players(&mut s1, 1, 0).unwrap();
    let mut state0 = initial_state();
    let mut state1 = initial_state();
    let mut truth: Vec<Vec<InputFrame>> = Vec::new();
    for f in 0..100usize {
        let i0 = input_stream(f);
        let i1 = input_stream(f);
        truth.push(vec![i0, i1]);
        s0.add_local_input(h0, i0);
        s1.add_local_input(h1, i1);
        // No loss, no delay: each side's input reaches the peer at once.
        s0.handle_message(h1, f, i1);
        s1.handle_message(h0, f, i0);
        let r0 = s0.resolve_frame_inputs(f);
        let r1 = s1.resolve_frame_inputs(f);
        step_state(&mut state0, &r0);
        step_state(&mut state1, &r1);
        s0.save_snapshot(f, state0.clone());
        s1.save_snapshot(f, state1.clone());
        assert_eq!(s0.rollback_needed(), None);
        assert_eq!(s1.rollback_needed(), None);
        s0.advance_frame();
        s1.advance_frame();
        s0.trim_history();
        s1.trim_history();
        assert_eq!(s0.state(), SessionState::Running);
        assert_eq!(s1.state(), SessionState::Running);
    }
    assert_eq!(state0, state1);
    assert_eq!(state0, reference_state(&truth));
}

/// Scenario: the remote's input for frame 50 is delayed until frame 53
/// and differs from the prediction used at frames 50 to 52.  The session
/// rolls back to frame 49 and resimulates with the corrected input; the
/// state at frame 53 matches the zero-latency reference.
#[test]
fn delayed_differing_input_triggers_rollback_and_reconverges() {
    let mut session = Session::new(config());
    let (local, remote) = spawn_players(&mut session, 0, 1).unwrap();
    // The remote holds one input, then switches at frame 50: the switch
    // contradicts the prediction (repeat of the last confirmed input).
    let remote_truth = |f: usize| {
        if f < 50 {
            frame_from_bits(2)
        } else {
            frame_from_bits(8)
        }
    };
    let local_truth = |f: usize| input_stream(f);
    let mut state = initial_state();
    let mut truth: Vec<Vec<InputFrame>> = Vec::new();
    for f in 0..=53usize {
        truth.push(vec![local_truth(f), remote_truth(f)]);
        session.add_local_input(local, local_truth(f));
        if f < 50 {
            session.handle_message(remote, f, remote_truth(f));
        } else if f == 53 {
            // The delayed inputs for frames 50 to 53 all arrive now.
            for g in 50..=53usize {
                session.handle_message(remote, g, remote_truth(g));
            }
        }
        let resolved = session.resolve_frame_inputs(f);
        if (50..53).contains(&f) {
            // Prediction repeats the last confirmed remote input.
            assert_eq!(resolved[1], frame_from_bits(2));
        }
        step_state(&mut state, &resolved);
        session.save_snapshot(f, state.clone());
        if session.rollback_needed().is_some() {
            assert_eq!(f, 53);
            assert_eq!(session.rollback_needed(), Some(50));
            let (first, blob) = session.begin_rollback().unwrap();
            assert_eq!(first, 50);
            state = blob;
            for g in first..=f {
                let corrected = session.resolve_frame_inputs(g);
                assert_eq!(corrected[0], local_truth(g));
                assert_eq!(corrected[1], remote_truth(g));
                step_state(&mut state, &corrected);
                session.save_snapshot(g, state.clone());
            }
        }
        session.advance_frame();
    }
    assert_eq!(state, reference_state(&truth));
}

/// Scenario: a remote stops sending for longer than the timeout; with
/// the minimum player count at two the session stops, with it at one the
/// session continues for the remaining player.
#[test]
fn silent_remote_stops_session_at_minimum_player_count() {
    let mut session = Session::new(config());
    let (local, remote) = spawn_players(&mut session, 0, 1).unwrap();
    session.handle_message(remote, 0, frame_from_bits(1));
    let mut stopped_at = None;
    for f in 0..20usize {
        if session.state() != SessionState::Running {
            stopped_at = Some(f);
            break;
        }
        session.add_local_input(local, input_stream(f));
        let resolved = session.resolve_frame_inputs(f);
        let mut state = initial_state();
        step_state(&mut state, &resolved);
        session.save_snapshot(f, state);
        session.advance_frame();
    }
    // The timeout is five ticks: the sixth silent tick disconnects the
    // remote and drops the session below the two-player minimum.
    assert_eq!(session.player_status(remote), ConnectionStatus::Disconnected);
    assert_eq!(session.player_status(local), ConnectionStatus::Connected);
    assert_eq!(session.state(), SessionState::Stopped);
    assert_eq!(stopped_at, Some(6));
}

#[test]
fn silent_remote_does_not_stop_session_below_minimum_of_one() {
    let mut session = Session::new(SessionConfig { min_players: 1, ..config() });
    let (local, _remote) = spawn_players(&mut session, 0, 1).unwrap();
    for f in 0..20usize {
        session.add_local_input(local, input_stream(f));
        let resolved = session.resolve_frame_inputs(f);
        let mut state = initial_state();
        step_state(&mut state, &resolved);
        session.save_snapshot(f, state);
        session.advance_frame();
    }
    assert_eq!(session.state(), SessionState::Running);
}

/// Scenario: adding a player after `start` fails with
/// `SessionAlreadyStarted` and does not alter the existing registry.
#[test]
fn adding_a_player_after_start_fails_without_altering_the_registry() {
    let mut session = Session::new(config());
    let (h0, h1) = spawn_players(&mut session, 0, 1).unwrap();
    let r = session.add_player(PlayerKind::Local);
    assert_eq!(r, Err(SessionError::SessionAlreadyStarted));
    assert_eq!(session.player_count(), 2);
    assert_eq!(session.player_kind(h0), PlayerKind::Local);
    assert_eq!(session.player_kind(h1), PlayerKind::Remote(1));
    assert_eq!(session.state(), SessionState::Running);
}

#[test]
fn spawning_on_a_started_session_fails() {
    let mut session = Session::new(config());
    spawn_players(&mut session, 0, 1).unwrap();
    assert_eq!(
        spawn_players(&mut session, 0, 1),
        Err(SessionError::SessionAlreadyStarted)
    );
    assert_eq!(session.player_count(), 2);
}

/// A rollback reaching further back than any retained snapshot is fatal.
#[test]
fn rollback_beyond_the_window_stops_the_session() {
    let mut session = Session::new(SessionConfig {
        rollback_window: 2,
        resend_count: 1,
        disconnect_timeout: 100,
        min_players: 1,
    });
    let (local, remote) = spawn_players(&mut session, 0, 1).unwrap();
    session.handle_message(remote, 0, frame_from_bits(4));
    let mut state = initial_state();
    for f in 0..10usize {
        session.add_local_input(local, input_stream(f));
        let resolved = session.resolve_frame_inputs(f);
        step_state(&mut state, &resolved);
        session.save_snapshot(f, state.clone());
        session.advance_frame();
    }
    // Frame 3 was served as a prediction; its true input contradicts it,
    // but only snapshots of frames 8 and 9 are still retained.
    let r = session.handle_message(remote, 3, frame_from_bits(8));
    assert_eq!(r, rollback::sync::MessageOutcome::Mispredicted);
    assert_eq!(session.rollback_needed(), Some(3));
    assert_eq!(session.begin_rollback(), Err(SessionError::RollbackWindowExceeded));
    assert_eq!(session.state(), SessionState::Stopped);
}

/// The snapshot of an evicted frame is unavailable through the session.
#[test]
fn loading_an_evicted_snapshot_fails() {
    let mut session = Session::new(SessionConfig { min_players: 1, ..config() });
    let (local, _remote) = spawn_players(&mut session, 0, 1).unwrap();
    let mut state = initial_state();
    for f in 0..12usize {
        session.add_local_input(local, input_stream(f));
        let resolved = session.resolve_frame_inputs(f);
        step_state(&mut state, &resolved);
        session.save_snapshot(f, state.clone());
        session.advance_frame();
    }
    // The window is eight frames: 0 to 3 have been evicted.
    assert_eq!(session.load_snapshot(0), Err(SessionError::SnapshotUnavailable));
    assert_eq!(session.load_snapshot(3), Err(SessionError::SnapshotUnavailable));
    assert!(session.load_snapshot(4).is_ok());
    assert!(session.load_snapshot(11).is_ok());
}

/// A malformed datagram payload is dropped without touching the session.
#[test]
fn malformed_payloads_are_dropped() {
    let mut session = Session::new(config());
    let (_local, remote) = spawn_players(&mut session, 0, 1).unwrap();
    assert_eq!(
        session.handle_packet(remote, 0, &[1, 0]),
        Err(DecodeError::WrongLength)
    );
    assert_eq!(
        session.handle_packet(remote, 0, &[16, 0, 0, 0]),
        Err(DecodeError::InvalidBits)
    );
    let ok = session.handle_packet(remote, 0, &frame_from_bits(6).encode());
    assert_eq!(ok, Ok(rollback::sync::MessageOutcome::Accepted));
    let resolved = session.resolve_frame_inputs(0);
    assert_eq!(resolved[1], frame_from_bits(6));
}

/// The piggyback window hands back the confirmed inputs of the most
/// recent frames, for retransmission on every outgoing message.
#[test]
fn recent_confirmed_covers_the_resend_window() {
    let mut session = Session::new(config());
    let (local, _remote) = spawn_players(&mut session, 0, 1).unwrap();
    let mut state = initial_state();
    for f in 0..6usize {
        session.add_local_input(local, input_stream(f));
        let resolved = session.resolve_frame_inputs(f);
        step_state(&mut state, &resolved);
        session.save_snapshot(f, state.clone());
        session.advance_frame();
    }
    // The current frame is 6 and the resend count 4: frames 3 to 6.
    let (start, window) = session.recent_confirmed(local);
    assert_eq!(start, 3);
    assert_eq!(window.len(), 4);
    for (j, entry) in window.iter().enumerate() {
        let f = start + j;
        if f < 6 {
            assert_eq!(*entry, Some(input_stream(f)));
        } else {
            // Frame 6 has not been sampled yet.
            assert_eq!(*entry, None);
        }
    }
}

/// Piggybacked retransmission: every second datagram from the remote is
/// lost, but each delivered one carries the last few confirmed frames,
/// so the receiver still confirms every frame after de-duplicating.
#[test]
fn piggybacked_retransmission_tolerates_packet_loss() {
    let mut s0 = Session::new(config());
    let mut s1 = Session::new(config());
    let (h0, h1) = spawn_players(&mut s0, 0, 1).unwrap();
    spawn_players(&mut s1, 1, 0).unwrap();
    let remote_input = frame_from_bits(6);
    let mut state0 = initial_state();
    let mut truth: Vec<Vec<InputFrame>> = Vec::new();
    for f in 0..40usize {
        let i0 = input_stream(f);
        truth.push(vec![i0, remote_input]);
        s0.add_local_input(h0, i0);
        s1.add_local_input(h1, remote_input);
        // The datagram from the remote is lost on odd frames; a delivered
        // one piggybacks the recent confirmed frames over the wire codec.
        if f % 2 == 0 {
            let (start, window) = s1.recent_confirmed(h1);
            let mut pairs: Vec<(u32, InputFrame)> = Vec::new();
            for (j, entry) in window.iter().enumerate() {
                if let Some(input) = entry {
                    pairs.push(((start + j) as u32, *input));
                }
            }
            let bytes = encode_message(h1.id as u16, &pairs);
            let (sender, decoded) = decode_message(&bytes).unwrap();
            assert_eq!(sender as usize, h1.id);
            for (frame, input) in decoded {
                s0.handle_message(PlayerHandle { id: sender as usize }, frame as usize, input);
            }
        }
        s1.handle_message(h0, f, i0);
        let r0 = s0.resolve_frame_inputs(f);
        let r1 = s1.resolve_frame_inputs(f);
        step_state(&mut state0, &r0);
        let mut state1 = initial_state();
        step_state(&mut state1, &r1);
        s0.save_snapshot(f, state0.clone());
        s1.save_snapshot(f, state1);
        // The remote input never changes, so predictions are never wrong.
        assert_eq!(s0.rollback_needed(), None);
        s0.advance_frame();
        s1.advance_frame();
    }
    // Despite the losses, the retransmission confirmed every recent frame
    // but the one whose only carrier was lost.
    let (start, window) = s0.recent_confirmed(h1);
    assert_eq!(start, 37);
    assert_eq!(window[0], Some(remote_input));
    assert_eq!(window[1], Some(remote_input));
    assert_eq!(window[2], None);
    assert_eq!(state0, reference_state(&truth));
}
