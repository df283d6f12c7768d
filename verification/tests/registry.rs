use rollback::player::{
    config_for_player, PlayerHandle, PlayerKind, PlayerRegistry, SessionError,
    StartupNetworkConfig, FIRST_PLAYER_PORT, SECOND_PLAYER_PORT,
};

#[test]
fn handles_are_assigned_in_add_order() {
    let mut reg = PlayerRegistry::new();
    let h0 = reg.add_player(PlayerKind::Local).unwrap();
    let h1 = reg.add_player(PlayerKind::Remote(7)).unwrap();
    assert_eq!(h0, PlayerHandle { id: 0 });
    assert_eq!(h1, PlayerHandle { id: 1 });
    assert_eq!(reg.len(), 2);
    assert_eq!(reg.kind_of(h0), PlayerKind::Local);
    assert_eq!(reg.kind_of(h1), PlayerKind::Remote(7));
}

#[test]
fn add_after_start_fails_and_leaves_registry_unchanged() {
    let mut reg = PlayerRegistry::new();
    reg.add_player(PlayerKind::Local).unwrap();
    reg.add_player(PlayerKind::Remote(0)).unwrap();
    reg.start().unwrap();
    let r = reg.add_player(PlayerKind::Local);
    assert_eq!(r, Err(SessionError::SessionAlreadyStarted));
    assert_eq!(reg.len(), 2);
    assert_eq!(reg.kind_of(PlayerHandle { id: 0 }), PlayerKind::Local);
    assert_eq!(reg.kind_of(PlayerHandle { id: 1 }), PlayerKind::Remote(0));
}

#[test]
fn second_start_fails() {
    let mut reg = PlayerRegistry::new();
    reg.add_player(PlayerKind::Local).unwrap();
    reg.start().unwrap();
    assert_eq!(reg.start(), Err(SessionError::SessionAlreadyStarted));
}

#[test]
fn network_config_swaps_ports_by_participant() {
    let c0 = config_for_player(0);
    assert_eq!(
        c0,
        StartupNetworkConfig { client: 0, bind_port: FIRST_PLAYER_PORT, remote_port: SECOND_PLAYER_PORT }
    );
    let c1 = config_for_player(1);
    assert_eq!(c1.client, 1);
    assert_eq!(c1.bind_port, 4002);
    assert_eq!(c1.remote_port, 4001);
}
