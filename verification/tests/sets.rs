use netsync::sets::{ClientState, EventSystem, NetworkSet, NetworkState};

fn state(client: ClientState, server: bool, in_world: bool) -> NetworkState {
    NetworkState { client, server, in_world }
}

#[test]
fn a_connected_client_sends_and_does_not_resend_locally() {
    let connected = state(ClientState::Connected, false, true);
    assert!(EventSystem::Sending.config().runs(&connected));
    assert!(!EventSystem::LocalResending.config().runs(&connected));
    assert!(!EventSystem::Receiving.config().runs(&connected));
}

#[test]
fn a_lone_player_resends_locally() {
    let alone = state(ClientState::NoConnection, false, true);
    assert!(!EventSystem::Sending.config().runs(&alone));
    assert!(EventSystem::LocalResending.config().runs(&alone));
    assert!(!EventSystem::Receiving.config().runs(&alone));
}

#[test]
fn a_host_resends_locally_and_receives() {
    let host = state(ClientState::NoConnection, true, true);
    assert!(!EventSystem::Sending.config().runs(&host));
    assert!(EventSystem::LocalResending.config().runs(&host));
    assert!(EventSystem::Receiving.config().runs(&host));
}

#[test]
fn local_resending_waits_for_a_world() {
    let menu = state(ClientState::NoConnection, true, false);
    assert!(!EventSystem::LocalResending.config().runs(&menu));
    assert!(EventSystem::Receiving.config().runs(&menu));
}

#[test]
fn a_connecting_client_neither_sends_nor_resends() {
    let connecting = state(ClientState::Connecting, false, true);
    assert!(!EventSystem::Sending.config().runs(&connecting));
    assert!(!EventSystem::LocalResending.config().runs(&connecting));
}

#[test]
fn client_and_server_in_one_process_send_and_receive() {
    let both = state(ClientState::Connected, true, false);
    assert!(EventSystem::Sending.config().runs(&both));
    assert!(EventSystem::Receiving.config().runs(&both));
    assert!(!EventSystem::LocalResending.config().runs(&both));
}

#[test]
fn sending_and_local_resending_never_run_together() {
    for client in [ClientState::NoConnection, ClientState::Connecting, ClientState::Connected] {
        for server in [false, true] {
            for in_world in [false, true] {
                let s = state(client, server, in_world);
                assert!(
                    !(EventSystem::Sending.config().runs(&s)
                        && EventSystem::LocalResending.config().runs(&s))
                );
            }
        }
    }
}

#[test]
fn sets_run_by_connection_state() {
    let s = state(ClientState::Connected, true, false);
    assert!(NetworkSet::ClientConnected.runs(&s));
    assert!(NetworkSet::Server.runs(&s));
    assert!(!NetworkSet::Authoritative.runs(&s));
}
