use globed_core::config::{ServerConfig, SpecialUser};
use globed_core::crypto::CryptoState;
use globed_core::directory::{PeerAddress, PlayerDirectory};
use globed_core::handlers::{dispatch, LoginPacket, Packet, PacketHandlingError, ResponsePacket};
use globed_core::session::{GameServerState, PlayerIconData, Session, SessionState};
use globed_core::token::issue_token;
use globed_core::PROTOCOL_VERSION;

fn test_server(standalone: bool) -> GameServerState {
    let mut config = ServerConfig::make_default();
    config.game_server_password = "server-password".to_string();
    config.token_expiry = 1800;
    GameServerState::new(config, standalone, [7u8; 32], [9u8; 32])
}

fn peer(port: u16) -> PeerAddress {
    PeerAddress { ip: 0x7f000001, port }
}

fn icons() -> PlayerIconData {
    PlayerIconData { cube: 1, color1: 2, color2: 3 }
}

fn handshake(session: &mut Session, server: &mut GameServerState) {
    let out = dispatch(
        session,
        server,
        Packet::CryptoHandshakeStart { protocol: PROTOCOL_VERSION, key: [1u8; 32] },
        0,
    );
    assert!(out.error.is_none());
    match &out.replies[0] {
        ResponsePacket::CryptoHandshakeResponse { key } => assert_eq!(*key, [9u8; 32]),
        other => panic!("expected a handshake response, got {other:?}"),
    }
    assert_eq!(session.state, SessionState::AwaitingLogin);
}

fn login_packet(account_id: i32, name: &str, token: String) -> Packet {
    Packet::Login(LoginPacket { account_id, token, name: name.to_string(), icons: icons() })
}

#[test]
fn handshake_with_newer_protocol_terminates_without_context() {
    let mut server = test_server(true);
    let mut session = Session::new(peer(1));
    let out = dispatch(
        &mut session,
        &mut server,
        Packet::CryptoHandshakeStart { protocol: PROTOCOL_VERSION + 1, key: [1u8; 32] },
        0,
    );
    assert_eq!(out.error, Some(PacketHandlingError::ProtocolVersionMismatch));
    assert_eq!(session.state, SessionState::Terminated);
    assert!(matches!(session.crypto, CryptoState::Uninitialized));
    match &out.replies[0] {
        ResponsePacket::ServerDisconnect { message } => {
            assert_eq!(
                message,
                "Outdated server! You are running protocol v3 while the server is still on v2."
            );
        }
        other => panic!("expected a disconnect, got {other:?}"),
    }
}

#[test]
fn handshake_with_older_protocol_blames_the_client() {
    let mut server = test_server(true);
    let mut session = Session::new(peer(1));
    let out = dispatch(
        &mut session,
        &mut server,
        Packet::CryptoHandshakeStart { protocol: PROTOCOL_VERSION - 1, key: [1u8; 32] },
        0,
    );
    assert_eq!(out.error, Some(PacketHandlingError::ProtocolVersionMismatch));
    match &out.replies[0] {
        ResponsePacket::ServerDisconnect { message } => {
            assert!(message.starts_with("Outdated client!"));
            assert!(message.ends_with("Client protocol version: v1, server: v2"));
        }
        other => panic!("expected a disconnect, got {other:?}"),
    }
}

#[test]
fn second_handshake_terminates_and_keeps_context() {
    let mut server = test_server(true);
    let mut session = Session::new(peer(1));
    handshake(&mut session, &mut server);
    let out = dispatch(
        &mut session,
        &mut server,
        Packet::CryptoHandshakeStart { protocol: PROTOCOL_VERSION, key: [2u8; 32] },
        0,
    );
    assert_eq!(out.error, Some(PacketHandlingError::CryptoAlreadyEstablished));
    assert_eq!(session.state, SessionState::Terminated);
    assert!(matches!(session.crypto, CryptoState::Established(_)));
    match &out.replies[0] {
        ResponsePacket::ServerDisconnect { message } => {
            assert_eq!(message, "attempting to perform a second handshake in one session");
        }
        other => panic!("expected a disconnect, got {other:?}"),
    }
}

#[test]
fn duplicate_login_rejected_and_counter_increments_once() {
    let mut server = test_server(false);
    let token = issue_token(10, "Dup", 100, "server-password");

    let mut first = Session::new(peer(1));
    handshake(&mut first, &mut server);
    let out = dispatch(&mut first, &mut server, login_packet(10, "Dup", token.clone()), 150);
    assert!(out.error.is_none());
    assert!(matches!(out.replies[0], ResponsePacket::LoggedIn { tps: 30 }));
    assert_eq!(server.player_count, 1);

    let mut second = Session::new(peer(2));
    handshake(&mut second, &mut server);
    let out = dispatch(&mut second, &mut server, login_packet(10, "Dup", token), 150);
    assert_eq!(out.error, Some(PacketHandlingError::DuplicateLogin));
    assert_eq!(second.state, SessionState::Terminated);
    assert_eq!(server.player_count, 1);
    assert!(server.directory.is_registered(10));
}

#[test]
fn maintenance_rejects_every_login_and_counts_nothing() {
    let mut server = test_server(false);
    server.config.maintenance = true;
    let token = issue_token(10, "Valid", 100, "server-password");
    let mut session = Session::new(peer(1));
    handshake(&mut session, &mut server);
    let out = dispatch(&mut session, &mut server, login_packet(10, "Valid", token), 150);
    assert_eq!(out.error, Some(PacketHandlingError::MaintenanceActive));
    assert_eq!(session.state, SessionState::Terminated);
    assert_eq!(server.player_count, 0);
    match &out.replies[0] {
        ResponsePacket::ServerDisconnect { message } => {
            assert_eq!(
                message,
                "The server is currently under maintenance, please try connecting again later."
            );
        }
        other => panic!("expected a disconnect, got {other:?}"),
    }
}

#[test]
fn standalone_login_trusts_the_claimed_name() {
    let mut server = test_server(true);
    let mut session = Session::new(peer(1));
    handshake(&mut session, &mut server);
    let out = dispatch(&mut session, &mut server, login_packet(5, "Foo", String::new()), 0);
    assert!(out.error.is_none());
    assert_eq!(session.state, SessionState::Authenticated);
    assert_eq!(session.account_id, 5);
    assert_eq!(session.account_data.name, "Foo");
    assert_eq!(session.account_data.icons, icons());
    assert!(session.account_data.special_user_data.is_none());
    assert_eq!(server.player_count, 1);
}

#[test]
fn expired_token_login_fails_with_prefixed_reason() {
    let mut server = test_server(false);
    let token = issue_token(10, "Late", 100, "server-password");
    let mut session = Session::new(peer(1));
    handshake(&mut session, &mut server);
    // expiry 1800s, but 10_000s have passed
    let out = dispatch(&mut session, &mut server, login_packet(10, "Late", token), 10_100);
    assert_eq!(
        out.error,
        Some(PacketHandlingError::AuthenticationFailed(
            globed_core::token::TokenError::Expired
        ))
    );
    assert_eq!(session.state, SessionState::Terminated);
    assert_eq!(server.player_count, 0);
    match &out.replies[0] {
        ResponsePacket::LoginFailed { message } => {
            assert_eq!(message, "authentication failed: expired token, please log in again");
        }
        other => panic!("expected a login failure, got {other:?}"),
    }
}

#[test]
fn special_user_record_attached_on_login() {
    let mut server = test_server(false);
    server.config.special_users.insert(
        10,
        SpecialUser { name: "Mod".to_string(), color: "#ff0000".to_string() },
    );
    let token = issue_token(10, "Modded", 100, "server-password");
    let mut session = Session::new(peer(1));
    handshake(&mut session, &mut server);
    let out = dispatch(&mut session, &mut server, login_packet(10, "Modded", token), 150);
    assert!(out.error.is_none());
    let su = session.account_data.special_user_data.as_ref().unwrap();
    assert_eq!(su.name, "Mod");
    assert_eq!(su.color, "#ff0000");
}

#[test]
fn gated_packets_ignored_before_authentication() {
    let mut server = test_server(true);
    let mut session = Session::new(peer(1));
    // keepalive while awaiting the handshake
    let out = dispatch(&mut session, &mut server, Packet::Keepalive, 0);
    assert_eq!(out.error, Some(PacketHandlingError::NotAuthenticated));
    assert!(out.replies.is_empty());
    assert_eq!(session.state, SessionState::AwaitingHandshake);
    // keepalive while awaiting login
    handshake(&mut session, &mut server);
    let out = dispatch(&mut session, &mut server, Packet::Keepalive, 0);
    assert_eq!(out.error, Some(PacketHandlingError::NotAuthenticated));
    assert_eq!(session.state, SessionState::AwaitingLogin);
}

#[test]
fn login_before_handshake_is_refused() {
    let mut server = test_server(true);
    let mut session = Session::new(peer(1));
    let out = dispatch(&mut session, &mut server, login_packet(5, "Foo", String::new()), 0);
    assert_eq!(out.error, Some(PacketHandlingError::NotAuthenticated));
    assert_eq!(session.state, SessionState::AwaitingHandshake);
    assert_eq!(server.player_count, 0);
}

#[test]
fn ping_works_before_authentication() {
    let mut server = test_server(true);
    let mut session = Session::new(peer(1));
    let out = dispatch(&mut session, &mut server, Packet::Ping { id: 77 }, 0);
    assert!(out.error.is_none());
    assert!(matches!(
        out.replies[0],
        ResponsePacket::PingResponse { id: 77, player_count: 0 }
    ));
}

#[test]
fn keepalive_reports_player_count_when_authenticated() {
    let mut server = test_server(true);
    let mut session = Session::new(peer(1));
    handshake(&mut session, &mut server);
    dispatch(&mut session, &mut server, login_packet(5, "Foo", String::new()), 0);
    let out = dispatch(&mut session, &mut server, Packet::Keepalive, 0);
    assert!(out.error.is_none());
    assert!(matches!(
        out.replies[0],
        ResponsePacket::KeepaliveResponse { player_count: 1 }
    ));
}

#[test]
fn disconnect_cleans_up_and_termination_is_idempotent() {
    let mut server = test_server(true);
    let mut session = Session::new(peer(1));
    handshake(&mut session, &mut server);
    dispatch(&mut session, &mut server, login_packet(5, "Foo", String::new()), 0);
    assert_eq!(server.player_count, 1);

    let out = dispatch(&mut session, &mut server, Packet::Disconnect, 0);
    assert!(out.error.is_none());
    assert_eq!(session.state, SessionState::Terminated);
    assert_eq!(server.player_count, 0);
    assert!(!server.directory.is_registered(5));

    // a terminated session processes nothing further
    let out = dispatch(&mut session, &mut server, Packet::Disconnect, 0);
    assert_eq!(out.error, Some(PacketHandlingError::SessionTerminated));
    assert_eq!(session.state, SessionState::Terminated);
    assert_eq!(server.player_count, 0);

    // and a freed account id may log in again
    let mut again = Session::new(peer(3));
    handshake(&mut again, &mut server);
    let out = dispatch(&mut again, &mut server, login_packet(5, "Foo", String::new()), 0);
    assert!(out.error.is_none());
    assert_eq!(server.player_count, 1);
}

#[test]
fn directory_remove_is_idempotent() {
    let mut d = PlayerDirectory::new();
    assert!(d.register(4, peer(1)));
    assert!(!d.register(4, peer(2)));
    assert_eq!(d.len(), 1);
    d.remove(4);
    assert_eq!(d.len(), 0);
    d.remove(4);
    assert_eq!(d.len(), 0);
    assert!(!d.is_registered(4));
}

#[test]
fn nonpositive_account_id_is_malformed() {
    let mut server = test_server(true);
    let mut session = Session::new(peer(1));
    handshake(&mut session, &mut server);
    let out = dispatch(&mut session, &mut server, login_packet(0, "Foo", String::new()), 0);
    assert_eq!(out.error, Some(PacketHandlingError::MalformedPacket));
    assert_eq!(session.state, SessionState::Terminated);
    assert_eq!(server.player_count, 0);
}

#[test]
fn ping_still_answers_during_maintenance() {
    let mut server = test_server(true);
    server.config.maintenance = true;
    let mut session = Session::new(peer(1));
    let out = dispatch(&mut session, &mut server, Packet::Ping { id: 3 }, 0);
    assert!(out.error.is_none());
    assert!(matches!(
        out.replies[0],
        ResponsePacket::PingResponse { id: 3, player_count: 0 }
    ));
}

#[test]
fn login_joins_the_global_room_and_disconnect_leaves_it() {
    let mut server = test_server(true);
    let mut session = Session::new(peer(1));
    handshake(&mut session, &mut server);
    assert!(!server.room_manager.is_member_of_room(0, 5));
    dispatch(&mut session, &mut server, login_packet(5, "Foo", String::new()), 0);
    assert!(server.room_manager.is_member_of_room(0, 5));
    dispatch(&mut session, &mut server, Packet::Disconnect, 0);
    assert!(!server.room_manager.is_member_of_room(0, 5));
}

#[test]
fn named_rooms_track_membership_independently() {
    let mut server = test_server(true);
    server.room_manager.create_player_in_room(12, 5);
    server.room_manager.create_player_in_room(12, 6);
    server.room_manager.create_player_in_room(13, 5);
    assert!(server.room_manager.is_member_of_room(12, 5));
    assert!(server.room_manager.is_member_of_room(12, 6));
    assert!(server.room_manager.is_member_of_room(13, 5));
    assert!(!server.room_manager.is_member_of_room(13, 6));
    server.room_manager.remove_player(5);
    assert!(!server.room_manager.is_member_of_room(12, 5));
    assert!(!server.room_manager.is_member_of_room(13, 5));
    assert!(server.room_manager.is_member_of_room(12, 6));
}
