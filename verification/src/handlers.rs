//! Packet dispatch: routes a decoded packet to the handler for the session's
//! current state, enforcing the ordering rules uniformly — handshake before
//! anything else, exact protocol-version match, authentication gating, and
//! idempotent termination with directory/room cleanup on every path.

use vstd::prelude::*;
use crate::PROTOCOL_VERSION;
use crate::config::SpecialUser;
use crate::crypto::derive_cipher;
use crate::directory::{remove_effect, DirectoryEntry, GLOBAL_ROOM_ID};
use crate::session::{coupled, GameServerState, PlayerIconData, Session, SessionState};
use crate::text::{concat_strs, decimal_seq, render_decimal};
use crate::token::{spec_error_message, spec_validate, validate, TokenError};

verus! {

broadcast use vstd::std_specs::hash::group_hash_axioms;

/// A decoded inbound packet.
pub enum Packet {
    Ping { id: u32 },
    CryptoHandshakeStart { protocol: u16, key: [u8; 32] },
    Login(LoginPacket),
    Keepalive,
    Disconnect,
}

/// The login request: claimed account, credential, client-asserted name and
/// cosmetic icons.
pub struct LoginPacket {
    pub account_id: i32,
    pub token: String,
    pub name: String,
    pub icons: PlayerIconData,
}

/// An outbound reply, handed back to the transport for encoding.
#[derive(Debug)]
pub enum ResponsePacket {
    PingResponse { id: u32, player_count: usize },
    CryptoHandshakeResponse { key: [u8; 32] },
    KeepaliveResponse { player_count: usize },
    LoginFailed { message: String },
    LoggedIn { tps: u32 },
    ServerDisconnect { message: String },
}

/// Why a packet was refused. Every error terminates at most the offending
/// session, never another session or process-wide state.
#[derive(Clone, Copy, PartialEq, Eq, Structural, Debug)]
pub enum PacketHandlingError {
    ProtocolVersionMismatch,
    /// A second handshake was attempted on a session that already has a
    /// crypto context.
    CryptoAlreadyEstablished,
    MalformedPacket,
    AuthenticationFailed(TokenError),
    DuplicateLogin,
    MaintenanceActive,
    /// An authentication-gated packet arrived before the session was
    /// authenticated, or a packet arrived out of protocol order.
    NotAuthenticated,
    SessionTerminated,
}

/// What one dispatch step produced: the replies to send (the client always
/// receives either a success response or a disconnect/failure packet after a
/// completed handshake) and the error that terminated processing, if any.
pub struct DispatchOutcome {
    pub replies: Vec<ResponsePacket>,
    pub error: Option<PacketHandlingError>,
}

/// Everything of the session except its protocol position is untouched.
pub open spec fn session_untouched_but_state(old_s: &Session, s: &Session) -> bool {
    &&& s.peer == old_s.peer
    &&& s.crypto == old_s.crypto
    &&& s.account_id == old_s.account_id
    &&& s.account_data == old_s.account_data
}

/// The shared-state effect of terminating a session that owned `a`: its
/// directory entry is gone, it left every room, the counter dropped by one,
/// and nothing else moved.
pub open spec fn termination_cleanup(pre: &GameServerState, post: &GameServerState, a: i32) -> bool {
    &&& remove_effect(pre.directory, post.directory, a)
    &&& (forall|rid: u32| !post.room_manager.room_has(rid, a))
    &&& (forall|rid: u32, b: i32|
        b != a ==> post.room_manager.room_has(rid, b) == pre.room_manager.room_has(rid, b))
    &&& (pre.directory.has_account(a) ==> post.player_count == pre.player_count - 1)
    &&& (!pre.directory.has_account(a) ==> post.player_count == pre.player_count)
    &&& post.config == pre.config
    &&& post.standalone == pre.standalone
    &&& post.secret_key == pre.secret_key
    &&& post.public_key == pre.public_key
}

/// What `terminate` guarantees: the session is terminated with everything
/// else (notably the crypto context) untouched, and the shared state is
/// cleaned up exactly when the session was authenticated.
pub open spec fn terminate_post(
    old_s: &Session,
    old_v: &GameServerState,
    s: &Session,
    v: &GameServerState,
) -> bool {
    &&& s.state == SessionState::Terminated
    &&& session_untouched_but_state(old_s, s)
    &&& (old_s.state == SessionState::Authenticated ==> termination_cleanup(
        old_v,
        v,
        old_s.account_id,
    ))
    &&& (old_s.state != SessionState::Authenticated ==> *v == *old_v)
}

/// Terminate the session: cooperative and idempotent. On every termination
/// path of an authenticated session its directory and room memberships are
/// removed and the global player counter is decremented.
pub fn terminate(session: &mut Session, server: &mut GameServerState)
    requires
        old(session).inv(),
        old(server).wf(),
        coupled(old(session), old(server)),
    ensures
        final(session).inv(),
        final(server).wf(),
        coupled(final(session), final(server)),
        terminate_post(old(session), old(server), final(session), final(server)),
{
    if matches!(session.state, SessionState::Authenticated) {
        let a = session.account_id;
        server.directory.remove(a);
        server.player_count = server.directory.len();
        server.room_manager.remove_player(a);
    }
    session.state = SessionState::Terminated;
}

/// Disconnect message sent when the client's protocol is newer than ours.
pub open spec fn outdated_server_msg(protocol: u16) -> Seq<char> {
    "Outdated server! You are running protocol v"@ + decimal_seq(protocol as nat)
        + " while the server is still on v"@ + decimal_seq(PROTOCOL_VERSION as nat) + "."@
}

/// Disconnect message sent when the client's protocol is older than ours.
pub open spec fn outdated_client_msg(protocol: u16) -> Seq<char> {
    "Outdated client! Please update the mod in order to connect to the server. Client protocol version: v"@
        + decimal_seq(protocol as nat) + ", server: v"@ + decimal_seq(PROTOCOL_VERSION as nat)
}

fn make_outdated_server_msg(protocol: u16) -> (r: String)
    ensures
        r@ == outdated_server_msg(protocol),
{
    let p = render_decimal(protocol as u64);
    let v = render_decimal(PROTOCOL_VERSION as u64);
    let a = concat_strs("Outdated server! You are running protocol v", p.as_str());
    let b = concat_strs(a.as_str(), " while the server is still on v");
    let c = concat_strs(b.as_str(), v.as_str());
    let r = concat_strs(c.as_str(), ".");
    proof {
        assert(r@ =~= outdated_server_msg(protocol));
    }
    r
}

fn make_outdated_client_msg(protocol: u16) -> (r: String)
    ensures
        r@ == outdated_client_msg(protocol),
{
    let p = render_decimal(protocol as u64);
    let v = render_decimal(PROTOCOL_VERSION as u64);
    let a = concat_strs(
        "Outdated client! Please update the mod in order to connect to the server. Client protocol version: v",
        p.as_str(),
    );
    let b = concat_strs(a.as_str(), ", server: v");
    let r = concat_strs(b.as_str(), v.as_str());
    proof {
        assert(r@ =~= outdated_client_msg(protocol));
    }
    r
}

/// What the handshake handler guarantees, case by case: a version mismatch in
/// either direction terminates before any cryptographic work; a second
/// handshake on an established session terminates it and never overwrites the
/// existing context; otherwise the context is installed exactly once and the
/// server's public key is returned.
pub open spec fn handshake_post(
    old_s: &Session,
    old_v: &GameServerState,
    s: &Session,
    v: &GameServerState,
    r: &DispatchOutcome,
    protocol: u16,
) -> bool {
    &&& s.peer == old_s.peer
    &&& s.account_id == old_s.account_id
    &&& s.account_data == old_s.account_data
    &&& (protocol != PROTOCOL_VERSION ==> {
        &&& s.state == SessionState::Terminated
        &&& s.crypto == old_s.crypto
        &&& (old_s.state == SessionState::Authenticated ==> termination_cleanup(
            old_v,
            v,
            old_s.account_id,
        ))
        &&& (old_s.state != SessionState::Authenticated ==> *v == *old_v)
        &&& r.error == Some(PacketHandlingError::ProtocolVersionMismatch)
        &&& r.replies@.len() == 1
        &&& (protocol > PROTOCOL_VERSION ==> (r.replies@[0] matches
            ResponsePacket::ServerDisconnect { message } && message@ == outdated_server_msg(
            protocol,
        )))
        &&& (protocol < PROTOCOL_VERSION ==> (r.replies@[0] matches
            ResponsePacket::ServerDisconnect { message } && message@ == outdated_client_msg(
            protocol,
        )))
    })
    &&& (protocol == PROTOCOL_VERSION && old_s.crypto is Established ==> {
        &&& s.state == SessionState::Terminated
        &&& s.crypto == old_s.crypto
        &&& (old_s.state == SessionState::Authenticated ==> termination_cleanup(
            old_v,
            v,
            old_s.account_id,
        ))
        &&& (old_s.state != SessionState::Authenticated ==> *v == *old_v)
        &&& r.error == Some(PacketHandlingError::CryptoAlreadyEstablished)
        &&& r.replies@.len() == 1
        &&& (r.replies@[0] matches ResponsePacket::ServerDisconnect { message } && message@
            == "attempting to perform a second handshake in one session"@)
    })
    &&& (protocol == PROTOCOL_VERSION && old_s.crypto is Uninitialized ==> {
        &&& s.state == SessionState::AwaitingLogin
        &&& s.crypto is Established
        &&& *v == *old_v
        &&& r.error is None
        &&& r.replies@.len() == 1
        &&& r.replies@[0] == (ResponsePacket::CryptoHandshakeResponse { key: old_v.public_key })
    })
}

/// Handshake start: enforce the exact protocol-version match, then install
/// the symmetric context derived from the client's ephemeral public key —
/// exactly once per session.
pub fn handle_crypto_handshake(
    session: &mut Session,
    server: &mut GameServerState,
    protocol: u16,
    key: &[u8; 32],
) -> (r: DispatchOutcome)
    requires
        old(session).inv(),
        old(server).wf(),
        coupled(old(session), old(server)),
        old(session).state != SessionState::Terminated,
    ensures
        final(session).inv(),
        final(server).wf(),
        coupled(final(session), final(server)),
        handshake_post(old(session), old(server), final(session), final(server), &r, protocol),
{
    if protocol > PROTOCOL_VERSION {
        let msg = make_outdated_server_msg(protocol);
        terminate(session, server);
        return DispatchOutcome {
            replies: vec![ResponsePacket::ServerDisconnect { message: msg }],
            error: Some(PacketHandlingError::ProtocolVersionMismatch),
        };
    }
    if protocol < PROTOCOL_VERSION {
        let msg = make_outdated_client_msg(protocol);
        terminate(session, server);
        return DispatchOutcome {
            replies: vec![ResponsePacket::ServerDisconnect { message: msg }],
            error: Some(PacketHandlingError::ProtocolVersionMismatch),
        };
    }
    let ctx = derive_cipher(key, &server.secret_key);
    if session.crypto.install(ctx) {
        session.state = SessionState::AwaitingLogin;
        DispatchOutcome {
            replies: vec![ResponsePacket::CryptoHandshakeResponse { key: server.public_key }],
            error: None,
        }
    } else {
        // a replayed handshake could otherwise re-key mid-session
        terminate(session, server);
        DispatchOutcome {
            replies: vec![
                ResponsePacket::ServerDisconnect {
                    message: "attempting to perform a second handshake in one session".to_owned(),
                },
            ],
            error: Some(PacketHandlingError::CryptoAlreadyEstablished),
        }
    }
}

/// The display name a login attempt resolves to: the client-asserted name in
/// standalone mode, otherwise whatever the token validator decides.
pub open spec fn resolved_name(v: &GameServerState, packet: &LoginPacket, now: u64) -> Result<
    Seq<char>,
    TokenError,
> {
    if v.standalone {
        Result::Ok(packet.name@)
    } else {
        spec_validate(
            packet.token@,
            packet.account_id as int,
            now as nat,
            v.config.game_server_password@,
            v.config.token_expiry as nat,
        )
    }
}

/// The special-user record attached on a non-standalone login: a
/// point-in-time copy from the shared config store.
pub open spec fn special_user_of(v: &GameServerState, a: i32) -> Option<SpecialUser> {
    if v.config.special_users@.contains_key(a) {
        Some(v.config.special_users@[a])
    } else {
        None
    }
}

/// What the login handler guarantees, in the order the steps short-circuit:
/// maintenance rejects everything untouched; then the name is resolved
/// (standalone trusts the client, otherwise the token validator decides, and
/// a failure is reported with a prefixed reason); then the duplicate-login
/// check-and-insert; and only then are the session, counter, directory and
/// global room updated and the tick rate returned.
pub open spec fn login_post(
    old_s: &Session,
    old_v: &GameServerState,
    s: &Session,
    v: &GameServerState,
    r: &DispatchOutcome,
    packet: &LoginPacket,
    now: u64,
) -> bool {
    &&& s.peer == old_s.peer
    &&& s.crypto == old_s.crypto
    &&& (old_v.config.maintenance ==> {
        &&& s.state == SessionState::Terminated
        &&& s.account_id == old_s.account_id
        &&& s.account_data == old_s.account_data
        &&& *v == *old_v
        &&& r.error == Some(PacketHandlingError::MaintenanceActive)
        &&& r.replies@.len() == 1
        &&& (r.replies@[0] matches ResponsePacket::ServerDisconnect { message } && message@
            == "The server is currently under maintenance, please try connecting again later."@)
    })
    &&& (!old_v.config.maintenance && packet.account_id <= 0 ==> {
        &&& s.state == SessionState::Terminated
        &&& s.account_id == old_s.account_id
        &&& s.account_data == old_s.account_data
        &&& *v == *old_v
        &&& r.error == Some(PacketHandlingError::MalformedPacket)
        &&& r.replies@.len() == 1
        &&& (r.replies@[0] matches ResponsePacket::ServerDisconnect { message } && message@
            == "invalid account id"@)
    })
    &&& (!old_v.config.maintenance && packet.account_id > 0 ==> match resolved_name(
        old_v,
        packet,
        now,
    ) {
        Result::Err(e) => {
            &&& s.state == SessionState::Terminated
            &&& s.account_id == old_s.account_id
            &&& s.account_data == old_s.account_data
            &&& *v == *old_v
            &&& r.error == Some(PacketHandlingError::AuthenticationFailed(e))
            &&& r.replies@.len() == 1
            &&& (r.replies@[0] matches ResponsePacket::LoginFailed { message } && message@
                == "authentication failed: "@ + spec_error_message(e))
        },
        Result::Ok(name) => {
            if old_v.directory.has_account(packet.account_id) {
                &&& s.state == SessionState::Terminated
                &&& s.account_id == old_s.account_id
                &&& s.account_data == old_s.account_data
                &&& *v == *old_v
                &&& r.error == Some(PacketHandlingError::DuplicateLogin)
                &&& r.replies@.len() == 1
                &&& (r.replies@[0] matches ResponsePacket::ServerDisconnect { message } && message@
                    == "this account is already logged in from another session"@)
            } else {
                &&& s.state == SessionState::Authenticated
                &&& s.account_id == packet.account_id
                &&& s.account_data.account_id == packet.account_id
                &&& s.account_data.name@ == name
                &&& s.account_data.icons == packet.icons
                &&& (old_v.standalone ==> s.account_data.special_user_data is None)
                &&& (!old_v.standalone ==> s.account_data.special_user_data == special_user_of(
                    old_v,
                    packet.account_id,
                ))
                &&& v.directory@ == old_v.directory@.push(
                    DirectoryEntry { account_id: packet.account_id, peer: old_s.peer },
                )
                &&& v.player_count == old_v.player_count + 1
                &&& v.room_manager.room_has(GLOBAL_ROOM_ID, packet.account_id)
                &&& (forall|rid: u32, b: i32|
                    !(rid == GLOBAL_ROOM_ID && b == packet.account_id)
                        ==> v.room_manager.room_has(rid, b) == old_v.room_manager.room_has(rid, b))
                &&& v.config == old_v.config
                &&& v.standalone == old_v.standalone
                &&& v.secret_key == old_v.secret_key
                &&& v.public_key == old_v.public_key
                &&& r.error is None
                &&& r.replies@.len() == 1
                &&& r.replies@[0] == (ResponsePacket::LoggedIn { tps: old_v.config.tps })
            }
        },
    })
}

/// Login: maintenance gate, identity resolution, atomic duplicate check and
/// registration, account-data installation, global-room membership, and the
/// logged-in reply carrying the tick rate.
pub fn handle_login(
    session: &mut Session,
    server: &mut GameServerState,
    packet: &LoginPacket,
    now: u64,
) -> (r: DispatchOutcome)
    requires
        old(session).inv(),
        old(server).wf(),
        coupled(old(session), old(server)),
        old(session).state == SessionState::AwaitingLogin,
    ensures
        final(session).inv(),
        final(server).wf(),
        coupled(final(session), final(server)),
        login_post(old(session), old(server), final(session), final(server), &r, packet, now),
{
    // disconnect if the server is under maintenance
    if server.config.maintenance {
        terminate(session, server);
        return DispatchOutcome {
            replies: vec![
                ResponsePacket::ServerDisconnect {
                    message:
                        "The server is currently under maintenance, please try connecting again later.".to_owned(
                    ),
                },
            ],
            error: Some(PacketHandlingError::MaintenanceActive),
        };
    }
    if packet.account_id <= 0 {
        terminate(session, server);
        return DispatchOutcome {
            replies: vec![
                ResponsePacket::ServerDisconnect { message: "invalid account id".to_owned() },
            ],
            error: Some(PacketHandlingError::MalformedPacket),
        };
    }
    // skip authentication if standalone
    let player_name: String = if server.standalone {
        packet.name.clone()
    } else {
        // verify the given token against the shared secret and expiry
        let checked = validate(
            packet.account_id,
            packet.token.as_str(),
            now,
            server.config.game_server_password.as_str(),
            server.config.token_expiry,
        );
        match checked {
            Ok(x) => x,
            Err(err) => {
                terminate(session, server);
                let reason = err.error_message();
                let message = concat_strs("authentication failed: ", reason.as_str());
                return DispatchOutcome {
                    replies: vec![ResponsePacket::LoginFailed { message }],
                    error: Some(PacketHandlingError::AuthenticationFailed(err)),
                };
            },
        }
    };
    // atomic duplicate-login check and registration: nothing else is mutated
    // when the account already has a live session
    if !server.directory.register(packet.account_id, session.peer) {
        terminate(session, server);
        return DispatchOutcome {
            replies: vec![
                ResponsePacket::ServerDisconnect {
                    message: "this account is already logged in from another session".to_owned(),
                },
            ],
            error: Some(PacketHandlingError::DuplicateLogin),
        };
    }
    session.account_id = packet.account_id;
    server.player_count = server.directory.len();
    session.account_data.account_id = packet.account_id;
    session.account_data.icons = packet.icons;
    session.account_data.name = player_name;
    if !server.standalone {
        let special = match server.config.special_users.get(&packet.account_id) {
            Some(su) => Some(su.clone()),
            None => None,
        };
        session.account_data.special_user_data = special;
    } else {
        session.account_data.special_user_data = None;
    }
    // add them to the global room
    server.room_manager.create_player_in_room(GLOBAL_ROOM_ID, packet.account_id);
    let tps = server.config.tps;
    session.state = SessionState::Authenticated;
    DispatchOutcome { replies: vec![ResponsePacket::LoggedIn { tps }], error: None }
}

/// Ping: available before authentication, echoes the global player count as a
/// liveness probe.
pub fn handle_ping(server: &GameServerState, id: u32) -> (r: ResponsePacket)
    ensures
        r == (ResponsePacket::PingResponse { id, player_count: server.player_count }),
{
    ResponsePacket::PingResponse { id, player_count: server.player_count }
}

/// Keepalive: authenticated-only, reports the player count and proves
/// connection liveness.
pub fn handle_keepalive(session: &Session, server: &GameServerState) -> (r: ResponsePacket)
    requires
        session.state == SessionState::Authenticated,
    ensures
        r == (ResponsePacket::KeepaliveResponse { player_count: server.player_count }),
{
    ResponsePacket::KeepaliveResponse { player_count: server.player_count }
}

/// A packet type that requires an authenticated session.
pub open spec fn auth_gated(packet: &Packet) -> bool {
    packet is Keepalive
}

/// Route one decoded packet. A terminated session processes nothing; an
/// authentication-gated packet is never processed while the session is still
/// in `AwaitingHandshake` or `AwaitingLogin`; a login is only processed in
/// `AwaitingLogin`; a disconnect terminates unconditionally and idempotently.
pub fn dispatch(
    session: &mut Session,
    server: &mut GameServerState,
    packet: Packet,
    now: u64,
) -> (r: DispatchOutcome)
    requires
        old(session).inv(),
        old(server).wf(),
        coupled(old(session), old(server)),
    ensures
        final(session).inv(),
        final(server).wf(),
        coupled(final(session), final(server)),
        old(session).state == SessionState::Terminated ==> {
            &&& r.error == Some(PacketHandlingError::SessionTerminated)
            &&& r.replies@.len() == 0
            &&& *final(session) == *old(session)
            &&& *final(server) == *old(server)
        },
        // an auth-gated packet is never processed outside `Authenticated`
        auth_gated(&packet) && old(session).state != SessionState::Authenticated && old(
            session,
        ).state != SessionState::Terminated ==> {
            &&& r.error == Some(PacketHandlingError::NotAuthenticated)
            &&& r.replies@.len() == 0
            &&& *final(session) == *old(session)
            &&& *final(server) == *old(server)
        },
        old(session).state != SessionState::Terminated ==> match packet {
            Packet::Ping { id } => {
                &&& *final(session) == *old(session)
                &&& *final(server) == *old(server)
                &&& r.error is None
                &&& r.replies@.len() == 1
                &&& r.replies@[0] == (ResponsePacket::PingResponse {
                    id,
                    player_count: old(server).player_count,
                })
            },
            Packet::CryptoHandshakeStart { protocol, key } => handshake_post(
                old(session),
                old(server),
                final(session),
                final(server),
                &r,
                protocol,
            ),
            Packet::Login(lp) => {
                if old(session).state == SessionState::AwaitingLogin {
                    login_post(
                        old(session),
                        old(server),
                        final(session),
                        final(server),
                        &r,
                        &lp,
                        now,
                    )
                } else {
                    &&& r.error == Some(PacketHandlingError::NotAuthenticated)
                    &&& r.replies@.len() == 0
                    &&& *final(session) == *old(session)
                    &&& *final(server) == *old(server)
                }
            },
            Packet::Keepalive => {
                old(session).state == SessionState::Authenticated ==> {
                    &&& *final(session) == *old(session)
                    &&& *final(server) == *old(server)
                    &&& r.error is None
                    &&& r.replies@.len() == 1
                    &&& r.replies@[0] == (ResponsePacket::KeepaliveResponse {
                        player_count: old(server).player_count,
                    })
                }
            },
            Packet::Disconnect => {
                &&& terminate_post(old(session), old(server), final(session), final(server))
                &&& r.error is None
                &&& r.replies@.len() == 0
            },
        },
{
    if matches!(session.state, SessionState::Terminated) {
        return DispatchOutcome {
            replies: Vec::new(),
            error: Some(PacketHandlingError::SessionTerminated),
        };
    }
    match packet {
        Packet::Ping { id } => DispatchOutcome {
            replies: vec![handle_ping(server, id)],
            error: None,
        },
        Packet::CryptoHandshakeStart { protocol, key } => handle_crypto_handshake(
            session,
            server,
            protocol,
            &key,
        ),
        Packet::Login(lp) => {
            if matches!(session.state, SessionState::AwaitingLogin) {
                handle_login(session, server, &lp, now)
            } else {
                DispatchOutcome {
                    replies: Vec::new(),
                    error: Some(PacketHandlingError::NotAuthenticated),
                }
            }
        },
        Packet::Keepalive => {
            if matches!(session.state, SessionState::Authenticated) {
                DispatchOutcome {
                    replies: vec![handle_keepalive(session, server)],
                    error: None,
                }
            } else {
                DispatchOutcome {
                    replies: Vec::new(),
                    error: Some(PacketHandlingError::NotAuthenticated),
                }
            }
        },
        Packet::Disconnect => {
            terminate(session, server);
            DispatchOutcome { replies: Vec::new(), error: None }
        },
    }
}

} // verus!
