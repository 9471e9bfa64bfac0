//! Per-connection session state and the process-wide shared server state.

use vstd::prelude::*;
use crate::config::ServerConfig;
use crate::crypto::CryptoState;
use crate::directory::{PeerAddress, PlayerDirectory, RoomManager};

verus! {

/// Where a connection stands in the protocol: handshake first, then login,
/// then authenticated traffic, until termination.
#[derive(Clone, Copy, PartialEq, Eq, Structural, Debug)]
pub enum SessionState {
    AwaitingHandshake,
    AwaitingLogin,
    Authenticated,
    Terminated,
}

/// Cosmetic icon selection carried by the login packet.
#[derive(Clone, Copy, PartialEq, Eq, Structural, Debug)]
pub struct PlayerIconData {
    pub cube: i16,
    pub color1: i16,
    pub color2: i16,
}

/// Per-session composite account record, mutated only by the owning
/// connection's handler logic (under the session's lock in the concurrent
/// setting) and read by the directory and room manager.
pub struct AccountData {
    pub account_id: i32,
    pub name: String,
    pub icons: PlayerIconData,
    pub special_user_data: Option<crate::config::SpecialUser>,
}

/// One live connection: protocol position, remote identity, write-once crypto
/// slot, atomic account id, and the locked account record.
pub struct Session {
    pub state: SessionState,
    /// Immutable identity of the remote endpoint: the de-facto session key.
    pub peer: PeerAddress,
    /// Absent until the handshake completes; set at most once.
    pub crypto: CryptoState,
    /// Zero until login succeeds.
    pub account_id: i32,
    pub account_data: AccountData,
}

impl Session {
    /// Shape invariant of the state machine: no crypto context before the
    /// handshake, a context from then on, and an account id exactly once
    /// authenticated.
    pub open spec fn inv(&self) -> bool {
        &&& (self.state == SessionState::AwaitingHandshake ==> self.crypto
            is Uninitialized && self.account_id == 0)
        &&& (self.state == SessionState::AwaitingLogin ==> self.crypto is Established
            && self.account_id == 0)
        &&& (self.state == SessionState::Authenticated ==> self.crypto is Established
            && self.account_id != 0)
    }

    /// A fresh session for a newly accepted transport.
    pub fn new(peer: PeerAddress) -> (r: Session)
        ensures
            r.inv(),
            r.state == SessionState::AwaitingHandshake,
            r.crypto is Uninitialized,
            r.account_id == 0,
            r.peer == peer,
            r.account_data.name@ =~= Seq::<char>::empty(),
            r.account_data.account_id == 0,
            r.account_data.special_user_data is None,
    {
        Session {
            state: SessionState::AwaitingHandshake,
            peer,
            crypto: CryptoState::Uninitialized,
            account_id: 0,
            account_data: AccountData {
                account_id: 0,
                name: String::new(),
                icons: PlayerIconData { cube: 0, color1: 0, color2: 0 },
                special_user_data: None,
            },
        }
    }
}

/// Process-wide shared context, constructed once at startup and handed by
/// reference into every per-connection unit of execution.
pub struct GameServerState {
    /// Shared config store contents (maintenance flag, tick rate, special
    /// users, secrets, expiry windows).
    pub config: ServerConfig,
    /// When set, client-asserted identity is trusted and no token is checked.
    pub standalone: bool,
    /// The server's long-lived key-exchange secret key.
    pub secret_key: [u8; 32],
    /// The public half, sent back in the handshake response.
    pub public_key: [u8; 32],
    /// Global player counter; counts registered (authenticated) sessions.
    pub player_count: usize,
    pub directory: PlayerDirectory,
    pub room_manager: RoomManager,
}

impl GameServerState {
    /// The registry and rooms are well formed and the global player counter
    /// equals the number of registered sessions.
    pub open spec fn wf(&self) -> bool {
        &&& self.directory.wf()
        &&& self.room_manager.wf()
        &&& self.player_count == self.directory@.len()
    }

    pub fn new(config: ServerConfig, standalone: bool, secret_key: [u8; 32], public_key: [u8; 32]) -> (r:
        GameServerState)
        ensures
            r.wf(),
            r.config == config,
            r.standalone == standalone,
            r.secret_key == secret_key,
            r.public_key == public_key,
            r.player_count == 0,
            r.directory@ =~= Seq::<crate::directory::DirectoryEntry>::empty(),
            forall|rid: u32, b: i32| !r.room_manager.room_has(rid, b),
    {
        GameServerState {
            config,
            standalone,
            secret_key,
            public_key,
            player_count: 0,
            directory: PlayerDirectory::new(),
            room_manager: RoomManager::new(),
        }
    }
}

/// The cross-object tie between a session and the shared state: an
/// authenticated session is registered in the player directory under its
/// account id.
pub open spec fn coupled(s: &Session, v: &GameServerState) -> bool {
    s.state == SessionState::Authenticated ==> v.directory.has_account(s.account_id)
}

/// The global player counter always equals the number of directory entries,
/// and every authenticated session holds a directory entry: together, the
/// counter tracks the number of authenticated sessions.
pub proof fn lemma_player_count_tracks_sessions(s: &Session, v: &GameServerState)
    requires
        v.wf(),
        coupled(s, v),
    ensures
        v.player_count == v.directory@.len(),
        s.state == SessionState::Authenticated ==> v.directory.has_account(s.account_id),
{
}

} // verus!
