//! Player directory and room manager: the global registry from authoritative
//! account identity to live sessions, and account-id groupings ("rooms") for
//! visibility and broadcast. The directory holds at most one entry per
//! account id; removal is idempotent and runs on every termination path.

use vstd::prelude::*;

verus! {

/// The room every authenticated player joins on login.
pub const GLOBAL_ROOM_ID: u32 = 0;

/// Immutable identity of a remote endpoint, the de-facto session key.
#[derive(Clone, Copy, PartialEq, Eq, Structural, Debug)]
pub struct PeerAddress {
    pub ip: u32,
    pub port: u16,
}

/// One directory entry: a lookup-only relation from an account id to the
/// session (identified by its peer address) that owns it.
#[derive(Clone, Copy, PartialEq, Eq, Structural, Debug)]
pub struct DirectoryEntry {
    pub account_id: i32,
    pub peer: PeerAddress,
}

/// Registry of live, authenticated sessions, keyed by account id.
pub struct PlayerDirectory {
    entries: Vec<DirectoryEntry>,
}

impl View for PlayerDirectory {
    type V = Seq<DirectoryEntry>;

    closed spec fn view(&self) -> Seq<DirectoryEntry> {
        self.entries@
    }
}

/// What `PlayerDirectory::remove` guarantees: the id is gone, every other id
/// keeps its registration, and removing an absent id changes nothing at all.
pub open spec fn remove_effect(pre: PlayerDirectory, post: PlayerDirectory, a: i32) -> bool {
    &&& !post.has_account(a)
    &&& (forall|b: i32| b != a ==> post.has_account(b) == pre.has_account(b))
    &&& (pre.has_account(a) ==> post@.len() == pre@.len() - 1)
    &&& (!pre.has_account(a) ==> post@ == pre@)
}

impl PlayerDirectory {
    /// No two entries share an account id.
    pub open spec fn wf(&self) -> bool {
        forall|i: int, j: int|
            #![trigger self@[i].account_id, self@[j].account_id]
            0 <= i < j < self@.len() ==> self@[i].account_id != self@[j].account_id
    }

    /// Some live session is registered for this account.
    pub open spec fn has_account(&self, a: i32) -> bool {
        exists|i: int| 0 <= i < self@.len() && #[trigger] self@[i].account_id == a
    }

    pub fn new() -> (r: Self)
        ensures
            r@ =~= Seq::<DirectoryEntry>::empty(),
            r.wf(),
    {
        PlayerDirectory { entries: Vec::new() }
    }

    pub fn len(&self) -> (r: usize)
        ensures
            r == self@.len(),
    {
        self.entries.len()
    }

    fn index_of(&self, account_id: i32) -> (r: Option<usize>)
        ensures
            match r {
                Some(k) => k < self@.len() && self@[k as int].account_id == account_id,
                None => !self.has_account(account_id),
            },
    {
        let n = self.entries.len();
        let mut i: usize = 0;
        while i < n
            invariant
                0 <= i <= n,
                n == self@.len(),
                forall|k: int| 0 <= k < i ==> #[trigger] self@[k].account_id != account_id,
            decreases n - i,
        {
            if self.entries[i].account_id == account_id {
                return Some(i);
            }
            i = i + 1;
        }
        None
    }

    /// Some live session is registered for this account.
    pub fn is_registered(&self, account_id: i32) -> (r: bool)
        ensures
            r == self.has_account(account_id),
    {
        self.index_of(account_id).is_some()
    }

    /// Atomic check-and-insert: registers the account exactly when no entry
    /// for it exists, so two logins for one id can never both succeed.
    pub fn register(&mut self, account_id: i32, peer: PeerAddress) -> (r: bool)
        requires
            old(self).wf(),
        ensures
            final(self).wf(),
            r == !old(self).has_account(account_id),
            r ==> final(self)@ == old(self)@.push(DirectoryEntry { account_id, peer }),
            !r ==> *final(self) == *old(self),
            final(self).has_account(account_id),
    {
        if self.is_registered(account_id) {
            return false;
        }
        self.entries.push(DirectoryEntry { account_id, peer });
        proof {
            let post = self@;
            let pre = old(self)@;
            assert(post[pre.len() as int].account_id == account_id);
            assert forall|i: int, j: int|
                #![trigger post[i].account_id, post[j].account_id]
                0 <= i < j < post.len() implies post[i].account_id != post[j].account_id by {
                if j < pre.len() {
                } else {
                    assert(post[i] == pre[i]);
                }
            }
        }
        true
    }

    /// Remove the account's registration, if any. Idempotent: removing an id
    /// that is not present changes nothing.
    pub fn remove(&mut self, account_id: i32)
        requires
            old(self).wf(),
        ensures
            final(self).wf(),
            remove_effect(*old(self), *final(self), account_id),
    {
        let k = match self.index_of(account_id) {
            Some(k) => k,
            None => {
                return ;
            },
        };
        self.entries.remove(k);
        proof {
            let pre = old(self)@;
            let post = self@;
            assert forall|p: int| 0 <= p < post.len() implies post[p] == (if p < k {
                pre[p]
            } else {
                pre[p + 1]
            }) by {}
            assert forall|p: int| 0 <= p < post.len() implies #[trigger] post[p].account_id
                != account_id by {
                let q: int = if p < k { p } else { p + 1 };
                assert(pre[q] == post[p]);
                if q != k {
                    assert(pre[k as int].account_id == account_id);
                }
            }
            assert forall|b: i32| b != account_id && old(self).has_account(b) implies self
                .has_account(b) by {
                let w = choose|w: int| 0 <= w < pre.len() && pre[w].account_id == b;
                if w < k {
                    assert(post[w].account_id == b);
                } else {
                    assert(post[w - 1].account_id == b);
                }
            }
            assert forall|b: i32| b != account_id && self.has_account(b) implies old(
                self,
            ).has_account(b) by {
                let w = choose|w: int| 0 <= w < post.len() && post[w].account_id == b;
                let q: int = if w < k { w } else { w + 1 };
                assert(pre[q].account_id == b);
            }
        }
    }
}

/// In a well-formed directory, two entries with one account id are the same
/// entry: at most one live session per account, for all time.
pub proof fn lemma_directory_at_most_one(d: &PlayerDirectory, i: int, j: int)
    requires
        d.wf(),
        0 <= i < d@.len(),
        0 <= j < d@.len(),
        d@[i].account_id == d@[j].account_id,
    ensures
        i == j,
{
}

/// Removing an account id twice has the same effect as removing it once: the
/// first removal leaves the id absent, and removing an absent id is a no-op.
pub proof fn lemma_remove_idempotent(
    d0: PlayerDirectory,
    d1: PlayerDirectory,
    d2: PlayerDirectory,
    a: i32,
)
    requires
        remove_effect(d0, d1, a),
        remove_effect(d1, d2, a),
    ensures
        d2@ == d1@,
{
}

/// A named or implicit grouping of account ids for visibility and broadcast.
/// A room owns no sessions, only membership.
pub struct Room {
    pub id: u32,
    members: Vec<i32>,
}

impl View for Room {
    type V = Seq<i32>;

    closed spec fn view(&self) -> Seq<i32> {
        self.members@
    }
}

impl Room {
    /// The room's id, readable in contracts.
    pub closed spec fn spec_id(&self) -> u32 {
        self.id
    }

    /// No account is listed twice.
    pub open spec fn wf(&self) -> bool {
        forall|i: int, j: int|
            #![trigger self@[i], self@[j]]
            0 <= i < j < self@.len() ==> self@[i] != self@[j]
    }

    pub open spec fn is_member(&self, a: i32) -> bool {
        exists|i: int| 0 <= i < self@.len() && self@[i] == a
    }

    pub fn new(id: u32) -> (r: Self)
        ensures
            r.spec_id() == id,
            r@ =~= Seq::<i32>::empty(),
            r.wf(),
    {
        Room { id, members: Vec::new() }
    }

    fn index_of(&self, a: i32) -> (r: Option<usize>)
        ensures
            match r {
                Some(k) => k < self@.len() && self@[k as int] == a,
                None => !self.is_member(a),
            },
    {
        let n = self.members.len();
        let mut i: usize = 0;
        while i < n
            invariant
                0 <= i <= n,
                n == self@.len(),
                forall|k: int| 0 <= k < i ==> #[trigger] self@[k] != a,
            decreases n - i,
        {
            if self.members[i] == a {
                return Some(i);
            }
            i = i + 1;
        }
        None
    }

    /// The account is listed in this room.
    pub fn contains(&self, a: i32) -> (r: bool)
        ensures
            r == self.is_member(a),
    {
        self.index_of(a).is_some()
    }

    /// Add the account to the room; adding a present member changes nothing.
    pub fn create_player(&mut self, a: i32)
        requires
            old(self).wf(),
        ensures
            final(self).wf(),
            final(self).spec_id() == old(self).spec_id(),
            final(self).is_member(a),
            forall|b: i32| b != a ==> final(self).is_member(b) == old(self).is_member(b),
            !old(self).is_member(a) ==> final(self)@ == old(self)@.push(a),
            old(self).is_member(a) ==> final(self)@ == old(self)@,
    {
        match self.index_of(a) {
            Some(_) => {},
            None => {
                self.members.push(a);
                proof {
                    let pre = old(self)@;
                    let post = self@;
                    assert(post[pre.len() as int] == a);
                    assert forall|i: int, j: int|
                        #![trigger post[i], post[j]]
                        0 <= i < j < post.len() implies post[i] != post[j] by {
                        if j < pre.len() {
                        } else {
                            assert(post[i] == pre[i]);
                        }
                    }
                    assert forall|b: i32| b != a && self.is_member(b) implies old(self).is_member(
                        b,
                    ) by {
                        let w = choose|w: int| 0 <= w < post.len() && post[w] == b;
                        assert(pre[w] == b);
                    }
                    assert forall|b: i32| b != a && old(self).is_member(b) implies self.is_member(
                        b,
                    ) by {
                        let w = choose|w: int| 0 <= w < pre.len() && pre[w] == b;
                        assert(post[w] == b);
                    }
                }
            },
        }
    }

    /// Drop the account from the room, if present.
    pub fn remove_player(&mut self, a: i32)
        requires
            old(self).wf(),
        ensures
            final(self).wf(),
            final(self).spec_id() == old(self).spec_id(),
            !final(self).is_member(a),
            forall|b: i32| b != a ==> final(self).is_member(b) == old(self).is_member(b),
            !old(self).is_member(a) ==> final(self)@ == old(self)@,
    {
        let k = match self.index_of(a) {
            Some(k) => k,
            None => {
                return ;
            },
        };
        self.members.remove(k);
        proof {
            let pre = old(self)@;
            let post = self@;
            assert forall|p: int| 0 <= p < post.len() implies post[p] == (if p < k {
                pre[p]
            } else {
                pre[p + 1]
            }) by {}
            assert forall|p: int| 0 <= p < post.len() implies #[trigger] post[p] != a by {
                let q: int = if p < k { p } else { p + 1 };
                assert(pre[q] == post[p]);
                if q != k {
                    assert(pre[k as int] == a);
                }
            }
            assert forall|b: i32| b != a && old(self).is_member(b) implies self.is_member(b) by {
                let w = choose|w: int| 0 <= w < pre.len() && pre[w] == b;
                if w < k {
                    assert(post[w] == b);
                } else {
                    assert(post[w - 1] == b);
                }
            }
            assert forall|b: i32| b != a && self.is_member(b) implies old(self).is_member(b) by {
                let w = choose|w: int| 0 <= w < post.len() && post[w] == b;
                let q: int = if w < k { w } else { w + 1 };
                assert(pre[q] == b);
            }
        }
    }
}

/// All rooms of the server: the implicit global room every authenticated
/// player joins on login, and the named rooms created on demand.
pub struct RoomManager {
    global: Room,
    custom: Vec<Room>,
}

impl RoomManager {
    /// The global room carries the reserved id, every room is well formed,
    /// and no two named rooms share an id.
    pub open spec fn wf(&self) -> bool {
        &&& self.spec_global().spec_id() == GLOBAL_ROOM_ID
        &&& self.spec_global().wf()
        &&& forall|k: int|
            0 <= k < self.rooms().len() ==> (#[trigger] self.rooms()[k]).wf() && self.rooms()[k].spec_id()
                != GLOBAL_ROOM_ID
        &&& forall|k: int, l: int|
            #![trigger self.rooms()[k].spec_id(), self.rooms()[l].spec_id()]
            0 <= k < l < self.rooms().len() ==> self.rooms()[k].spec_id()
                != self.rooms()[l].spec_id()
    }

    pub closed spec fn spec_global(&self) -> Room {
        self.global
    }

    pub closed spec fn rooms(&self) -> Seq<Room> {
        self.custom@
    }

    /// The account is a member of the room with this id.
    pub open spec fn room_has(&self, room_id: u32, a: i32) -> bool {
        if room_id == GLOBAL_ROOM_ID {
            self.spec_global().is_member(a)
        } else {
            exists|k: int|
                0 <= k < self.rooms().len() && (#[trigger] self.rooms()[k]).spec_id() == room_id
                    && self.rooms()[k].is_member(a)
        }
    }

    pub fn new() -> (r: Self)
        ensures
            r.wf(),
            forall|rid: u32, b: i32| !r.room_has(rid, b),
    {
        RoomManager { global: Room::new(GLOBAL_ROOM_ID), custom: Vec::new() }
    }

    fn index_of_room(&self, room_id: u32) -> (r: Option<usize>)
        ensures
            match r {
                Some(k) => k < self.rooms().len() && self.rooms()[k as int].spec_id() == room_id,
                None => forall|k: int|
                    0 <= k < self.rooms().len() ==> (#[trigger] self.rooms()[k]).spec_id() != room_id,
            },
    {
        let n = self.custom.len();
        let mut i: usize = 0;
        while i < n
            invariant
                0 <= i <= n,
                n == self.rooms().len(),
                forall|k: int| 0 <= k < i ==> (#[trigger] self.rooms()[k]).spec_id() != room_id,
            decreases n - i,
        {
            if self.custom[i].id == room_id {
                return Some(i);
            }
            i = i + 1;
        }
        None
    }

    /// The account is a member of the room with this id.
    pub fn is_member_of_room(&self, room_id: u32, a: i32) -> (r: bool)
        requires
            self.wf(),
        ensures
            r == self.room_has(room_id, a),
    {
        if room_id == GLOBAL_ROOM_ID {
            return self.global.contains(a);
        }
        match self.index_of_room(room_id) {
            Some(k) => {
                let r = self.custom[k].contains(a);
                proof {
                    if !r {
                        assert forall|w: int|
                            0 <= w < self.rooms().len() && (#[trigger] self.rooms()[w]).spec_id()
                                == room_id implies !self.rooms()[w].is_member(a) by {
                            if w != k {
                                assert(self.rooms()[w].spec_id() != self.rooms()[k as int].spec_id());
                            }
                        }
                    }
                }
                r
            },
            None => false,
        }
    }

    /// Add the account to the room with this id, creating the room if it does
    /// not exist yet. Membership of every other (room, account) pair is
    /// untouched.
    pub fn create_player_in_room(&mut self, room_id: u32, a: i32)
        requires
            old(self).wf(),
        ensures
            final(self).wf(),
            final(self).room_has(room_id, a),
            forall|rid: u32, b: i32|
                !(rid == room_id && b == a) ==> final(self).room_has(rid, b) == old(self).room_has(
                    rid,
                    b,
                ),
    {
        if room_id == GLOBAL_ROOM_ID {
            self.global.create_player(a);
            return ;
        }
        match self.index_of_room(room_id) {
            Some(k) => {
                let mut room = self.custom.remove(k);
                room.create_player(a);
                self.custom.insert(k, room);
                proof {
                    let pre = old(self).rooms();
                    let post = self.rooms();
                    assert(post =~= pre.update(k as int, post[k as int]));
                    assert forall|rid: u32, b: i32|
                        !(rid == room_id && b == a) implies self.room_has(rid, b) == old(
                        self,
                    ).room_has(rid, b) by {
                        if rid != GLOBAL_ROOM_ID {
                            if self.room_has(rid, b) {
                                let w = choose|w: int|
                                    0 <= w < post.len() && (#[trigger] post[w]).spec_id() == rid
                                        && post[w].is_member(b);
                                assert(pre[w].spec_id() == rid && pre[w].is_member(b));
                            }
                            if old(self).room_has(rid, b) {
                                let w = choose|w: int|
                                    0 <= w < pre.len() && (#[trigger] pre[w]).spec_id() == rid && pre[w].is_member(
                                        b,
                                    );
                                assert(post[w].spec_id() == rid && post[w].is_member(b));
                            }
                        }
                    }
                }
            },
            None => {
                let mut room = Room::new(room_id);
                room.create_player(a);
                self.custom.push(room);
                proof {
                    let pre = old(self).rooms();
                    let post = self.rooms();
                    assert(post[pre.len() as int].spec_id() == room_id);
                    assert forall|rid: u32, b: i32|
                        !(rid == room_id && b == a) implies self.room_has(rid, b) == old(
                        self,
                    ).room_has(rid, b) by {
                        if rid != GLOBAL_ROOM_ID {
                            if self.room_has(rid, b) {
                                let w = choose|w: int|
                                    0 <= w < post.len() && (#[trigger] post[w]).spec_id() == rid
                                        && post[w].is_member(b);
                                assert(w < pre.len() && pre[w].spec_id() == rid && pre[w].is_member(b));
                            }
                            if old(self).room_has(rid, b) {
                                let w = choose|w: int|
                                    0 <= w < pre.len() && (#[trigger] pre[w]).spec_id() == rid && pre[w].is_member(
                                        b,
                                    );
                                assert(post[w].spec_id() == rid && post[w].is_member(b));
                            }
                        }
                    }
                }
            },
        }
    }

    /// Drop the account from every room. Runs on every termination path so no
    /// stale membership outlives its session.
    pub fn remove_player(&mut self, a: i32)
        requires
            old(self).wf(),
        ensures
            final(self).wf(),
            forall|rid: u32| !final(self).room_has(rid, a),
            forall|rid: u32, b: i32|
                b != a ==> final(self).room_has(rid, b) == old(self).room_has(rid, b),
    {
        self.global.remove_player(a);
        let n = self.custom.len();
        let mut i: usize = 0;
        while i < n
            invariant
                0 <= i <= n,
                n == self.rooms().len(),
                self.rooms().len() == old(self).rooms().len(),
                self.spec_global().spec_id() == GLOBAL_ROOM_ID,
                self.spec_global().wf(),
                !self.spec_global().is_member(a),
                forall|b: i32|
                    b != a ==> self.spec_global().is_member(b) == old(self).spec_global().is_member(
                        b,
                    ),
                forall|k: int|
                    0 <= k < n ==> (#[trigger] self.rooms()[k]).spec_id() == old(self).rooms()[k].spec_id(),
                forall|k: int| 0 <= k < n ==> (#[trigger] self.rooms()[k]).wf(),
                forall|k: int| 0 <= k < i ==> !(#[trigger] self.rooms()[k]).is_member(a),
                forall|k: int, b: i32|
                    0 <= k < i && b != a ==> (#[trigger] self.rooms()[k].is_member(b)) == old(
                        self,
                    ).rooms()[k].is_member(b),
                forall|k: int| i <= k < n ==> (#[trigger] self.rooms()[k]) == old(self).rooms()[k],
            decreases n - i,
        {
            let mut room = self.custom.remove(i);
            room.remove_player(a);
            self.custom.insert(i, room);
            i = i + 1;
        }
        proof {
            assert forall|rid: u32| !self.room_has(rid, a) by {}
            assert forall|rid: u32, b: i32| b != a implies self.room_has(rid, b) == old(
                self,
            ).room_has(rid, b) by {
                if rid != GLOBAL_ROOM_ID {
                    let pre = old(self).rooms();
                    let post = self.rooms();
                    if self.room_has(rid, b) {
                        let w = choose|w: int|
                            0 <= w < post.len() && (#[trigger] post[w]).spec_id() == rid
                                && post[w].is_member(b);
                        assert(pre[w].spec_id() == rid && pre[w].is_member(b));
                    }
                    if old(self).room_has(rid, b) {
                        let w = choose|w: int|
                            0 <= w < pre.len() && (#[trigger] pre[w]).spec_id() == rid && pre[w].is_member(
                                b,
                            );
                        assert(post[w].spec_id() == rid && post[w].is_member(b));
                    }
                }
            }
        }
    }
}

} // verus!
