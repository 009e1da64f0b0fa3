use vstd::prelude::*;

verus! {

/// One player as the server lists it.
#[derive(Debug, Clone)]
pub struct PlayerInfo {
    pub uuid: Vec<u8>,
    pub username: String,
    /// Latency in milliseconds; -1 when unknown.
    pub ping: i32,
}

/// The mathematical value of a `PlayerInfo`.
pub struct PlayerView {
    pub uuid: Seq<u8>,
    pub username: Seq<char>,
    pub ping: i32,
}

impl View for PlayerInfo {
    type V = PlayerView;

    open spec fn view(&self) -> PlayerView {
        PlayerView { uuid: self.uuid@, username: self.username@, ping: self.ping }
    }
}

impl PlayerInfo {
    /// A record with an empty UUID, an empty name and a ping of zero.
    pub fn new() -> (r: PlayerInfo)
        ensures
            r@.uuid.len() == 0,
            r@.username.len() == 0,
            r@.ping == 0,
    {
        PlayerInfo { uuid: Vec::new(), username: String::new(), ping: 0 }
    }
}

/// Some record of `s` has this UUID.
pub open spec fn has_uuid(s: Seq<PlayerView>, uuid: Seq<u8>) -> bool {
    exists|i: int| 0 <= i < s.len() && (#[trigger] s[i]).uuid == uuid
}

/// The position of the record with this UUID.
pub open spec fn index_of(s: Seq<PlayerView>, uuid: Seq<u8>) -> int {
    choose|i: int| 0 <= i < s.len() && (#[trigger] s[i]).uuid == uuid
}

/// No two records share a UUID.
pub open spec fn uuids_unique(s: Seq<PlayerView>) -> bool {
    forall|i: int, j: int|
        0 <= i < s.len() && 0 <= j < s.len() && (#[trigger] s[i]).uuid == (#[trigger] s[j]).uuid
            ==> i == j
}

/// `p` with its ping replaced.
pub open spec fn with_ping(p: PlayerView, ping: i32) -> PlayerView {
    PlayerView { uuid: p.uuid, username: p.username, ping }
}

/// Registering `p`: a new UUID is appended; a known one has only its ping
/// replaced, its name kept.
pub open spec fn register_spec(s: Seq<PlayerView>, p: PlayerView) -> Seq<PlayerView> {
    if has_uuid(s, p.uuid) {
        let i = index_of(s, p.uuid);
        s.update(i, with_ping(s[i], p.ping))
    } else {
        s.push(p)
    }
}

/// Setting the ping of the record with this UUID, when there is one.
pub open spec fn update_ping_spec(s: Seq<PlayerView>, uuid: Seq<u8>, ping: i32) -> Seq<PlayerView> {
    if has_uuid(s, uuid) {
        let i = index_of(s, uuid);
        s.update(i, with_ping(s[i], ping))
    } else {
        s
    }
}

/// Removing the record with this UUID, when there is one.
pub open spec fn remove_spec(s: Seq<PlayerView>, uuid: Seq<u8>) -> Seq<PlayerView> {
    if has_uuid(s, uuid) {
        s.remove(index_of(s, uuid))
    } else {
        s
    }
}

/// The players currently present, at most one record per UUID.
#[derive(Debug)]
pub struct Players {
    players: Vec<PlayerInfo>,
}

impl View for Players {
    type V = Seq<PlayerView>;

    closed spec fn view(&self) -> Seq<PlayerView> {
        self.players@.map_values(|p: PlayerInfo| p@)
    }
}

fn bytes_equal(a: &[u8], b: &[u8]) -> (r: bool)
    ensures
        r == (a@ == b@),
{
    if a.len() != b.len() {
        return false;
    }
    let mut i: usize = 0;
    while i < a.len()
        invariant
            a@.len() == b@.len(),
            i <= a@.len(),
            forall|k: int| 0 <= k < i ==> a@[k] == b@[k],
        decreases a@.len() - i,
    {
        if a[i] != b[i] {
            return false;
        }
        i += 1;
    }
    proof {
        assert(a@ =~= b@);
    }
    true
}

impl Players {
    /// Records never share a UUID.
    pub open spec fn wf(&self) -> bool {
        uuids_unique(self@)
    }

    /// An empty roster.
    pub fn new() -> (r: Players)
        ensures
            r.wf(),
            r@.len() == 0,
    {
        Players { players: Vec::new() }
    }

    /// The records, in the order in which they arrived.
    pub fn players(&self) -> (r: &Vec<PlayerInfo>)
        ensures
            r@.map_values(|p: PlayerInfo| p@) == self@,
    {
        &self.players
    }

    /// The number of records.
    pub fn len(&self) -> (r: usize)
        ensures
            r == self@.len(),
    {
        self.players.len()
    }

    /// The position of the record with this UUID, if any.
    pub fn position(&self, uuid: &[u8]) -> (r: Option<usize>)
        requires
            self.wf(),
        ensures
            match r {
                Some(i) => has_uuid(self@, uuid@) && i == index_of(self@, uuid@),
                None => !has_uuid(self@, uuid@),
            },
    {
        let mut i: usize = 0;
        while i < self.players.len()
            invariant
                self.wf(),
                i <= self.players@.len(),
                forall|k: int| 0 <= k < i ==> (#[trigger] self@[k]).uuid != uuid@,
            decreases self.players@.len() - i,
        {
            if bytes_equal(self.players[i].uuid.as_slice(), uuid) {
                proof {
                    assert(self@[i as int].uuid == uuid@);
                    assert(has_uuid(self@, uuid@));
                    let j = index_of(self@, uuid@);
                    assert(0 <= j < self@.len() && self@[j].uuid == uuid@);
                    assert(uuids_unique(self@));
                    assert(self@[j].uuid == self@[i as int].uuid);
                }
                return Some(i);
            }
            i += 1;
        }
        None
    }

    /// Adds `player`, or, when its UUID is known already, replaces only the
    /// ping of the record that has it.
    pub fn register(&mut self, player: PlayerInfo)
        requires
            old(self).wf(),
        ensures
            final(self).wf(),
            final(self)@ == register_spec(old(self)@, player@),
    {
        match self.position(player.uuid.as_slice()) {
            Some(i) => {
                let ghost v = self@;
                let mut p = self.players[i].clone_record();
                p.ping = player.ping;
                self.players.set(i, p);
                proof {
                    assert(self@ =~= v.update(i as int, with_ping(v[i as int], player.ping)));
                    assert forall|a: int, b: int|
                        0 <= a < self@.len() && 0 <= b < self@.len()
                            && (#[trigger] self@[a]).uuid == (#[trigger] self@[b]).uuid implies a == b by {
                        assert(v[a].uuid == self@[a].uuid);
                        assert(v[b].uuid == self@[b].uuid);
                    }
                }
            },
            None => {
                let ghost v = self@;
                self.players.push(player);
                proof {
                    assert(self@ =~= v.push(player@));
                    assert forall|a: int, b: int|
                        0 <= a < self@.len() && 0 <= b < self@.len()
                            && (#[trigger] self@[a]).uuid == (#[trigger] self@[b]).uuid implies a == b by {
                        if a < v.len() && b == v.len() {
                            assert(v[a].uuid == player@.uuid);
                        }
                        if b < v.len() && a == v.len() {
                            assert(v[b].uuid == player@.uuid);
                        }
                    }
                }
            },
        }
    }

    /// Sets the ping of the record with this UUID; does nothing when there
    /// is none.
    pub fn update_ping(&mut self, uuid: &[u8], ping: i32)
        requires
            old(self).wf(),
        ensures
            final(self).wf(),
            final(self)@ == update_ping_spec(old(self)@, uuid@, ping),
    {
        match self.position(uuid) {
            Some(i) => {
                let ghost v = self@;
                let mut p = self.players[i].clone_record();
                p.ping = ping;
                self.players.set(i, p);
                proof {
                    assert(self@ =~= v.update(i as int, with_ping(v[i as int], ping)));
                    assert forall|a: int, b: int|
                        0 <= a < self@.len() && 0 <= b < self@.len()
                            && (#[trigger] self@[a]).uuid == (#[trigger] self@[b]).uuid implies a == b by {
                        assert(v[a].uuid == self@[a].uuid);
                        assert(v[b].uuid == self@[b].uuid);
                    }
                }
            },
            None => {},
        }
    }

    /// Removes the record with this UUID; does nothing when there is none.
    pub fn remove_player(&mut self, uuid: &[u8])
        requires
            old(self).wf(),
        ensures
            final(self).wf(),
            final(self)@ == remove_spec(old(self)@, uuid@),
    {
        match self.position(uuid) {
            Some(i) => {
                let ghost v = self@;
                self.players.remove(i);
                proof {
                    assert(self@ =~= v.remove(i as int));
                    assert forall|a: int, b: int|
                        0 <= a < self@.len() && 0 <= b < self@.len()
                            && (#[trigger] self@[a]).uuid == (#[trigger] self@[b]).uuid implies a == b by {
                        let a0 = if a < i { a } else { a + 1 };
                        let b0 = if b < i { b } else { b + 1 };
                        assert(v[a0].uuid == self@[a].uuid);
                        assert(v[b0].uuid == self@[b].uuid);
                    }
                }
            },
            None => {},
        }
    }
}

impl PlayerInfo {
    /// A copy of this record.
    pub fn clone_record(&self) -> (r: PlayerInfo)
        ensures
            r@ == self@,
    {
        PlayerInfo { uuid: self.uuid.clone(), username: self.username.clone(), ping: self.ping }
    }
}

/// Registering the same record twice leaves the roster as one registration
/// does: exactly one record with its UUID, carrying its ping.
pub proof fn lemma_register_twice(s: Seq<PlayerView>, p: PlayerView)
    requires
        uuids_unique(s),
    ensures
        register_spec(register_spec(s, p), p) == register_spec(s, p),
        exists|i: int|
            0 <= i < register_spec(s, p).len() && (#[trigger] register_spec(s, p)[i]).uuid == p.uuid
                && register_spec(s, p)[i].ping == p.ping && forall|j: int|
                0 <= j < register_spec(s, p).len() && (#[trigger] register_spec(s, p)[j]).uuid
                    == p.uuid ==> j == i,
{
    let s1 = register_spec(s, p);
    let i = if has_uuid(s, p.uuid) { index_of(s, p.uuid) } else { s.len() as int };
    assert(s1[i].uuid == p.uuid);
    assert forall|j: int| 0 <= j < s1.len() && (#[trigger] s1[j]).uuid == p.uuid implies j == i by {
        if j != i {
            assert(s[j] == s1[j]);
        }
    }
    assert(has_uuid(s1, p.uuid));
    let k = index_of(s1, p.uuid);
    assert(s1[k].uuid == p.uuid);
    assert(k == i);
    assert(register_spec(s1, p) =~= s1);
}

/// After a removal no record has the UUID, and removing it again changes
/// nothing.
pub proof fn lemma_remove_then_lookup(s: Seq<PlayerView>, uuid: Seq<u8>)
    requires
        uuids_unique(s),
    ensures
        !has_uuid(remove_spec(s, uuid), uuid),
        remove_spec(remove_spec(s, uuid), uuid) == remove_spec(s, uuid),
{
    let s1 = remove_spec(s, uuid);
    if has_uuid(s, uuid) {
        let i = index_of(s, uuid);
        assert forall|j: int| 0 <= j < s1.len() implies (#[trigger] s1[j]).uuid != uuid by {
            let j0 = if j < i { j } else { j + 1 };
            assert(s1[j] == s[j0]);
        }
    }
}

} // verus!
