//! The player-info packet: an action tag, a count, and that many records
//! whose shape the action fixes. Records of the add, latency and remove
//! actions become roster updates; the others are read past.

use vstd::prelude::*;
use crate::cursor::{
    blob_field, byte_field, bytes_field, take_blob, take_byte, take_bytes, take_var_int,
    var_int_field,
};
use crate::error::ProtocolError;
use crate::roster::{
    register_spec, remove_spec, update_ping_spec, PlayerInfo, PlayerView, Players,
};
use crate::text::{utf8_string, utf8_text};

verus! {

/// The number of bytes of a UUID.
pub const UUID_LEN: i32 = 16;

/// The largest action tag of the packet.
pub const MAX_ACTION: i32 = 4;

/// The mathematical value of a `RosterUpdate`.
pub enum UpdateView {
    Register(PlayerView),
    UpdatePing(Seq<u8>, i32),
    Remove(Seq<u8>),
}

/// One change to the roster that a player-info record asks for.
#[derive(Debug)]
pub enum RosterUpdate {
    /// A player joined: add it, or refresh the ping of a known one.
    Register(PlayerInfo),
    /// A player's latency changed.
    UpdatePing(Vec<u8>, i32),
    /// A player left.
    Remove(Vec<u8>),
}

impl View for RosterUpdate {
    type V = UpdateView;

    open spec fn view(&self) -> UpdateView {
        match self {
            RosterUpdate::Register(p) => UpdateView::Register(p@),
            RosterUpdate::UpdatePing(u, ping) => UpdateView::UpdatePing(u@, *ping),
            RosterUpdate::Remove(u) => UpdateView::Remove(u@),
        }
    }
}

/// The position after a flag byte and, when the flag is 1, a
/// length-prefixed run of bytes.
pub open spec fn optional_blob_end(b: Seq<u8>, pos: nat) -> Result<nat, ProtocolError> {
    match byte_field(b, pos) {
        Err(e) => Err(e),
        Ok((flag, p)) => if flag == 1 {
            match blob_field(b, p) {
                Ok((_, q)) => Ok(q),
                Err(e) => Err(e),
            }
        } else {
            Ok(p)
        },
    }
}

/// The position after `count` properties: a name, a value, and an optional
/// signature each.
pub open spec fn properties_end(b: Seq<u8>, pos: nat, count: nat) -> Result<nat, ProtocolError>
    decreases count,
{
    if count == 0 {
        Ok(pos)
    } else {
        match blob_field(b, pos) {
            Err(e) => Err(e),
            Ok((_, p1)) => match blob_field(b, p1) {
                Err(e) => Err(e),
                Ok((_, p2)) => match optional_blob_end(b, p2) {
                    Err(e) => Err(e),
                    Ok(p3) => properties_end(b, p3, (count - 1) as nat),
                },
            },
        }
    }
}

/// The body of an add record after its UUID: the player it describes and
/// the position after it.
pub open spec fn add_record(b: Seq<u8>, pos: nat, uuid: Seq<u8>) -> Result<(PlayerView, nat), ProtocolError> {
    match blob_field(b, pos) {
        Err(e) => Err(e),
        Ok((name, p1)) => match utf8_text(name) {
            None => Err(ProtocolError::Utf8DecodingFailure),
            Some(username) => match var_int_field(b, p1) {
                Err(e) => Err(e),
                Ok((count, p2)) => if count < 0 {
                    Err(ProtocolError::ProtocolViolation)
                } else {
                    match properties_end(b, p2, count as nat) {
                        Err(e) => Err(e),
                        Ok(p3) => match var_int_field(b, p3) {
                            Err(e) => Err(e),
                            Ok((_, p4)) => match var_int_field(b, p4) {
                                Err(e) => Err(e),
                                Ok((ping, p5)) => match optional_blob_end(b, p5) {
                                    Err(e) => Err(e),
                                    Ok(p6) => Ok(
                                        (PlayerView { uuid, username, ping }, p6),
                                    ),
                                },
                            },
                        },
                    }
                },
            },
        },
    }
}

/// One record of the given action at `pos`: the update it asks for, if
/// any, and the position after it.
#[verifier::opaque]
pub open spec fn record(b: Seq<u8>, pos: nat, action: i32) -> Result<(Option<UpdateView>, nat), ProtocolError> {
    match bytes_field(b, pos, 16) {
        Err(e) => Err(e),
        Ok((uuid, p)) => if action == 0 {
            match add_record(b, p, uuid) {
                Ok((player, q)) => Ok((Some(UpdateView::Register(player)), q)),
                Err(e) => Err(e),
            }
        } else if action == 1 {
            match var_int_field(b, p) {
                Ok((_, q)) => Ok((None, q)),
                Err(e) => Err(e),
            }
        } else if action == 2 {
            match var_int_field(b, p) {
                Ok((ping, q)) => Ok((Some(UpdateView::UpdatePing(uuid, ping)), q)),
                Err(e) => Err(e),
            }
        } else if action == 3 {
            match optional_blob_end(b, p) {
                Ok(q) => Ok((None, q)),
                Err(e) => Err(e),
            }
        } else if action == 4 {
            Ok((Some(UpdateView::Remove(uuid)), p))
        } else {
            Err(ProtocolError::ProtocolViolation)
        },
    }
}

/// `us` with `u` in front of it, when there is one.
pub open spec fn cons_update(u: Option<UpdateView>, us: Seq<UpdateView>) -> Seq<UpdateView> {
    match u {
        Some(x) => seq![x] + us,
        None => us,
    }
}

/// `count` records of the given action from `pos`: the updates they ask
/// for, in order, and the position after the last.
pub open spec fn records(b: Seq<u8>, pos: nat, action: i32, count: nat) -> Result<(Seq<UpdateView>, nat), ProtocolError>
    decreases count,
{
    if count == 0 {
        Ok((Seq::empty(), pos))
    } else {
        match record(b, pos, action) {
            Err(e) => Err(e),
            Ok((u, p)) => match records(b, p, action, (count - 1) as nat) {
                Err(e) => Err(e),
                Ok((us, q)) => Ok((cons_update(u, us), q)),
            },
        }
    }
}

/// A whole player-info payload: the updates it asks for and the number of
/// bytes it takes.
pub open spec fn player_info_updates(b: Seq<u8>) -> Result<(Seq<UpdateView>, nat), ProtocolError> {
    match var_int_field(b, 0) {
        Err(e) => Err(e),
        Ok((action, p1)) => if action < 0 || action > 4 {
            Err(ProtocolError::ProtocolViolation)
        } else {
            match var_int_field(b, p1) {
                Err(e) => Err(e),
                Ok((count, p2)) => if count < 0 {
                    Err(ProtocolError::ProtocolViolation)
                } else {
                    records(b, p2, action, count as nat)
                },
            }
        },
    }
}

/// The roster after one update.
pub open spec fn apply_update(s: Seq<PlayerView>, u: UpdateView) -> Seq<PlayerView> {
    match u {
        UpdateView::Register(p) => register_spec(s, p),
        UpdateView::UpdatePing(uuid, ping) => update_ping_spec(s, uuid, ping),
        UpdateView::Remove(uuid) => remove_spec(s, uuid),
    }
}

/// The roster after the updates, in order.
pub open spec fn apply_all(s: Seq<PlayerView>, us: Seq<UpdateView>) -> Seq<PlayerView>
    decreases us.len(),
{
    if us.len() == 0 {
        s
    } else {
        apply_update(apply_all(s, us.drop_last()), us.last())
    }
}

/// `acc` in front of the updates of a parse result.
pub open spec fn prepend_updates(
    acc: Seq<UpdateView>,
    r: Result<(Seq<UpdateView>, nat), ProtocolError>,
) -> Result<(Seq<UpdateView>, nat), ProtocolError> {
    match r {
        Ok((us, q)) => Ok((acc + us, q)),
        Err(e) => Err(e),
    }
}

/// The update of a record as a sequence of zero or one updates.
pub open spec fn update_seq(u: Option<UpdateView>) -> Seq<UpdateView> {
    match u {
        Some(x) => seq![x],
        None => Seq::empty(),
    }
}

proof fn lemma_prepend_empty(r: Result<(Seq<UpdateView>, nat), ProtocolError>)
    ensures
        prepend_updates(Seq::empty(), r) == r,
{
    if let Ok((us, q)) = r {
        assert(Seq::<UpdateView>::empty() + us =~= us);
    }
}

proof fn lemma_records_step(
    b: Seq<u8>,
    pos: nat,
    action: i32,
    left: nat,
    acc: Seq<UpdateView>,
    u: Option<UpdateView>,
    q: nat,
)
    requires
        left > 0,
        record(b, pos, action) == Ok::<(Option<UpdateView>, nat), ProtocolError>((u, q)),
    ensures
        prepend_updates(acc, records(b, pos, action, left)) == prepend_updates(
            acc + update_seq(u),
            records(b, q, action, (left - 1) as nat),
        ),
{
    if let Ok((us, e)) = records(b, q, action, (left - 1) as nat) {
        assert(acc + cons_update(u, us) =~= acc + update_seq(u) + us);
    }
}

proof fn lemma_records_err(b: Seq<u8>, pos: nat, action: i32, left: nat, acc: Seq<UpdateView>)
    requires
        left > 0,
        record(b, pos, action) is Err,
    ensures
        prepend_updates(acc, records(b, pos, action, left)) == records(b, pos, action, left),
        records(b, pos, action, left) == Err::<(Seq<UpdateView>, nat), ProtocolError>(
            record(b, pos, action)->Err_0,
        ),
{
}

fn skip_optional_blob(b: &[u8], pos: usize) -> (r: Result<usize, ProtocolError>)
    ensures
        match optional_blob_end(b@, pos as nat) {
            Ok(p) => r matches Ok(q) && q == p,
            Err(e) => r matches Err(f) && f == e,
        },
        r matches Ok(q) ==> pos < q <= b@.len(),
{
    match take_byte(b, pos) {
        Err(e) => Err(e),
        Ok((flag, p)) => if flag == 1 {
            match take_blob(b, p) {
                Ok((_, q)) => Ok(q),
                Err(e) => Err(e),
            }
        } else {
            Ok(p)
        },
    }
}

fn skip_properties(b: &[u8], pos: usize, count: i32) -> (r: Result<usize, ProtocolError>)
    requires
        count >= 0,
        pos <= b@.len(),
    ensures
        match properties_end(b@, pos as nat, count as nat) {
            Ok(p) => r matches Ok(q) && q == p,
            Err(e) => r matches Err(f) && f == e,
        },
        r matches Ok(q) ==> pos <= q <= b@.len(),
    decreases count,
{
    if count == 0 {
        return Ok(pos);
    }
    let p1 = match take_blob(b, pos) {
        Ok((_, p)) => p,
        Err(e) => return Err(e),
    };
    let p2 = match take_blob(b, p1) {
        Ok((_, p)) => p,
        Err(e) => return Err(e),
    };
    let p3 = match skip_optional_blob(b, p2) {
        Ok(p) => p,
        Err(e) => return Err(e),
    };
    skip_properties(b, p3, count - 1)
}

fn read_add_record(b: &[u8], pos: usize, uuid: Vec<u8>) -> (r: Result<(PlayerInfo, usize), ProtocolError>)
    ensures
        match add_record(b@, pos as nat, uuid@) {
            Ok((v, p)) => r matches Ok((w, q)) && w@ == v && q == p,
            Err(e) => r matches Err(f) && f == e,
        },
        r matches Ok((_, q)) ==> pos < q <= b@.len(),
{
    let (name, p1) = match take_blob(b, pos) {
        Ok(x) => x,
        Err(e) => return Err(e),
    };
    let username = match utf8_string(name) {
        Some(s) => s,
        None => return Err(ProtocolError::Utf8DecodingFailure),
    };
    let (count, p2) = match take_var_int(b, p1) {
        Ok(x) => x,
        Err(e) => return Err(e),
    };
    if count < 0 {
        return Err(ProtocolError::ProtocolViolation);
    }
    let p3 = match skip_properties(b, p2, count) {
        Ok(p) => p,
        Err(e) => return Err(e),
    };
    let p4 = match take_var_int(b, p3) {
        Ok((_, p)) => p,
        Err(e) => return Err(e),
    };
    let (ping, p5) = match take_var_int(b, p4) {
        Ok(x) => x,
        Err(e) => return Err(e),
    };
    let p6 = match skip_optional_blob(b, p5) {
        Ok(p) => p,
        Err(e) => return Err(e),
    };
    Ok((PlayerInfo { uuid, username, ping }, p6))
}

fn read_record(b: &[u8], pos: usize, action: i32) -> (r: Result<(Option<RosterUpdate>, usize), ProtocolError>)
    requires
        pos <= b@.len(),
    ensures
        match record(b@, pos as nat, action) {
            Ok((u, p)) => r matches Ok((w, q)) && q == p && match u {
                Some(x) => w matches Some(y) && y@ == x,
                None => w is None,
            },
            Err(e) => r matches Err(f) && f == e,
        },
        r matches Ok((_, q)) ==> pos < q <= b@.len(),
{
    reveal(record);
    let (uuid, p) = match take_bytes(b, pos, UUID_LEN) {
        Ok(x) => x,
        Err(e) => return Err(e),
    };
    if action == 0 {
        match read_add_record(b, p, uuid) {
            Ok((player, q)) => Ok((Some(RosterUpdate::Register(player)), q)),
            Err(e) => Err(e),
        }
    } else if action == 1 {
        match take_var_int(b, p) {
            Ok((_, q)) => Ok((None, q)),
            Err(e) => Err(e),
        }
    } else if action == 2 {
        match take_var_int(b, p) {
            Ok((ping, q)) => Ok((Some(RosterUpdate::UpdatePing(uuid, ping)), q)),
            Err(e) => Err(e),
        }
    } else if action == 3 {
        match skip_optional_blob(b, p) {
            Ok(q) => Ok((None, q)),
            Err(e) => Err(e),
        }
    } else if action == 4 {
        Ok((Some(RosterUpdate::Remove(uuid)), p))
    } else {
        Err(ProtocolError::ProtocolViolation)
    }
}

/// Decodes a player-info payload (what follows the packet ID) into the
/// roster updates its records ask for, in order, and the number of bytes
/// the records take.
pub fn decode_player_info(buffer: &[u8]) -> (r: Result<(Vec<RosterUpdate>, usize), ProtocolError>)
    ensures
        match player_info_updates(buffer@) {
            Ok((us, n)) => r matches Ok((v, m)) && v@.map_values(|u: RosterUpdate| u@) == us
                && m == n,
            Err(e) => r matches Err(f) && f == e,
        },
{
    let (action, p1) = match take_var_int(buffer, 0) {
        Ok(x) => x,
        Err(e) => return Err(e),
    };
    if action < 0 || action > MAX_ACTION {
        return Err(ProtocolError::ProtocolViolation);
    }
    let (count, p2) = match take_var_int(buffer, p1) {
        Ok(x) => x,
        Err(e) => return Err(e),
    };
    if count < 0 {
        return Err(ProtocolError::ProtocolViolation);
    }
    let ghost b = buffer@;
    let mut updates: Vec<RosterUpdate> = Vec::new();
    let mut pos: usize = p2;
    let mut left: i32 = count;
    proof {
        assert(player_info_updates(b) == records(b, p2 as nat, action, count as nat));
        assert(updates@.map_values(|u: RosterUpdate| u@) =~= Seq::<UpdateView>::empty());
        lemma_prepend_empty(records(b, p2 as nat, action, count as nat));
    }
    while left > 0
        invariant
            0 <= left <= count,
            pos <= b.len(),
            b == buffer@,
            player_info_updates(b) == records(b, p2 as nat, action, count as nat),
            records(b, p2 as nat, action, count as nat) == prepend_updates(
                updates@.map_values(|u: RosterUpdate| u@),
                records(b, pos as nat, action, left as nat),
            ),
        decreases left,
    {
        let ghost before = updates@.map_values(|u: RosterUpdate| u@);
        match read_record(buffer, pos, action) {
            Err(e) => {
                proof {
                    lemma_records_err(b, pos as nat, action, left as nat, before);
                    assert(record(b, pos as nat, action)->Err_0 == e);
                }
                return Err(e);
            },
            Ok((u, q)) => {
                let ghost gu = record(b, pos as nat, action)->Ok_0.0;
                proof {
                    lemma_records_step(b, pos as nat, action, left as nat, before, gu, q as nat);
                }
                match u {
                    Some(x) => {
                        updates.push(x);
                        proof {
                            assert(updates@.map_values(|u: RosterUpdate| u@) =~= before + seq![
                                gu->Some_0,
                            ]);
                        }
                    },
                    None => {},
                }
                pos = q;
            },
        }
        left = left - 1;
    }
    proof {
        assert(updates@.map_values(|u: RosterUpdate| u@) + Seq::<UpdateView>::empty()
            =~= updates@.map_values(|u: RosterUpdate| u@));
    }
    Ok((updates, pos))
}

impl Players {
    /// Applies one update.
    pub fn apply(&mut self, update: &RosterUpdate)
        requires
            old(self).wf(),
        ensures
            final(self).wf(),
            final(self)@ == apply_update(old(self)@, update@),
    {
        match update {
            RosterUpdate::Register(p) => self.register(p.clone_record()),
            RosterUpdate::UpdatePing(uuid, ping) => self.update_ping(uuid.as_slice(), *ping),
            RosterUpdate::Remove(uuid) => self.remove_player(uuid.as_slice()),
        }
    }
}

/// Decodes a player-info payload and applies its updates to `players`, in
/// order; on an error the roster is left as it was.
pub fn player_info(buffer: &[u8], players: &mut Players) -> (r: Result<(), ProtocolError>)
    requires
        old(players).wf(),
    ensures
        final(players).wf(),
        match player_info_updates(buffer@) {
            Ok((us, _)) => r is Ok && final(players)@ == apply_all(old(players)@, us),
            Err(e) => r == Err::<(), ProtocolError>(e) && final(players)@ == old(players)@,
        },
{
    let (updates, _) = match decode_player_info(buffer) {
        Ok(x) => x,
        Err(e) => return Err(e),
    };
    let ghost us = updates@.map_values(|u: RosterUpdate| u@);
    let mut i: usize = 0;
    while i < updates.len()
        invariant
            i <= updates@.len(),
            us == updates@.map_values(|u: RosterUpdate| u@),
            players.wf(),
            players@ == apply_all(old(players)@, us.subrange(0, i as int)),
        decreases updates@.len() - i,
    {
        players.apply(&updates[i]);
        proof {
            assert(us.subrange(0, i + 1).drop_last() =~= us.subrange(0, i as int));
        }
        i += 1;
    }
    proof {
        assert(us.subrange(0, updates@.len() as int) =~= us);
    }
    Ok(())
}

} // verus!
