use vstd::prelude::*;
use crate::outside::{fresh_id, now_timestamp};
use crate::records::{
    RecordView, Stamp, StampHistory, StampIdList, StampRecords, StampUserInfo, User, UserList,
    UserName, UserStampList,
};
use crate::table::{Replica, Table};

verus! {

/// Why a request was turned down.
#[derive(Clone, Copy, Debug, PartialEq, Eq, Structural)]
pub enum TourError {
    /// No session, a session with nothing pending, or an admin caller off the
    /// loopback path.
    Unauthorized,
    /// The pending checkpoint id was empty.
    NotFound,
}

/// The four stores, as mathematical values.
pub struct TourState {
    /// Ids of the checkpoints of the catalog.
    pub catalog: Set<Seq<char>>,
    /// Session id to display name.
    pub users: Map<Seq<char>, Seq<char>>,
    /// Session id to the checkpoint id that it may redeem.
    pub pending: Map<Seq<char>, Seq<char>>,
    /// Checkpoint id to its redemption records, oldest first.
    pub history: Map<Seq<char>, Seq<RecordView>>,
}

pub open spec fn session_view(session: Option<&String>) -> Option<Seq<char>> {
    match session {
        Some(s) => Some(s@),
        None => None,
    }
}

/// The records of a checkpoint; none where the history has no entry for it.
pub open spec fn records_of(h: Map<Seq<char>, Seq<RecordView>>, stamp: Seq<char>) -> Seq<RecordView> {
    if h.contains_key(stamp) {
        h[stamp]
    } else {
        Seq::empty()
    }
}

/// The history that a freshly loaded catalog starts with: no records for each
/// checkpoint.
pub open spec fn fresh_history(catalog: Set<Seq<char>>) -> Map<Seq<char>, Seq<RecordView>> {
    Map::new(|k: Seq<char>| catalog.contains(k), |k: Seq<char>| Seq::empty())
}

/// A visit: it is recorded as pending only for a known session and a known
/// checkpoint, replacing what that session had pending.
pub open spec fn check_step(s: TourState, session: Option<Seq<char>>, stamp: Seq<char>) -> TourState {
    match session {
        Some(id) => if s.users.contains_key(id) && s.catalog.contains(stamp) {
            TourState { pending: s.pending.insert(id, stamp), ..s }
        } else {
            s
        },
        None => s,
    }
}

/// The record that a redemption by `id` at time `ts` appends.
pub open spec fn redeem_record(s: TourState, id: Seq<char>, ts: Seq<char>) -> RecordView {
    RecordView { user_name: s.users[id], user_id: id, timestamp: ts }
}

/// What a redemption answers: the checkpoint id that was pending.
pub open spec fn redeem_result(s: TourState, session: Option<Seq<char>>) -> Result<
    Seq<char>,
    TourError,
> {
    match session {
        Some(id) => if !s.pending.contains_key(id) {
            Err(TourError::Unauthorized)
        } else if s.pending[id].len() == 0 {
            Err(TourError::NotFound)
        } else {
            Ok(s.pending[id])
        },
        None => Err(TourError::Unauthorized),
    }
}

/// What a redemption does: the pending entry is taken away and one record is
/// appended to the history of its checkpoint.
pub open spec fn redeem_step(s: TourState, session: Option<Seq<char>>, ts: Seq<char>) -> TourState {
    match session {
        Some(id) => if s.pending.contains_key(id) {
            let stamp = s.pending[id];
            TourState {
                pending: s.pending.remove(id),
                history: s.history.insert(
                    stamp,
                    records_of(s.history, stamp).push(redeem_record(s, id, ts)),
                ),
                ..s
            }
        } else {
            s
        },
        None => s,
    }
}

/// What a registration under a fresh id does.
pub open spec fn register_step(s: TourState, id: Seq<char>, name: Seq<char>) -> TourState {
    TourState { users: s.users.insert(id, name), ..s }
}

/// A successful redemption: the checkpoint and the record appended for it.
#[derive(Clone, Debug)]
pub struct Redemption {
    pub stamp_id: String,
    pub record: StampUserInfo,
}

pub open spec fn outcome(r: Result<Redemption, TourError>) -> Result<Seq<char>, TourError> {
    match r {
        Ok(p) => Ok(p.stamp_id@),
        Err(e) => Err(e),
    }
}

/// The service that owns the four stores.
#[derive(Debug)]
pub struct StampService {
    stamp_id_list: StampIdList,
    user_list: UserList,
    user_stamp_list: UserStampList,
    stamp_history: StampHistory,
}

impl View for StampService {
    type V = TourState;

    closed spec fn view(&self) -> TourState {
        TourState {
            catalog: self.stamp_id_list@.dom(),
            users: self.user_list@,
            pending: self.user_stamp_list@,
            history: self.stamp_history@,
        }
    }
}

/// Appends `rec` to the records of `stamp`, starting them where there were none.
fn append_record(history: &mut StampHistory, stamp: String, rec: StampUserInfo)
    requires
        old(history).wf(),
    ensures
        final(history).wf(),
        final(history)@ == old(history)@.insert(stamp@, records_of(old(history)@, stamp@).push(rec@)),
{
    let mut recs = match history.remove(&stamp) {
        Some(r) => r,
        None => StampRecords::new(),
    };
    recs.push(rec);
    history.insert(stamp, recs);
    assert(history@ =~= old(history)@.insert(stamp@, records_of(old(history)@, stamp@).push(rec@)));
}

/// The part of a history that speaks of checkpoints of the catalog.
fn history_within(h: StampHistory, catalog: &StampIdList) -> (r: StampHistory)
    requires
        h.wf(),
        catalog.wf(),
    ensures
        r.wf(),
        r@ == h@.restrict(catalog@.dom()),
{
    let ghost cat = catalog@.dom();
    let mut rest = h.into_pairs();
    let ghost all = rest@;
    let mut t: StampHistory = Table::new();
    while rest.len() > 0
        invariant
            t.wf(),
            catalog.wf(),
            cat == catalog@.dom(),
            rest@.len() <= all.len(),
            rest@ == all.subrange(all.len() - rest@.len(), all.len() as int),
            t@ == crate::table::pairs_map(all.subrange(0, all.len() - rest@.len())).restrict(cat),
        decreases rest@.len(),
    {
        let ghost done = all.subrange(0, all.len() - rest@.len());
        let (k, v) = rest.remove(0);
        proof {
            let next = all.subrange(0, all.len() - rest@.len());
            assert(next.drop_last() == done);
            assert(next.last() == (k, v));
        }
        if catalog.contains_key(&k) {
            t.insert(k, v);
            proof {
                let next = all.subrange(0, all.len() - rest@.len());
                assert(t@ =~= crate::table::pairs_map(next).restrict(cat));
            }
        } else {
            proof {
                let next = all.subrange(0, all.len() - rest@.len());
                assert(t@ =~= crate::table::pairs_map(next).restrict(cat));
            }
        }
    }
    assert(all.subrange(0, all.len() as int) == all);
    t
}

impl StampService {
    /// The service's invariant: every pending entry belongs to a registered
    /// session and names a checkpoint of the catalog, and the history speaks
    /// only of checkpoints of the catalog.
    pub closed spec fn wf(&self) -> bool {
        &&& self.stamp_id_list.wf()
        &&& self.user_list.wf()
        &&& self.user_stamp_list.wf()
        &&& self.stamp_history.wf()
        &&& forall|id: Seq<char>| #[trigger]
            self.user_stamp_list@.contains_key(id) ==> self.user_list@.contains_key(id)
                && self.stamp_id_list@.contains_key(self.user_stamp_list@[id])
        &&& forall|stamp: Seq<char>| #[trigger]
            self.stamp_history@.contains_key(stamp) ==> self.stamp_id_list@.contains_key(stamp)
    }

    /// Starts the service from the catalog and from what storage held, if
    /// anything: no sessions, or the history of no redemptions, where it held
    /// nothing. Stored history of checkpoints that the catalog no longer lists
    /// is left out.
    pub fn start(
        stamp_id_list: StampIdList,
        stored_users: Option<UserList>,
        stored_history: Option<StampHistory>,
    ) -> (r: StampService)
        requires
            stamp_id_list.wf(),
            match stored_users {
                Some(u) => u.wf(),
                None => true,
            },
            match stored_history {
                Some(h) => h.wf(),
                None => true,
            },
        ensures
            r.wf(),
            r@.catalog == stamp_id_list@.dom(),
            r@.users == match stored_users {
                Some(u) => u@,
                None => Map::empty(),
            },
            r@.pending == Map::<Seq<char>, Seq<char>>::empty(),
            r@.history == match stored_history {
                Some(h) => h@.restrict(stamp_id_list@.dom()),
                None => fresh_history(stamp_id_list@.dom()),
            },
    {
        let users = match stored_users {
            Some(u) => u,
            None => Table::new(),
        };
        let history = match stored_history {
            Some(h) => history_within(h, &stamp_id_list),
            None => {
                let copy = stamp_id_list.snapshot();
                stamp_history(copy)
            },
        };
        StampService {
            stamp_id_list,
            user_list: users,
            user_stamp_list: Table::new(),
            stamp_history: history,
        }
    }

    /// Records a visit of `stamp_id` by `session`. Whatever happens, nothing is
    /// answered: an unknown session or checkpoint leaves everything as it was.
    pub fn handle_check(&mut self, session: Option<&String>, stamp_id: &String)
        requires
            old(self).wf(),
        ensures
            final(self).wf(),
            final(self)@ == check_step(old(self)@, session_view(session), stamp_id@),
    {
        if let Some(id) = session {
            if self.user_list.contains_key(id) && self.stamp_id_list.contains_key(stamp_id) {
                self.user_stamp_list.insert(id.clone(), stamp_id.clone());
            }
        }
    }

    /// Redeems what `session` has pending, with `timestamp` as the time of the
    /// record.
    pub fn redeem_at(&mut self, session: Option<&String>, timestamp: String) -> (r: Result<
        Redemption,
        TourError,
    >)
        requires
            old(self).wf(),
        ensures
            final(self).wf(),
            final(self)@ == redeem_step(old(self)@, session_view(session), timestamp@),
            outcome(r) == redeem_result(old(self)@, session_view(session)),
            r is Ok ==> r->Ok_0.record@ == redeem_record(old(self)@, session->0@, timestamp@),
    {
        let id = match session {
            Some(id) => id,
            None => return Err(TourError::Unauthorized),
        };
        let stamp_id = match self.user_stamp_list.remove(id) {
            Some(s) => s,
            None => return Err(TourError::Unauthorized),
        };
        let user_name = match self.user_list.get(id) {
            Some(n) => n.clone(),
            None => {
                assert(false);
                return Err(TourError::Unauthorized);
            },
        };
        let record = StampUserInfo { user_name, user_id: id.clone(), timestamp };
        let answer = record.replica();
        append_record(&mut self.stamp_history, stamp_id.clone(), record);
        if stamp_id.as_str().is_empty() {
            return Err(TourError::NotFound);
        }
        Ok(Redemption { stamp_id, record: answer })
    }

    /// Redeems what `session` has pending, stamped with the current time.
    pub fn redeem(&mut self, session: Option<&String>) -> (r: Result<Redemption, TourError>)
        requires
            old(self).wf(),
        ensures
            final(self).wf(),
            exists|ts: Seq<char>|
                final(self)@ == redeem_step(old(self)@, session_view(session), ts),
            outcome(r) == redeem_result(old(self)@, session_view(session)),
            r is Ok ==> r->Ok_0.record@ == redeem_record(
                old(self)@,
                session->0@,
                r->Ok_0.record.timestamp@,
            ),
            r is Ok ==> final(self)@ == redeem_step(
                old(self)@,
                session_view(session),
                r->Ok_0.record.timestamp@,
            ),
    {
        let timestamp = now_timestamp();
        self.redeem_at(session, timestamp)
    }

    /// Registers `user` under its own id, unless that id is taken already.
    pub fn register(&mut self, user: &User) -> (r: bool)
        requires
            old(self).wf(),
        ensures
            final(self).wf(),
            r == !old(self)@.users.contains_key(user.user_id@),
            r ==> final(self)@ == register_step(old(self)@, user.user_id@, user.user_name@),
            !r ==> final(self)@ == old(self)@,
    {
        if self.user_list.contains_key(&user.user_id) {
            false
        } else {
            self.user_list.insert(user.user_id.clone(), user.user_name.clone());
            true
        }
    }

    /// Registers a participant of display name `name` under a freshly drawn
    /// id; `None` only where every draw hit an id already taken, which cannot
    /// happen while the directory is empty.
    pub fn handle_login(&mut self, name: UserName) -> (r: Option<User>)
        requires
            old(self).wf(),
        ensures
            final(self).wf(),
            old(self)@.users.dom().is_empty() ==> r is Some,
            match r {
                Some(u) => {
                    &&& u.user_name@ == name.user_name@
                    &&& !old(self)@.users.contains_key(u.user_id@)
                    &&& final(self)@ == register_step(old(self)@, u.user_id@, u.user_name@)
                },
                None => final(self)@ == old(self)@,
            },
    {
        let mut attempt: u64 = 0;
        while attempt < ID_ATTEMPTS
            invariant
                self.wf(),
                self@ == old(self)@,
                old(self)@.users.dom().is_empty() ==> attempt == 0,
            decreases ID_ATTEMPTS - attempt,
        {
            let user = user_registration(UserName { user_name: name.user_name.clone() });
            proof {
                if old(self)@.users.dom().is_empty() {
                    assert(!old(self)@.users.dom().contains(user.user_id@));
                }
            }
            if self.register(&user) {
                return Some(user);
            }
            attempt = attempt + 1;
        }
        None
    }

    /// Answers an operator command. Only a caller on the loopback path is
    /// served; "stamp status" hands out the history and "save all" the
    /// directory and the history, as they stand, for storage.
    pub fn handle_admin(&self, command: &String, is_loopback: bool) -> (r: Result<
        AdminReply,
        TourError,
    >)
        requires
            self.wf(),
        ensures
            !is_loopback ==> r == Err::<AdminReply, TourError>(TourError::Unauthorized),
            is_loopback ==> r is Ok,
            is_loopback && command@ == STATUS_COMMAND@ ==> match r->Ok_0 {
                AdminReply::Status(h) => h.wf() && h@ == self@.history,
                _ => false,
            },
            is_loopback && command@ == SAVE_COMMAND@ ==> match r->Ok_0 {
                AdminReply::SaveAll(u, h) => u.wf() && u@ == self@.users && h.wf() && h@
                    == self@.history,
                _ => false,
            },
            is_loopback && command@ != STATUS_COMMAND@ && command@ != SAVE_COMMAND@ ==> r->Ok_0
                is Unrecognized,
    {
        if !is_loopback {
            return Err(TourError::Unauthorized);
        }
        proof {
            reveal_strlit("stamp status");
            reveal_strlit("save all");
            assert(STATUS_COMMAND@.len() != SAVE_COMMAND@.len());
        }
        if *command == STATUS_COMMAND.to_owned() {
            Ok(AdminReply::Status(self.stamp_history.snapshot()))
        } else if *command == SAVE_COMMAND.to_owned() {
            Ok(AdminReply::SaveAll(self.user_list.snapshot(), self.stamp_history.snapshot()))
        } else {
            Ok(AdminReply::Unrecognized)
        }
    }

    /// The session directory.
    pub fn users(&self) -> (r: &UserList)
        requires
            self.wf(),
        ensures
            r.wf(),
            r@ == self@.users,
    {
        &self.user_list
    }

    /// The redemption history.
    pub fn history(&self) -> (r: &StampHistory)
        requires
            self.wf(),
        ensures
            r.wf(),
            r@ == self@.history,
    {
        &self.stamp_history
    }

    /// The checkpoint that `session` may redeem, if any.
    pub fn pending_for(&self, session: &String) -> (r: Option<&String>)
        requires
            self.wf(),
        ensures
            match r {
                Some(s) => self@.pending.contains_key(session@) && s@ == self@.pending[session@],
                None => !self@.pending.contains_key(session@),
            },
    {
        self.user_stamp_list.get(session)
    }

    /// The checkpoint catalog.
    pub fn catalog(&self) -> (r: &StampIdList)
        requires
            self.wf(),
        ensures
            r.wf(),
            r@.dom() == self@.catalog,
    {
        &self.stamp_id_list
    }
}

/// How many ids a registration draws before it gives up.
pub const ID_ATTEMPTS: u64 = 8;

/// The operator command that stores and shows the history.
pub const STATUS_COMMAND: &'static str = "stamp status";

/// The operator command that stores the directory and the history.
pub const SAVE_COMMAND: &'static str = "save all";

/// What an operator command asks of storage.
#[derive(Debug)]
pub enum AdminReply {
    /// Store and show this history.
    Status(StampHistory),
    /// Store this directory and this history.
    SaveAll(UserList, StampHistory),
    /// The command is not one of the known ones; nothing to do.
    Unrecognized,
}

/// Makes a participant of display name `name` under a freshly drawn id.
pub fn user_registration(name: UserName) -> (u: User)
    ensures
        u.user_name@ == name.user_name@,
        crate::outside::is_uuid_text(u.user_id@),
{
    User { user_name: name.user_name, user_id: fresh_id() }
}

/// The catalog that a list of checkpoints denotes, keyed by checkpoint id: a
/// later checkpoint with the same id replaces an earlier one.
pub open spec fn stamps_map(s: Seq<Stamp>) -> Map<Seq<char>, (Seq<char>, Seq<char>, Seq<char>, Seq<char>)>
    decreases s.len(),
{
    if s.len() == 0 {
        Map::empty()
    } else {
        stamps_map(s.drop_last()).insert(s.last().stamp_id@, s.last()@)
    }
}

/// Builds the checkpoint catalog from the checkpoints that the configuration
/// lists.
pub fn stamp_db(stamps: Vec<Stamp>) -> (r: StampIdList)
    ensures
        r.wf(),
        r@ == stamps_map(stamps@),
{
    let ghost all = stamps@;
    let mut t: StampIdList = Table::new();
    let mut rest = stamps;
    while rest.len() > 0
        invariant
            t.wf(),
            rest@.len() <= all.len(),
            rest@ == all.subrange(all.len() - rest@.len(), all.len() as int),
            t@ == stamps_map(all.subrange(0, all.len() - rest@.len())),
        decreases rest@.len(),
    {
        let ghost done = all.subrange(0, all.len() - rest@.len());
        let stamp = rest.remove(0);
        t.insert(stamp.stamp_id.clone(), stamp);
        proof {
            let next = all.subrange(0, all.len() - rest@.len());
            assert(next.drop_last() == done);
            assert(next.last() == stamp);
        }
    }
    assert(all.subrange(0, all.len() as int) == all);
    t
}

/// Builds the empty history of every checkpoint of the catalog.
pub fn stamp_history(stamp_id_list: StampIdList) -> (r: StampHistory)
    requires
        stamp_id_list.wf(),
    ensures
        r.wf(),
        r@ == fresh_history(stamp_id_list@.dom()),
{
    let stamps = stamp_id_list.pairs();
    let mut h: StampHistory = Table::new();
    let mut i: usize = 0;
    while i < stamps.len()
        invariant
            h.wf(),
            i <= stamps@.len(),
            crate::table::pairs_map(stamps@) == stamp_id_list@,
            h@ == fresh_history(crate::table::pairs_map(stamps@.subrange(0, i as int)).dom()),
        decreases stamps@.len() - i,
    {
        let ghost before = stamps@.subrange(0, i as int);
        h.insert(stamps[i].0.clone(), StampRecords::new());
        proof {
            let after = stamps@.subrange(0, i + 1);
            assert(after.drop_last() == before);
            assert(h@ =~= fresh_history(crate::table::pairs_map(after).dom()));
        }
        i = i + 1;
    }
    assert(stamps@.subrange(0, stamps@.len() as int) == stamps@);
    h
}

} // verus!
