use vstd::prelude::*;
use crate::table::{Replica, Table};

verus! {

/// A checkpoint of the fixed catalog.
#[derive(Clone, Debug)]
pub struct Stamp {
    pub stamp_id: String,
    pub stamp_location: String,
    pub stamp_name: String,
    pub stamp_desc: String,
}

impl View for Stamp {
    type V = (Seq<char>, Seq<char>, Seq<char>, Seq<char>);

    open spec fn view(&self) -> Self::V {
        (self.stamp_id@, self.stamp_location@, self.stamp_name@, self.stamp_desc@)
    }
}

impl Replica for Stamp {
    fn replica(&self) -> (r: Stamp) {
        Stamp {
            stamp_id: self.stamp_id.clone(),
            stamp_location: self.stamp_location.clone(),
            stamp_name: self.stamp_name.clone(),
            stamp_desc: self.stamp_desc.clone(),
        }
    }
}

/// One redemption of a checkpoint by a participant.
#[derive(Clone, Debug)]
pub struct StampUserInfo {
    pub user_name: String,
    pub user_id: String,
    pub timestamp: String,
}

/// What a redemption record holds.
pub struct RecordView {
    pub user_name: Seq<char>,
    pub user_id: Seq<char>,
    pub timestamp: Seq<char>,
}

impl View for StampUserInfo {
    type V = RecordView;

    open spec fn view(&self) -> RecordView {
        RecordView { user_name: self.user_name@, user_id: self.user_id@, timestamp: self.timestamp@ }
    }
}

impl Replica for StampUserInfo {
    fn replica(&self) -> (r: StampUserInfo) {
        StampUserInfo {
            user_name: self.user_name.clone(),
            user_id: self.user_id.clone(),
            timestamp: self.timestamp.clone(),
        }
    }
}

/// The redemptions of one checkpoint, oldest first.
#[derive(Clone, Debug)]
pub struct StampRecords {
    pub records: Vec<StampUserInfo>,
}

impl View for StampRecords {
    type V = Seq<RecordView>;

    open spec fn view(&self) -> Seq<RecordView> {
        self.records@.map_values(|r: StampUserInfo| r@)
    }
}

impl StampRecords {
    pub fn new() -> (r: StampRecords)
        ensures
            r@ == Seq::<RecordView>::empty(),
    {
        let r = StampRecords { records: Vec::new() };
        assert(r@ =~= Seq::<RecordView>::empty());
        r
    }

    /// Appends one record after the others.
    pub fn push(&mut self, rec: StampUserInfo)
        ensures
            final(self)@ == old(self)@.push(rec@),
    {
        self.records.push(rec);
        assert(self@ =~= old(self)@.push(rec@));
    }

    pub fn len(&self) -> (n: usize)
        ensures
            n == self@.len(),
    {
        self.records.len()
    }
}

impl Replica for StampRecords {
    fn replica(&self) -> (r: StampRecords) {
        let mut copy: Vec<StampUserInfo> = Vec::new();
        let mut i: usize = 0;
        while i < self.records.len()
            invariant
                i <= self.records@.len(),
                copy@.len() == i,
                forall|j: int| 0 <= j < i ==> copy@[j]@ == self.records@[j]@,
            decreases self.records@.len() - i,
        {
            let rec = self.records[i].replica();
            copy.push(rec);
            i = i + 1;
        }
        let r = StampRecords { records: copy };
        assert(r@ =~= self@);
        r
    }
}

/// A registered participant.
#[derive(Clone, Debug)]
pub struct User {
    pub user_name: String,
    pub user_id: String,
}

/// The display name that a participant registers with.
#[derive(Clone, Debug)]
pub struct UserName {
    pub user_name: String,
}

/// The checkpoint catalog: checkpoint id to checkpoint.
pub type StampIdList = Table<Stamp>;

/// The session directory: session id to display name.
pub type UserList = Table<String>;

/// The pending redemptions: session id to checkpoint id.
pub type UserStampList = Table<String>;

/// The redemption history: checkpoint id to its records.
pub type StampHistory = Table<StampRecords>;

} // verus!
