use vstd::prelude::*;
use crate::ids::Uri;

verus! {

/// What kind of domain object an activity ultimately mutates.
#[derive(Clone, Copy, PartialEq, Eq, Structural, Debug)]
pub enum ObjectKind {
    Post,
    Comment,
    Community,
    PrivateMessage,
}

/// A vote an actor holds on an object. Re-applying the same vote is a no-op;
/// a new vote by the same actor replaces the old one.
#[derive(Clone, Copy, PartialEq, Eq, Structural, Debug)]
pub enum VoteKind {
    Like,
    Dislike,
}

/// The locally stored copy of a domain object, reduced to the fields the
/// federation engine reads and writes. `content` is an opaque token for the
/// mutable fields; `updated` is the last federation timestamp applied to it;
/// `deleted` is the tombstone mark: the record is retained so that stale
/// updates cannot resurrect the object.
#[derive(Clone, Copy, PartialEq, Eq, Structural, Debug)]
pub struct DomainObject {
    pub id: Uri,
    pub kind: ObjectKind,
    pub creator: Uri,
    pub content: u64,
    pub updated: u64,
    pub deleted: bool,
}

impl DomainObject {
    /// The content a reader can observe: nothing once the tombstone is set.
    pub open spec fn visible_content(self) -> Option<u64> {
        if self.deleted {
            None
        } else {
            Some(self.content)
        }
    }
}

/// One recorded vote: `actor`'s vote on `object`.
#[derive(Clone, Copy, PartialEq, Eq, Structural, Debug)]
pub struct VoteRec {
    pub object: Uri,
    pub actor: Uri,
    pub vote: VoteKind,
}

/// One recorded follow relation: `follower` follows `community`.
#[derive(Clone, Copy, PartialEq, Eq, Structural, Debug)]
pub struct FollowRec {
    pub community: Uri,
    pub follower: Uri,
}

/// The engine's view of local storage: domain objects keyed by URI, plus the
/// vote and follow relations the per-kind rules maintain. Object ids are
/// unique; each (object, actor) pair holds at most one vote; each
/// (community, follower) pair appears at most once.
pub struct ObjectStore {
    pub objs: Vec<DomainObject>,
    pub votes: Vec<VoteRec>,
    pub follows: Vec<FollowRec>,
}

pub open spec fn has_obj(s: Seq<DomainObject>, id: Uri) -> bool {
    exists|j: int| 0 <= j < s.len() && s[j].id == id
}

pub open spec fn has_vote(s: Seq<VoteRec>, object: Uri, actor: Uri) -> bool {
    exists|j: int| 0 <= j < s.len() && s[j].object == object && s[j].actor == actor
}

pub open spec fn has_follow(s: Seq<FollowRec>, community: Uri, follower: Uri) -> bool {
    exists|j: int| 0 <= j < s.len() && s[j].community == community && s[j].follower == follower
}

impl ObjectStore {
    /// Key uniqueness over all three relations.
    pub open spec fn wf(self) -> bool {
        &&& forall|i: int, j: int|
            0 <= i < j < self.objs@.len() ==> self.objs@[i].id != self.objs@[j].id
        &&& forall|i: int, j: int|
            0 <= i < j < self.votes@.len() ==> !(self.votes@[i].object == self.votes@[j].object
                && self.votes@[i].actor == self.votes@[j].actor)
        &&& forall|i: int, j: int|
            0 <= i < j < self.follows@.len() ==> !(self.follows@[i].community
                == self.follows@[j].community && self.follows@[i].follower
                == self.follows@[j].follower)
    }

    /// An empty store.
    pub fn new() -> (r: ObjectStore)
        ensures
            r.wf(),
            r.objs@ =~= Seq::<DomainObject>::empty(),
            r.votes@ =~= Seq::<VoteRec>::empty(),
            r.follows@ =~= Seq::<FollowRec>::empty(),
    {
        ObjectStore { objs: Vec::new(), votes: Vec::new(), follows: Vec::new() }
    }

    /// Index of the object with this id, if it is stored.
    pub fn find_obj(&self, id: Uri) -> (r: Option<usize>)
        ensures
            match r {
                Some(i) => i < self.objs@.len() && self.objs@[i as int].id == id,
                None => !has_obj(self.objs@, id),
            },
    {
        let mut i: usize = 0;
        while i < self.objs.len()
            invariant
                i <= self.objs@.len(),
                forall|j: int| 0 <= j < i ==> self.objs@[j].id != id,
            decreases self.objs@.len() - i,
        {
            if self.objs[i].id == id {
                return Some(i);
            }
            i = i + 1;
        }
        None
    }

    /// The content a reader can observe for the object with this id:
    /// `None` when no such object is stored or its tombstone is set.
    pub fn visible_content_of(&self, id: Uri) -> (r: Option<u64>)
        requires
            self.wf(),
        ensures
            r is Some ==> exists|j: int|
                0 <= j < self.objs@.len() && (#[trigger] self.objs@[j]).id == id
                    && self.objs@[j].visible_content() == r,
            r is None ==> forall|j: int|
                0 <= j < self.objs@.len() && (#[trigger] self.objs@[j]).id == id
                    ==> self.objs@[j].visible_content() is None,
    {
        match self.find_obj(id) {
            Some(i) => {
                let o = self.objs[i];
                if o.deleted {
                    proof {
                        assert forall|j: int|
                            0 <= j < self.objs@.len() && (#[trigger] self.objs@[j]).id == id
                                implies self.objs@[j].visible_content() is None by {
                            if j != i as int {
                                assert(self.objs@[j].id != self.objs@[i as int].id);
                            }
                        }
                    }
                    None
                } else {
                    Some(o.content)
                }
            },
            None => None,
        }
    }

    /// Index of `actor`'s vote on `object`, if one is recorded.
    pub fn find_vote(&self, object: Uri, actor: Uri) -> (r: Option<usize>)
        ensures
            match r {
                Some(i) => i < self.votes@.len() && self.votes@[i as int].object == object
                    && self.votes@[i as int].actor == actor,
                None => !has_vote(self.votes@, object, actor),
            },
    {
        let mut i: usize = 0;
        while i < self.votes.len()
            invariant
                i <= self.votes@.len(),
                forall|j: int|
                    0 <= j < i ==> !(self.votes@[j].object == object && self.votes@[j].actor
                        == actor),
            decreases self.votes@.len() - i,
        {
            if self.votes[i].object == object && self.votes[i].actor == actor {
                return Some(i);
            }
            i = i + 1;
        }
        None
    }

    /// Index of the follow relation, if one is recorded.
    pub fn find_follow(&self, community: Uri, follower: Uri) -> (r: Option<usize>)
        ensures
            match r {
                Some(i) => i < self.follows@.len() && self.follows@[i as int].community
                    == community && self.follows@[i as int].follower == follower,
                None => !has_follow(self.follows@, community, follower),
            },
    {
        let mut i: usize = 0;
        while i < self.follows.len()
            invariant
                i <= self.follows@.len(),
                forall|j: int|
                    0 <= j < i ==> !(self.follows@[j].community == community
                        && self.follows@[j].follower == follower),
            decreases self.follows@.len() - i,
        {
            if self.follows[i].community == community && self.follows[i].follower == follower {
                return Some(i);
            }
            i = i + 1;
        }
        None
    }
}

} // verus!
