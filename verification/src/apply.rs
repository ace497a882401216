use vstd::prelude::*;
use vstd::assert_seqs_equal;
use crate::ids::Uri;
use crate::errors::{EngineError, IngestOutcome};
use crate::activity::{Activity, ActivityKind};
use crate::store::{
    has_follow, has_obj, has_vote, DomainObject, FollowRec, ObjectStore, VoteKind, VoteRec,
};

verus! {

/// The mathematical value of an `ObjectStore`: its three relations as
/// sequences.
#[verifier::ext_equal]
pub ghost struct StoreModel {
    pub objs: Seq<DomainObject>,
    pub votes: Seq<VoteRec>,
    pub follows: Seq<FollowRec>,
}

impl View for ObjectStore {
    type V = StoreModel;

    open spec fn view(&self) -> StoreModel {
        StoreModel { objs: self.objs@, votes: self.votes@, follows: self.follows@ }
    }
}

/// The reply the engine owes a `Follow`: an `Accept` or, per community
/// policy, a `Reject`, dispatched back to the follower.
#[derive(Clone, Copy, PartialEq, Eq, Structural, Debug)]
pub struct Followup {
    pub accept: bool,
    pub community: Uri,
    pub to: Uri,
}

/// Last-writer-wins gate: an update lands only on a live object and only
/// when it is not older than the last federation timestamp applied.
pub open spec fn update_applies(o: DomainObject, ts: u64) -> bool {
    !o.deleted && ts >= o.updated
}

/// One object after an `Update` carrying timestamp `ts` and fields
/// `content`. A stale update, or any update to a tombstone, changes nothing.
pub open spec fn obj_after_update(o: DomainObject, ts: u64, content: u64) -> DomainObject {
    if update_applies(o, ts) {
        DomainObject { content, updated: ts, ..o }
    } else {
        o
    }
}

/// One object after a `Delete`: the tombstone is set whatever the timestamp
/// ordering; deletions are terminal with respect to updates.
pub open spec fn obj_after_delete(o: DomainObject) -> DomainObject {
    DomainObject { deleted: true, ..o }
}

/// One object after an `Undo` of a `Delete` by its actor: the tombstone is
/// lifted, the retained fields reappear.
pub open spec fn obj_after_restore(o: DomainObject) -> DomainObject {
    DomainObject { deleted: false, ..o }
}

/// The object a `Create` stores: creator is the remote actor, the federation
/// timestamp is the activity's published time.
pub open spec fn new_obj_of(a: Activity) -> DomainObject {
    DomainObject {
        id: a.object,
        kind: a.object_kind,
        creator: a.actor,
        content: a.content,
        updated: a.published,
        deleted: false,
    }
}

pub open spec fn store_after_create(m: StoreModel, a: Activity) -> StoreModel {
    if has_obj(m.objs, a.object) {
        m
    } else {
        StoreModel { objs: m.objs.push(new_obj_of(a)), ..m }
    }
}

pub open spec fn store_after_update(m: StoreModel, a: Activity) -> StoreModel {
    StoreModel {
        objs: m.objs.map_values(
            |o: DomainObject|
                if o.id == a.object {
                    obj_after_update(o, a.published, a.content)
                } else {
                    o
                },
        ),
        ..m
    }
}

pub open spec fn store_after_delete(m: StoreModel, a: Activity) -> StoreModel {
    StoreModel {
        objs: m.objs.map_values(
            |o: DomainObject|
                if o.id == a.object {
                    obj_after_delete(o)
                } else {
                    o
                },
        ),
        ..m
    }
}

pub open spec fn store_after_restore(m: StoreModel, object: Uri) -> StoreModel {
    StoreModel {
        objs: m.objs.map_values(
            |o: DomainObject|
                if o.id == object {
                    obj_after_restore(o)
                } else {
                    o
                },
        ),
        ..m
    }
}

/// Idempotent vote upsert: a standing vote by the same actor on the same
/// object is replaced, otherwise a vote is added.
pub open spec fn store_after_vote(m: StoreModel, a: Activity, v: VoteKind) -> StoreModel {
    if has_vote(m.votes, a.object, a.actor) {
        StoreModel {
            votes: m.votes.map_values(
                |r: VoteRec|
                    if r.object == a.object && r.actor == a.actor {
                        VoteRec { vote: v, ..r }
                    } else {
                        r
                    },
            ),
            ..m
        }
    } else {
        StoreModel {
            votes: m.votes.push(VoteRec { object: a.object, actor: a.actor, vote: v }),
            ..m
        }
    }
}

/// The index of `actor`'s vote on `object`; meaningful only under
/// `has_vote`, and unique under the store invariant.
pub open spec fn vote_index(s: Seq<VoteRec>, object: Uri, actor: Uri) -> int {
    choose|i: int| 0 <= i < s.len() && s[i].object == object && s[i].actor == actor
}

pub open spec fn remove_vote(s: Seq<VoteRec>, object: Uri, actor: Uri) -> Seq<VoteRec> {
    if has_vote(s, object, actor) {
        s.remove(vote_index(s, object, actor))
    } else {
        s
    }
}

pub open spec fn follow_index(s: Seq<FollowRec>, community: Uri, follower: Uri) -> int {
    choose|i: int| 0 <= i < s.len() && s[i].community == community && s[i].follower == follower
}

pub open spec fn remove_follow(s: Seq<FollowRec>, community: Uri, follower: Uri) -> Seq<
    FollowRec,
> {
    if has_follow(s, community, follower) {
        s.remove(follow_index(s, community, follower))
    } else {
        s
    }
}

/// Idempotent follow: recorded once per (community, follower) pair.
pub open spec fn store_after_follow(m: StoreModel, a: Activity) -> StoreModel {
    if has_follow(m.follows, a.object, a.actor) {
        m
    } else {
        StoreModel {
            follows: m.follows.push(FollowRec { community: a.object, follower: a.actor }),
            ..m
        }
    }
}

/// The store after an `Undo` whose embedded activity is `e`, undone by
/// `actor`. Reverses a recorded `Like`/`Dislike`/`Follow`/`Delete`; a
/// reversal with nothing on record changes nothing.
pub open spec fn store_after_undo(m: StoreModel, e: Activity, actor: Uri) -> StoreModel {
    match e.kind {
        ActivityKind::Like => StoreModel { votes: remove_vote(m.votes, e.object, actor), ..m },
        ActivityKind::Dislike => StoreModel { votes: remove_vote(m.votes, e.object, actor), ..m },
        ActivityKind::Follow => StoreModel {
            follows: remove_follow(m.follows, e.object, actor),
            ..m
        },
        ActivityKind::Delete => store_after_restore(m, e.object),
        _ => m,
    }
}

/// Whether an `Undo` of `e` is within the reversible set.
pub open spec fn undoable(e: Activity) -> bool {
    ||| e.kind is Like
    ||| e.kind is Dislike
    ||| e.kind is Follow
    ||| e.kind is Delete
}

/// The per-kind state machine over the store, as one total function:
/// the store after applying `a`, together with the verdict. `gates_pass` is
/// the conjunction of the external moderation and validation predicates
/// consulted before side effects; `policy_accepts` is the community policy
/// consulted for `Follow`. `Announce` never reaches this step: the pipeline
/// unwraps it and feeds the embedded activity back through ingestion.
pub open spec fn apply_step(
    m: StoreModel,
    a: Activity,
    gates_pass: bool,
    policy_accepts: bool,
) -> (StoreModel, Result<IngestOutcome, EngineError>) {
    match a.kind {
        ActivityKind::Accept => (m, Ok(IngestOutcome::Unsupported)),
        ActivityKind::Reject => (m, Ok(IngestOutcome::Unsupported)),
        ActivityKind::Report => (m, Ok(IngestOutcome::Unsupported)),
        ActivityKind::Announce => (m, Err(EngineError::Application)),
        _ => {
            if !gates_pass {
                (m, Err(EngineError::Application))
            } else {
                match a.kind {
                    ActivityKind::Create => (store_after_create(m, a), Ok(IngestOutcome::Applied)),
                    ActivityKind::Update => {
                        if has_obj(m.objs, a.object) {
                            (store_after_update(m, a), Ok(IngestOutcome::Applied))
                        } else {
                            (m, Err(EngineError::Application))
                        }
                    },
                    ActivityKind::Delete => {
                        if has_obj(m.objs, a.object) {
                            (store_after_delete(m, a), Ok(IngestOutcome::Applied))
                        } else {
                            (m, Err(EngineError::Application))
                        }
                    },
                    ActivityKind::Like => {
                        if has_obj(m.objs, a.object) {
                            (store_after_vote(m, a, VoteKind::Like), Ok(IngestOutcome::Applied))
                        } else {
                            (m, Err(EngineError::Application))
                        }
                    },
                    ActivityKind::Dislike => {
                        if has_obj(m.objs, a.object) {
                            (store_after_vote(m, a, VoteKind::Dislike), Ok(IngestOutcome::Applied))
                        } else {
                            (m, Err(EngineError::Application))
                        }
                    },
                    ActivityKind::Follow => {
                        if has_obj(m.objs, a.object) {
                            if policy_accepts {
                                (store_after_follow(m, a), Ok(IngestOutcome::Applied))
                            } else {
                                (m, Ok(IngestOutcome::Applied))
                            }
                        } else {
                            (m, Err(EngineError::Application))
                        }
                    },
                    ActivityKind::Undo => match a.embedded {
                        Option::Some(e) => {
                            if (*e).actor != a.actor {
                                (m, Err(EngineError::Application))
                            } else if undoable(*e) {
                                (store_after_undo(m, *e, a.actor), Ok(IngestOutcome::Applied))
                            } else {
                                (m, Ok(IngestOutcome::Unsupported))
                            }
                        },
                        Option::None => (m, Err(EngineError::Parse)),
                    },
                    _ => (m, Err(EngineError::Application)),
                }
            }
        },
    }
}

/// The reply owed after applying `a`: only a gated-through `Follow` of a
/// known community produces one.
pub open spec fn followup_of(
    m: StoreModel,
    a: Activity,
    gates_pass: bool,
    policy_accepts: bool,
) -> Option<Followup> {
    if a.kind is Follow && gates_pass && has_obj(m.objs, a.object) {
        Some(Followup { accept: policy_accepts, community: a.object, to: a.actor })
    } else {
        None
    }
}

/// Apply one non-`Announce` activity to the store, exactly as `apply_step`
/// says, and return the verdict together with the reply owed, if any.
pub fn apply_activity(
    store: &mut ObjectStore,
    a: &Activity,
    gates_pass: bool,
    policy_accepts: bool,
) -> (r: (Result<IngestOutcome, EngineError>, Option<Followup>))
    requires
        old(store).wf(),
        (*a).wf(),
    ensures
        final(store).wf(),
        final(store)@ =~= apply_step(old(store)@, *a, gates_pass, policy_accepts).0,
        r.0 == apply_step(old(store)@, *a, gates_pass, policy_accepts).1,
        r.1 == followup_of(old(store)@, *a, gates_pass, policy_accepts),
{
    match a.kind {
        ActivityKind::Accept => (Ok(IngestOutcome::Unsupported), None),
        ActivityKind::Reject => (Ok(IngestOutcome::Unsupported), None),
        ActivityKind::Report => (Ok(IngestOutcome::Unsupported), None),
        ActivityKind::Announce => (Err(EngineError::Application), None),
        _ => {
            if !gates_pass {
                return (Err(EngineError::Application), None);
            }
            match a.kind {
                ActivityKind::Create => {
                    match store.find_obj(a.object) {
                        Some(_) => (Ok(IngestOutcome::Applied), None),
                        None => {
                            store.objs.push(
                                DomainObject {
                                    id: a.object,
                                    kind: a.object_kind,
                                    creator: a.actor,
                                    content: a.content,
                                    updated: a.published,
                                    deleted: false,
                                },
                            );
                            (Ok(IngestOutcome::Applied), None)
                        },
                    }
                },
                ActivityKind::Update => {
                    match store.find_obj(a.object) {
                        Some(i) => {
                            let o = store.objs[i];
                            if !o.deleted && a.published >= o.updated {
                                store.objs.set(
                                    i,
                                    DomainObject {
                                        content: a.content,
                                        updated: a.published,
                                        ..o
                                    },
                                );
                            }
                            proof {
                                lemma_targeted_objs_eq(
                                    old(store).objs@,
                                    store.objs@,
                                    store_after_update(old(store)@, *a).objs,
                                    i as int,
                                );
                            }
                            (Ok(IngestOutcome::Applied), None)
                        },
                        None => (Err(EngineError::Application), None),
                    }
                },
                ActivityKind::Delete => {
                    match store.find_obj(a.object) {
                        Some(i) => {
                            let o = store.objs[i];
                            store.objs.set(i, DomainObject { deleted: true, ..o });
                            proof {
                                lemma_targeted_objs_eq(
                                    old(store).objs@,
                                    store.objs@,
                                    store_after_delete(old(store)@, *a).objs,
                                    i as int,
                                );
                            }
                            (Ok(IngestOutcome::Applied), None)
                        },
                        None => (Err(EngineError::Application), None),
                    }
                },
                ActivityKind::Like => (apply_vote(store, a, VoteKind::Like), None),
                ActivityKind::Dislike => (apply_vote(store, a, VoteKind::Dislike), None),
                ActivityKind::Follow => {
                    match store.find_obj(a.object) {
                        Some(_) => {
                            let fup = Followup {
                                accept: policy_accepts,
                                community: a.object,
                                to: a.actor,
                            };
                            if policy_accepts {
                                match store.find_follow(a.object, a.actor) {
                                    Some(_) => (Ok(IngestOutcome::Applied), Some(fup)),
                                    None => {
                                        store.follows.push(
                                            FollowRec { community: a.object, follower: a.actor },
                                        );
                                        (Ok(IngestOutcome::Applied), Some(fup))
                                    },
                                }
                            } else {
                                (Ok(IngestOutcome::Applied), Some(fup))
                            }
                        },
                        None => (Err(EngineError::Application), None),
                    }
                },
                ActivityKind::Undo => {
                    match &a.embedded {
                        Some(e) => {
                            if e.actor != a.actor {
                                (Err(EngineError::Application), None)
                            } else {
                                (apply_undo(store, e, a.actor), None)
                            }
                        },
                        None => (Err(EngineError::Parse), None),
                    }
                },
                _ => (Err(EngineError::Application), None),
            }
        },
    }
}

/// The vote upsert shared by `Like` and `Dislike`.
fn apply_vote(store: &mut ObjectStore, a: &Activity, v: VoteKind) -> (r: Result<
    IngestOutcome,
    EngineError,
>)
    requires
        old(store).wf(),
    ensures
        final(store).wf(),
        has_obj(old(store).objs@, (*a).object) ==> final(store)@ =~= store_after_vote(
            old(store)@,
            *a,
            v,
        ) && r == Ok::<IngestOutcome, EngineError>(IngestOutcome::Applied),
        !has_obj(old(store).objs@, (*a).object) ==> final(store)@ =~= old(store)@ && r == Err::<
            IngestOutcome,
            EngineError,
        >(EngineError::Application),
{
    match store.find_obj(a.object) {
        Some(_) => {
            match store.find_vote(a.object, a.actor) {
                Some(i) => {
                    let rec = store.votes[i];
                    store.votes.set(i, VoteRec { vote: v, ..rec });
                    proof {
                        lemma_targeted_votes_eq(
                            old(store).votes@,
                            store.votes@,
                            store_after_vote(old(store)@, *a, v).votes,
                            i as int,
                        );
                    }
                    Ok(IngestOutcome::Applied)
                },
                None => {
                    store.votes.push(VoteRec { object: a.object, actor: a.actor, vote: v });
                    Ok(IngestOutcome::Applied)
                },
            }
        },
        None => Err(EngineError::Application),
    }
}

/// The reversal step of an `Undo`, after the actor check.
fn apply_undo(store: &mut ObjectStore, e: &Activity, actor: Uri) -> (r: Result<
    IngestOutcome,
    EngineError,
>)
    requires
        old(store).wf(),
        (*e).actor == actor,
    ensures
        final(store).wf(),
        undoable(*e) ==> final(store)@ =~= store_after_undo(old(store)@, *e, actor) && r == Ok::<
            IngestOutcome,
            EngineError,
        >(IngestOutcome::Applied),
        !undoable(*e) ==> final(store)@ =~= old(store)@ && r == Ok::<
            IngestOutcome,
            EngineError,
        >(IngestOutcome::Unsupported),
{
    match e.kind {
        ActivityKind::Like => {
            remove_vote_exec(store, e.object, actor);
            Ok(IngestOutcome::Applied)
        },
        ActivityKind::Dislike => {
            remove_vote_exec(store, e.object, actor);
            Ok(IngestOutcome::Applied)
        },
        ActivityKind::Follow => {
            match store.find_follow(e.object, actor) {
                Some(i) => {
                    let ghost k = follow_index(store.follows@, e.object, actor);
                    proof {
                        assert(0 <= k < store.follows@.len() && store.follows@[k].community
                            == e.object && store.follows@[k].follower == actor);
                        assert(k == i as int);
                    }
                    store.follows.remove(i);
                    proof {
                        lemma_remove_keeps_follow_wf(old(store).follows@, i as int);
                    }
                },
                None => {
                },
            }
            Ok(IngestOutcome::Applied)
        },
        ActivityKind::Delete => {
            match store.find_obj(e.object) {
                Some(i) => {
                    let o = store.objs[i];
                    store.objs.set(i, DomainObject { deleted: false, ..o });
                    proof {
                        lemma_targeted_objs_eq(
                            old(store).objs@,
                            store.objs@,
                            store_after_restore(old(store)@, (*e).object).objs,
                            i as int,
                        );
                    }
                },
                None => {
                    proof {
                        lemma_map_values_id_unchanged(store.objs@, (*e).object);
                    }
                },
            }
            Ok(IngestOutcome::Applied)
        },
        _ => Ok(IngestOutcome::Unsupported),
    }
}

/// Remove the actor's vote on the object, if one is recorded.
fn remove_vote_exec(store: &mut ObjectStore, object: Uri, actor: Uri)
    requires
        old(store).wf(),
    ensures
        final(store).wf(),
        final(store)@ =~= (StoreModel {
            votes: remove_vote(old(store).votes@, object, actor),
            ..old(store)@
        }),
{
    match store.find_vote(object, actor) {
        Some(i) => {
            let ghost k = vote_index(store.votes@, object, actor);
            proof {
                assert(0 <= k < store.votes@.len() && store.votes@[k].object == object
                    && store.votes@[k].actor == actor);
                assert(k == i as int);
            }
            store.votes.remove(i);
            proof {
                lemma_remove_keeps_vote_wf(old(store).votes@, i as int);
            }
        },
        None => {
        },
    }
}

/// A targeted in-place write at the unique index carrying a key equals the
/// whole-sequence map that rewrites only that key.
proof fn lemma_targeted_objs_eq(
    olds: Seq<DomainObject>,
    news: Seq<DomainObject>,
    mapped: Seq<DomainObject>,
    i: int,
)
    requires
        forall|p: int, q: int| 0 <= p < q < olds.len() ==> olds[p].id != olds[q].id,
        0 <= i < olds.len(),
        news.len() == olds.len(),
        mapped.len() == olds.len(),
        forall|j: int| 0 <= j < olds.len() && j != i ==> news[j] == olds[j],
        forall|j: int| 0 <= j < olds.len() && olds[j].id != olds[i].id ==> mapped[j] == olds[j],
        forall|j: int| 0 <= j < olds.len() && olds[j].id == olds[i].id ==> mapped[j] == news[j],
        news[i].id == olds[i].id,
    ensures
        news =~= mapped,
        forall|p: int, q: int| 0 <= p < q < news.len() ==> news[p].id != news[q].id,
{
    assert forall|j: int| 0 <= j < news.len() implies news[j] == mapped[j] by {
        if j != i {
            assert(olds[j].id != olds[i].id);
        }
    }
    assert forall|p: int, q: int| 0 <= p < q < news.len() implies news[p].id != news[q].id by {
        assert(news[p].id == olds[p].id);
        assert(news[q].id == olds[q].id);
    }
}

/// Same statement for the vote relation, keyed by (object, actor).
proof fn lemma_targeted_votes_eq(
    olds: Seq<VoteRec>,
    news: Seq<VoteRec>,
    mapped: Seq<VoteRec>,
    i: int,
)
    requires
        forall|p: int, q: int|
            0 <= p < q < olds.len() ==> !(olds[p].object == olds[q].object && olds[p].actor
                == olds[q].actor),
        0 <= i < olds.len(),
        news.len() == olds.len(),
        mapped.len() == olds.len(),
        forall|j: int| 0 <= j < olds.len() && j != i ==> news[j] == olds[j],
        forall|j: int|
            0 <= j < olds.len() && !(olds[j].object == olds[i].object && olds[j].actor
                == olds[i].actor) ==> mapped[j] == olds[j],
        forall|j: int|
            0 <= j < olds.len() && olds[j].object == olds[i].object && olds[j].actor
                == olds[i].actor ==> mapped[j] == news[j],
        news[i].object == olds[i].object,
        news[i].actor == olds[i].actor,
    ensures
        news =~= mapped,
        forall|p: int, q: int|
            0 <= p < q < news.len() ==> !(news[p].object == news[q].object && news[p].actor
                == news[q].actor),
{
    assert forall|j: int| 0 <= j < news.len() implies news[j] == mapped[j] by {
        if j != i {
            assert(!(olds[j].object == olds[i].object && olds[j].actor == olds[i].actor));
        }
    }
    assert forall|p: int, q: int|
        0 <= p < q < news.len() implies !(news[p].object == news[q].object && news[p].actor
        == news[q].actor) by {
        assert(news[p].object == olds[p].object && news[p].actor == olds[p].actor);
        assert(news[q].object == olds[q].object && news[q].actor == olds[q].actor);
    }
}

/// Removing an element keeps the vote keys pairwise distinct.
proof fn lemma_remove_keeps_vote_wf(s: Seq<VoteRec>, i: int)
    requires
        forall|p: int, q: int|
            0 <= p < q < s.len() ==> !(s[p].object == s[q].object && s[p].actor == s[q].actor),
        0 <= i < s.len(),
    ensures
        forall|p: int, q: int|
            0 <= p < q < s.remove(i).len() ==> !(s.remove(i)[p].object == s.remove(i)[q].object
                && s.remove(i)[p].actor == s.remove(i)[q].actor),
{
    let t = s.remove(i);
    assert forall|p: int, q: int|
        0 <= p < q < t.len() implies !(t[p].object == t[q].object && t[p].actor
        == t[q].actor) by {
        let p0 = if p < i { p } else { p + 1 };
        let q0 = if q < i { q } else { q + 1 };
        assert(t[p] == s[p0]);
        assert(t[q] == s[q0]);
    }
}

/// Removing an element keeps the follow keys pairwise distinct.
proof fn lemma_remove_keeps_follow_wf(s: Seq<FollowRec>, i: int)
    requires
        forall|p: int, q: int|
            0 <= p < q < s.len() ==> !(s[p].community == s[q].community && s[p].follower
                == s[q].follower),
        0 <= i < s.len(),
    ensures
        forall|p: int, q: int|
            0 <= p < q < s.remove(i).len() ==> !(s.remove(i)[p].community == s.remove(
                i,
            )[q].community && s.remove(i)[p].follower == s.remove(i)[q].follower),
{
    let t = s.remove(i);
    assert forall|p: int, q: int|
        0 <= p < q < t.len() implies !(t[p].community == t[q].community && t[p].follower
        == t[q].follower) by {
        let p0 = if p < i { p } else { p + 1 };
        let q0 = if q < i { q } else { q + 1 };
        assert(t[p] == s[p0]);
        assert(t[q] == s[q0]);
    }
}

/// Delete wins: once a `Delete` has been applied to an object, an `Update`
/// — whatever its timestamp, and in particular one processed afterwards —
/// leaves the tombstone standing and revives nothing: the object's visible
/// content stays `None` and its stored fields stay untouched.
pub proof fn lemma_delete_wins(o: DomainObject, ts: u64, content: u64)
    ensures
        obj_after_update(obj_after_delete(o), ts, content) == obj_after_delete(o),
        obj_after_update(obj_after_delete(o), ts, content).visible_content() is None,
{
}

/// Delete wins, over the whole store: after a `Delete` for an object is
/// applied, applying an `Update` for the same object leaves every copy of it
/// tombstoned, with no visible content.
pub proof fn lemma_delete_wins_store(m: StoreModel, del: Activity, upd: Activity)
    requires
        del.kind is Delete,
        upd.kind is Update,
        upd.object == del.object,
    ensures
        forall|j: int|
            0 <= j < store_after_update(store_after_delete(m, del), upd).objs.len()
                && #[trigger] store_after_update(store_after_delete(m, del), upd).objs[j].id
                == del.object ==> store_after_update(
                store_after_delete(m, del),
                upd,
            ).objs[j].visible_content() is None,
{
    let after = store_after_update(store_after_delete(m, del), upd);
    assert forall|j: int|
        0 <= j < after.objs.len() && #[trigger] after.objs[j].id == del.object implies after.objs[j].visible_content()
        is None by {
        assert(store_after_delete(m, del).objs[j] == if m.objs[j].id == del.object {
            obj_after_delete(m.objs[j])
        } else {
            m.objs[j]
        });
    }
}

/// Last writer wins by timestamp, not by arrival order: two updates with
/// timestamps `t1 < t2` yield, in either processing order, exactly the state
/// that applying the `t2` update alone yields.
pub proof fn lemma_last_writer_wins(o: DomainObject, t1: u64, c1: u64, t2: u64, c2: u64)
    requires
        t1 < t2,
    ensures
        obj_after_update(obj_after_update(o, t1, c1), t2, c2) == obj_after_update(o, t2, c2),
        obj_after_update(obj_after_update(o, t2, c2), t1, c1) == obj_after_update(o, t2, c2),
        update_applies(o, t2) ==> obj_after_update(obj_after_update(o, t1, c1), t2, c2).content
            == c2,
{
}

/// Last writer wins, over the whole store: two updates for the same object
/// with distinct timestamps leave, in either processing order, exactly the
/// same store.
pub proof fn lemma_last_writer_wins_store(m: StoreModel, u1: Activity, u2: Activity)
    requires
        u1.kind is Update,
        u2.kind is Update,
        u1.object == u2.object,
        u1.published < u2.published,
    ensures
        store_after_update(store_after_update(m, u1), u2) =~~= store_after_update(
            store_after_update(m, u2),
            u1,
        ),
{
    let once = store_after_update(store_after_update(m, u1), u2);
    let other = store_after_update(store_after_update(m, u2), u1);
    assert forall|j: int| 0 <= j < m.objs.len() implies once.objs[j] == other.objs[j] by {
        lemma_last_writer_wins(m.objs[j], u1.published, u1.content, u2.published, u2.content);
    }
    assert(once.objs =~= other.objs);
}

/// A map that rewrites only a key no element carries changes nothing.
proof fn lemma_map_values_id_unchanged(s: Seq<DomainObject>, id: Uri)
    requires
        !has_obj(s, id),
    ensures
        s.map_values(
            |o: DomainObject|
                if o.id == id {
                    obj_after_restore(o)
                } else {
                    o
                },
        ) =~= s,
{
    assert forall|j: int| 0 <= j < s.len() implies s.map_values(
        |o: DomainObject|
            if o.id == id {
                obj_after_restore(o)
            } else {
                o
            },
    )[j] == s[j] by {
        assert(s[j].id != id);
    }
}

} // verus!
