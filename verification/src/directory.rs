use vstd::prelude::*;
use crate::ids::Uri;
use crate::errors::EngineError;

verus! {

/// The two federated identity kinds.
#[derive(Clone, Copy, PartialEq, Eq, Structural, Debug)]
pub enum ActorKind {
    Person,
    Community,
}

/// A federated identity as the directory holds it: where it lives, its
/// signing key, where to deliver to it, and — for remote actors — when its
/// cached copy was last refreshed. Local actors are authoritative and never
/// stale.
#[derive(Clone, Copy, PartialEq, Eq, Debug)]
pub struct Actor {
    pub uri: Uri,
    pub kind: ActorKind,
    pub key_id: Uri,
    pub inbox: Uri,
    pub shared_inbox: Option<Uri>,
    pub local: bool,
    pub refreshed: u64,
}

/// A fetched remote actor document, as decoded by the transport layer.
/// Optional fields may be missing from the wire form; a document without a
/// public key or without an inbox is malformed.
#[derive(Clone, Copy, PartialEq, Eq, Debug)]
pub struct ActorDoc {
    pub uri: Uri,
    pub kind: ActorKind,
    pub key_id: Option<Uri>,
    pub inbox: Option<Uri>,
    pub shared_inbox: Option<Uri>,
}

/// Shape validation of a fetched actor document.
pub open spec fn doc_valid(d: ActorDoc) -> bool {
    d.key_id is Some && d.inbox is Some
}

/// The cache entry a valid document yields.
pub open spec fn actor_from_doc(d: ActorDoc, now: u64) -> Actor {
    Actor {
        uri: d.uri,
        kind: d.kind,
        key_id: d.key_id->Some_0,
        inbox: d.inbox->Some_0,
        shared_inbox: d.shared_inbox,
        local: false,
        refreshed: now,
    }
}

/// A cache entry is usable without a fetch: local, or refreshed recently
/// enough.
pub open spec fn actor_fresh(a: Actor, now: u64, ttl: u64) -> bool {
    a.local || now <= a.refreshed + ttl
}

pub open spec fn has_actor(s: Seq<Actor>, uri: Uri) -> bool {
    exists|j: int| 0 <= j < s.len() && s[j].uri == uri
}

/// The index of the entry for `uri`; meaningful only under `has_actor`, and
/// unique under the directory invariant.
pub open spec fn actor_index(s: Seq<Actor>, uri: Uri) -> int {
    choose|j: int| 0 <= j < s.len() && s[j].uri == uri
}

pub open spec fn cached_actor(s: Seq<Actor>, uri: Uri) -> Actor {
    s[actor_index(s, uri)]
}

/// Upsert: a standing entry for the same URI is replaced (refresh races
/// resolve last-write-wins), otherwise the entry is appended.
pub open spec fn upsert_actor(s: Seq<Actor>, a: Actor) -> Seq<Actor> {
    if has_actor(s, a.uri) {
        s.update(actor_index(s, a.uri), a)
    } else {
        s.push(a)
    }
}

/// What `resolve` does, as one total function over the cache: use a fresh
/// (or local) cached entry as it stands; otherwise admit a valid fetched
/// document for this URI, refreshing the cache; otherwise fail with
/// `ResolutionError` and leave the cache as it was.
pub open spec fn resolve_spec(
    s: Seq<Actor>,
    uri: Uri,
    now: u64,
    ttl: u64,
    doc: Option<ActorDoc>,
) -> (Seq<Actor>, Result<Actor, EngineError>) {
    if has_actor(s, uri) && actor_fresh(cached_actor(s, uri), now, ttl) {
        (s, Ok(cached_actor(s, uri)))
    } else {
        match doc {
            Option::Some(d) => {
                if d.uri == uri && doc_valid(d) {
                    (upsert_actor(s, actor_from_doc(d, now)), Ok(actor_from_doc(d, now)))
                } else {
                    (s, Err(EngineError::Resolution))
                }
            },
            Option::None => (s, Err(EngineError::Resolution)),
        }
    }
}

/// The Actor Directory: local actors read from storage, remote actors as
/// TTL-refreshed cached copies. Entries are keyed by URI, one per actor.
pub struct ActorDirectory {
    pub actors: Vec<Actor>,
}

impl ActorDirectory {
    /// One entry per actor URI.
    pub open spec fn wf(self) -> bool {
        forall|i: int, j: int|
            0 <= i < j < self.actors@.len() ==> self.actors@[i].uri != self.actors@[j].uri
    }

    /// An empty directory.
    pub fn new() -> (r: ActorDirectory)
        ensures
            r.wf(),
            r.actors@ =~= Seq::<Actor>::empty(),
    {
        ActorDirectory { actors: Vec::new() }
    }

    /// Index of the entry for this URI, if one stands.
    pub fn find(&self, uri: Uri) -> (r: Option<usize>)
        ensures
            match r {
                Some(i) => i < self.actors@.len() && self.actors@[i as int].uri == uri,
                None => !has_actor(self.actors@, uri),
            },
    {
        let mut i: usize = 0;
        while i < self.actors.len()
            invariant
                i <= self.actors@.len(),
                forall|j: int| 0 <= j < i ==> self.actors@[j].uri != uri,
            decreases self.actors@.len() - i,
        {
            if self.actors[i].uri == uri {
                return Some(i);
            }
            i = i + 1;
        }
        None
    }

    /// Register a local actor; its entry is authoritative and never expires.
    pub fn register_local(&mut self, actor: Actor)
        requires
            old(self).wf(),
            actor.local,
        ensures
            final(self).wf(),
            final(self).actors@ =~= upsert_actor(old(self).actors@, actor),
    {
        match self.find(actor.uri) {
            Some(i) => {
                self.actors.set(i, actor);
                proof {
                    let ghost k = actor_index(old(self).actors@, actor.uri);
                    assert(0 <= k < old(self).actors@.len() && old(self).actors@[k].uri
                        == actor.uri);
                    assert(k == i as int);
                }
            },
            None => {
                self.actors.push(actor);
            },
        }
    }

    /// The remote entries whose cached copy has gone stale at `now`: what a
    /// background refresh re-fetches proactively, without blocking callers.
    pub fn refresh_candidates(&self, now: u64, ttl: u64) -> (r: Vec<Uri>)
        ensures
            forall|v: Uri|
                r@.contains(v) <==> exists|k: int|
                    0 <= k < self.actors@.len() && (#[trigger] self.actors@[k]).uri == v
                        && !self.actors@[k].local && !actor_fresh(self.actors@[k], now, ttl),
    {
        let mut r: Vec<Uri> = Vec::new();
        let mut i: usize = 0;
        while i < self.actors.len()
            invariant
                i <= self.actors@.len(),
                forall|v: Uri|
                    r@.contains(v) <==> exists|k: int|
                        0 <= k < i && (#[trigger] self.actors@[k]).uri == v
                            && !self.actors@[k].local && !actor_fresh(self.actors@[k], now, ttl),
            decreases self.actors@.len() - i,
        {
            let a = self.actors[i];
            let fresh = a.local || a.refreshed > u64::MAX - ttl || now <= a.refreshed + ttl;
            let ghost before = r@;
            if !fresh {
                r.push(a.uri);
                proof {
                    assert(!actor_fresh(self.actors@[i as int], now, ttl));
                    assert forall|v: Uri| r@.contains(v) implies exists|k: int|
                        0 <= k < i + 1 && (#[trigger] self.actors@[k]).uri == v
                            && !self.actors@[k].local && !actor_fresh(
                            self.actors@[k],
                            now,
                            ttl,
                        ) by {
                        vstd::seq_lib::lemma_seq_contains_after_push(before, a.uri, v);
                        if before.contains(v) {
                            let k = choose|k: int|
                                0 <= k < i && (#[trigger] self.actors@[k]).uri == v
                                    && !self.actors@[k].local && !actor_fresh(
                                    self.actors@[k],
                                    now,
                                    ttl,
                                );
                            assert(0 <= k < i + 1 && self.actors@[k].uri == v);
                        } else {
                            assert(self.actors@[i as int].uri == v);
                        }
                    }
                    assert forall|v: Uri| (exists|k: int|
                        0 <= k < i + 1 && (#[trigger] self.actors@[k]).uri == v
                            && !self.actors@[k].local && !actor_fresh(self.actors@[k], now, ttl))
                        implies r@.contains(v) by {
                        vstd::seq_lib::lemma_seq_contains_after_push(before, a.uri, v);
                        let k = choose|k: int|
                            0 <= k < i + 1 && (#[trigger] self.actors@[k]).uri == v
                                && !self.actors@[k].local && !actor_fresh(
                                self.actors@[k],
                                now,
                                ttl,
                            );
                        if k < i {
                            assert(before.contains(v));
                        }
                    }
                }
            } else {
                proof {
                    assert forall|v: Uri| (exists|k: int|
                        0 <= k < i + 1 && (#[trigger] self.actors@[k]).uri == v
                            && !self.actors@[k].local && !actor_fresh(self.actors@[k], now, ttl))
                        implies r@.contains(v) by {
                        let k = choose|k: int|
                            0 <= k < i + 1 && (#[trigger] self.actors@[k]).uri == v
                                && !self.actors@[k].local && !actor_fresh(
                                self.actors@[k],
                                now,
                                ttl,
                            );
                        assert(k != i);
                    }
                }
            }
            i = i + 1;
        }
        r
    }

    /// Resolve an actor URI, exactly as `resolve_spec` says. `fetched` is
    /// the actor document the transport layer obtained for this URI when
    /// asked, or `None` when the fetch errored, timed out, or was not
    /// attempted. Failure is non-retryable for the current operation; a
    /// future activity may resolve again independently.
    pub fn resolve(&mut self, uri: Uri, now: u64, ttl: u64, fetched: Option<&ActorDoc>) -> (r:
        Result<Actor, EngineError>)
        requires
            old(self).wf(),
        ensures
            final(self).wf(),
            final(self).actors@ =~= resolve_spec(
                old(self).actors@,
                uri,
                now,
                ttl,
                fetched_view(fetched),
            ).0,
            r == resolve_spec(old(self).actors@, uri, now, ttl, fetched_view(fetched)).1,
    {
        let cached = self.find(uri);
        match cached {
            Some(i) => {
                let a = self.actors[i];
                proof {
                    let ghost k = actor_index(self.actors@, uri);
                    assert(0 <= k < self.actors@.len() && self.actors@[k].uri == uri);
                    assert(k == i as int);
                }
                if a.local || (a.refreshed <= u64::MAX - ttl && now <= a.refreshed + ttl) {
                    return Ok(a);
                }
                if a.refreshed > u64::MAX - ttl {
                    // The freshness horizon saturates at the top of the
                    // clock range; such an entry never reads stale.
                    return Ok(a);
                }
                self.admit_fetched(uri, now, fetched)
            },
            None => self.admit_fetched(uri, now, fetched),
        }
    }

    /// Take a fetched document for `uri` into the cache, or fail.
    fn admit_fetched(&mut self, uri: Uri, now: u64, fetched: Option<&ActorDoc>) -> (r: Result<
        Actor,
        EngineError,
    >)
        requires
            old(self).wf(),
        ensures
            final(self).wf(),
            match fetched_view(fetched) {
                Option::Some(d) => {
                    if d.uri == uri && doc_valid(d) {
                        final(self).actors@ =~= upsert_actor(
                            old(self).actors@,
                            actor_from_doc(d, now),
                        ) && r == Ok::<Actor, EngineError>(actor_from_doc(d, now))
                    } else {
                        final(self).actors@ =~= old(self).actors@ && r == Err::<
                            Actor,
                            EngineError,
                        >(EngineError::Resolution)
                    }
                },
                Option::None => final(self).actors@ =~= old(self).actors@ && r == Err::<
                    Actor,
                    EngineError,
                >(EngineError::Resolution),
            },
    {
        match fetched {
            Some(d) => {
                if let (Some(key_id), Some(inbox), true) = (d.key_id, d.inbox, d.uri == uri) {
                    let a = Actor {
                        uri: d.uri,
                        kind: d.kind,
                        key_id,
                        inbox,
                        shared_inbox: d.shared_inbox,
                        local: false,
                        refreshed: now,
                    };
                    match self.find(uri) {
                        Some(i) => {
                            self.actors.set(i, a);
                            proof {
                                let ghost k = actor_index(old(self).actors@, a.uri);
                                assert(0 <= k < old(self).actors@.len() && old(
                                    self,
                                ).actors@[k].uri == a.uri);
                                assert(k == i as int);
                            }
                        },
                        None => {
                            self.actors.push(a);
                        },
                    }
                    Ok(a)
                } else {
                    Err(EngineError::Resolution)
                }
            },
            None => Err(EngineError::Resolution),
        }
    }
}

/// The value behind an optional borrowed document.
pub open spec fn fetched_view(fetched: Option<&ActorDoc>) -> Option<ActorDoc> {
    match fetched {
        Option::Some(d) => Option::Some(*d),
        Option::None => Option::None,
    }
}

} // verus!
