use vstd::prelude::*;
use crate::ids::Uri;
use crate::errors::{EngineError, IngestOutcome};
use crate::activity::{Activity, ActivityKind};
use crate::signature::{envelope_ok, verify_envelope, SigMeta};
use crate::dedup::{
    blocked, has_rec, mark_spec, set_outcome_spec, DedupStore, MarkResult, Outcome,
    ProcessingRecord,
};
use crate::store::{DomainObject, ObjectStore};
use crate::apply::{apply_activity, apply_step, followup_of, Followup, StoreModel};
use crate::directory::{
    fetched_view, resolve_spec, Actor, ActorDirectory, ActorDoc,
};
use crate::resolver::{obj_doc_view, resolve_object, resolve_object_spec, ObjectDoc};

verus! {

/// Engine-wide settings: the clock-skew window the Signature Codec
/// enforces, and the freshness threshold of the actor cache.
#[derive(Clone, Copy, PartialEq, Eq, Structural, Debug)]
pub struct EngineConfig {
    pub clock_skew: u64,
    pub actor_ttl: u64,
}

/// The mathematical value of the engine's state: the dedup records, the
/// object store and the actor cache.
#[verifier::ext_equal]
pub ghost struct EngineModel {
    pub dedup: Seq<ProcessingRecord>,
    pub store: StoreModel,
    pub actors: Seq<Actor>,
}

/// The federation activity engine's receiving half: authenticates,
/// deduplicates, resolves and applies inbound activities.
pub struct Engine {
    pub config: EngineConfig,
    pub dedup: DedupStore,
    pub store: ObjectStore,
    pub directory: ActorDirectory,
}

impl View for Engine {
    type V = EngineModel;

    open spec fn view(&self) -> EngineModel {
        EngineModel { dedup: self.dedup.recs@, store: self.store@, actors: self.directory.actors@ }
    }
}

/// Kinds that act on an object that must already exist locally, and whose
/// reference the Remote Object Resolver therefore resolves first.
pub open spec fn needs_object(k: ActivityKind) -> bool {
    ||| k is Update
    ||| k is Delete
    ||| k is Like
    ||| k is Dislike
    ||| k is Follow
}

/// The outcome a processed activity's dedup record keeps. A gracefully
/// ignored unsupported kind counts as applied: the sender is told success
/// and a redelivery must not reach the state machine again.
pub open spec fn rec_of(o: IngestOutcome) -> Outcome {
    match o {
        IngestOutcome::Applied => Outcome::Applied,
        IngestOutcome::Duplicate => Outcome::Duplicate,
        IngestOutcome::Unsupported => Outcome::Applied,
    }
}

/// The authenticated tail of the pipeline, as one total function: dedup
/// gate, object resolution, per-kind application, outcome record. An
/// `Announce` recurses on its embedded activity, which is deduplicated by
/// its own id.
pub open spec fn ingest_authed_spec(
    m: EngineModel,
    a: Activity,
    odoc: Option<ObjectDoc>,
    gates_pass: bool,
    policy_accepts: bool,
    now: u64,
) -> (EngineModel, Result<IngestOutcome, EngineError>, Option<Followup>)
    decreases a,
{
    if blocked(m.dedup, a.id) {
        (m, Ok(IngestOutcome::Duplicate), None)
    } else {
        let d1 = mark_spec(m.dedup, a.id, now);
        let m1 = EngineModel { dedup: d1, ..m };
        if a.kind is Announce {
            match a.embedded {
                Option::Some(inner) => {
                    let (m2, r2, f2) = ingest_authed_spec(
                        m1,
                        *inner,
                        odoc,
                        gates_pass,
                        policy_accepts,
                        now,
                    );
                    match r2 {
                        Ok(o) => (
                            EngineModel {
                                dedup: set_outcome_spec(m2.dedup, a.id, rec_of(o)),
                                ..m2
                            },
                            Ok(o),
                            f2,
                        ),
                        Err(e) => (
                            EngineModel {
                                dedup: set_outcome_spec(m2.dedup, a.id, Outcome::Rejected),
                                ..m2
                            },
                            Err(e),
                            f2,
                        ),
                    }
                },
                Option::None => (m1, Err(EngineError::Parse), None),
            }
        } else {
            let resolution = if needs_object(a.kind) {
                resolve_object_spec(m1.store.objs, a.object, odoc)
            } else {
                (m1.store.objs, true)
            };
            let s2 = StoreModel { objs: resolution.0, ..m1.store };
            if !resolution.1 {
                (
                    EngineModel {
                        dedup: set_outcome_spec(d1, a.id, Outcome::Rejected),
                        store: s2,
                        ..m1
                    },
                    Err(EngineError::Resolution),
                    None,
                )
            } else {
                let step = apply_step(s2, a, gates_pass, policy_accepts);
                let fup = followup_of(s2, a, gates_pass, policy_accepts);
                match step.1 {
                    Ok(o) => (
                        EngineModel {
                            dedup: set_outcome_spec(d1, a.id, rec_of(o)),
                            store: step.0,
                            ..m1
                        },
                        Ok(o),
                        fup,
                    ),
                    Err(e) => (
                        EngineModel {
                            dedup: set_outcome_spec(d1, a.id, Outcome::Rejected),
                            store: step.0,
                            ..m1
                        },
                        Err(e),
                        fup,
                    ),
                }
            }
        }
    }
}

/// The whole inbound pipeline, as one total function: shape check, actor
/// resolution, signature verification, then the authenticated tail.
/// Authentication and parse failures never touch the dedup records or the
/// object store.
pub open spec fn ingest_spec(
    m: EngineModel,
    cfg: EngineConfig,
    a: Activity,
    sig: SigMeta,
    raw_sig_ok: bool,
    adoc: Option<ActorDoc>,
    odoc: Option<ObjectDoc>,
    gates_pass: bool,
    policy_accepts: bool,
    now: u64,
) -> (EngineModel, Result<IngestOutcome, EngineError>, Option<Followup>) {
    if !a.wf() {
        (m, Err(EngineError::Parse), None)
    } else {
        let resolution = resolve_spec(m.actors, a.actor, now, cfg.actor_ttl, adoc);
        let m1 = EngineModel { actors: resolution.0, ..m };
        match resolution.1 {
            Err(_) => (m1, Err(EngineError::Resolution), None),
            Ok(actor) => {
                if !envelope_ok(a.actor, sig, actor.key_id, raw_sig_ok, now, cfg.clock_skew) {
                    (m1, Err(EngineError::Signature), None)
                } else {
                    ingest_authed_spec(m1, a, odoc, gates_pass, policy_accepts, now)
                }
            },
        }
    }
}

impl Engine {
    /// All per-relation invariants at once.
    pub open spec fn wf(self) -> bool {
        &&& self.dedup.wf()
        &&& self.store.wf()
        &&& self.directory.wf()
    }

    /// A fresh engine with empty state.
    pub fn new(config: EngineConfig) -> (r: Engine)
        ensures
            r.wf(),
            r.config == config,
            r@.dedup =~= Seq::<ProcessingRecord>::empty(),
            r@.store.objs =~= Seq::<DomainObject>::empty(),
            r@.actors =~= Seq::<Actor>::empty(),
    {
        Engine {
            config,
            dedup: DedupStore::new(),
            store: ObjectStore::new(),
            directory: ActorDirectory::new(),
        }
    }

    /// The authenticated tail of ingestion, exactly as `ingest_authed_spec`
    /// says.
    fn ingest_authed(
        &mut self,
        a: &Activity,
        odoc: Option<&ObjectDoc>,
        gates_pass: bool,
        policy_accepts: bool,
        now: u64,
    ) -> (r: (Result<IngestOutcome, EngineError>, Option<Followup>))
        requires
            old(self).wf(),
            (*a).wf(),
        ensures
            final(self).wf(),
            final(self)@ =~~= ingest_authed_spec(
                old(self)@,
                *a,
                obj_doc_view(odoc),
                gates_pass,
                policy_accepts,
                now,
            ).0,
            r.0 == ingest_authed_spec(
                old(self)@,
                *a,
                obj_doc_view(odoc),
                gates_pass,
                policy_accepts,
                now,
            ).1,
            r.1 == ingest_authed_spec(
                old(self)@,
                *a,
                obj_doc_view(odoc),
                gates_pass,
                policy_accepts,
                now,
            ).2,
            final(self).config == old(self).config,
        decreases (*a).depth(),
    {
        let mr = self.dedup.mark_if_new(a.id, now);
        if let MarkResult::AlreadyPresent = mr {
            return (Ok(IngestOutcome::Duplicate), None);
        }
        if let ActivityKind::Announce = a.kind {
            match &a.embedded {
                Some(inner) => {
                    let (r2, f2) = self.ingest_authed(
                        inner,
                        odoc,
                        gates_pass,
                        policy_accepts,
                        now,
                    );
                    proof {
                        lemma_authed_keeps_rec(
                            EngineModel { dedup: mark_spec(old(self)@.dedup, a.id, now), ..old(self)@ },
                            *(*a).embedded->Some_0,
                            obj_doc_view(odoc),
                            gates_pass,
                            policy_accepts,
                            now,
                            a.id,
                        );
                    }
                    match r2 {
                        Ok(o) => {
                            let oc = match o {
                                IngestOutcome::Applied => Outcome::Applied,
                                IngestOutcome::Duplicate => Outcome::Duplicate,
                                IngestOutcome::Unsupported => Outcome::Applied,
                            };
                            self.dedup.set_outcome(a.id, oc);
                            (Ok(o), f2)
                        },
                        Err(e) => {
                            self.dedup.set_outcome(a.id, Outcome::Rejected);
                            (Err(e), f2)
                        },
                    }
                },
                None => {
                    // A well-formed Announce always wraps an activity.
                    proof {
                        assert(false);
                    }
                    (Err(EngineError::Parse), None)
                },
            }
        } else {
            let needs = match a.kind {
                ActivityKind::Update => true,
                ActivityKind::Delete => true,
                ActivityKind::Like => true,
                ActivityKind::Dislike => true,
                ActivityKind::Follow => true,
                _ => false,
            };
            let resolved = if needs {
                resolve_object(&mut self.store, a.object, odoc)
            } else {
                true
            };
            if !resolved {
                self.dedup.set_outcome(a.id, Outcome::Rejected);
                return (Err(EngineError::Resolution), None);
            }
            let (verdict, fup) = apply_activity(
                &mut self.store,
                a,
                gates_pass,
                policy_accepts,
            );
            match verdict {
                Ok(o) => {
                    let oc = match o {
                        IngestOutcome::Applied => Outcome::Applied,
                        IngestOutcome::Duplicate => Outcome::Duplicate,
                        IngestOutcome::Unsupported => Outcome::Applied,
                    };
                    self.dedup.set_outcome(a.id, oc);
                },
                Err(_) => {
                    self.dedup.set_outcome(a.id, Outcome::Rejected);
                },
            }
            (verdict, fup)
        }
    }

    /// Ingest one remote-originated activity, exactly as `ingest_spec` says:
    /// shape check, actor resolution, signature verification, dedup gate,
    /// object resolution, per-kind application, outcome record.
    ///
    /// The transport layer supplies what only it can know: `raw_sig_ok` is
    /// the outcome of the raw cryptographic check of the signature bytes
    /// against the resolved key; `actor_doc` and `object_doc` are the remote
    /// documents it fetched when asked (`None` on fetch failure or timeout);
    /// `gates_pass` is the conjunction of the external moderation and
    /// validation predicates; `policy_accepts` is the community follow
    /// policy; `now` is the receiver's clock.
    pub fn ingest(
        &mut self,
        a: &Activity,
        sig: SigMeta,
        raw_sig_ok: bool,
        actor_doc: Option<&ActorDoc>,
        object_doc: Option<&ObjectDoc>,
        gates_pass: bool,
        policy_accepts: bool,
        now: u64,
    ) -> (r: (Result<IngestOutcome, EngineError>, Option<Followup>))
        requires
            old(self).wf(),
        ensures
            final(self).wf(),
            final(self)@ =~~= ingest_spec(
                old(self)@,
                old(self).config,
                *a,
                sig,
                raw_sig_ok,
                fetched_view(actor_doc),
                obj_doc_view(object_doc),
                gates_pass,
                policy_accepts,
                now,
            ).0,
            r.0 == ingest_spec(
                old(self)@,
                old(self).config,
                *a,
                sig,
                raw_sig_ok,
                fetched_view(actor_doc),
                obj_doc_view(object_doc),
                gates_pass,
                policy_accepts,
                now,
            ).1,
            r.1 == ingest_spec(
                old(self)@,
                old(self).config,
                *a,
                sig,
                raw_sig_ok,
                fetched_view(actor_doc),
                obj_doc_view(object_doc),
                gates_pass,
                policy_accepts,
                now,
            ).2,
            final(self).config == old(self).config,
    {
        if !a.check_wf() {
            return (Err(EngineError::Parse), None);
        }
        let ares = self.directory.resolve(a.actor, now, self.config.actor_ttl, actor_doc);
        match ares {
            Err(_) => (Err(EngineError::Resolution), None),
            Ok(actor) => {
                let vres = verify_envelope(
                    a.actor,
                    sig,
                    actor.key_id,
                    raw_sig_ok,
                    now,
                    self.config.clock_skew,
                );
                match vres {
                    Err(_) => (Err(EngineError::Signature), None),
                    Ok(_) => self.ingest_authed(a, object_doc, gates_pass, policy_accepts, now),
                }
            },
        }
    }
}

/// Once a record for an id stands, every later pipeline step keeps one
/// standing: records are only added, or updated in place keeping their id.
pub proof fn lemma_authed_keeps_rec(
    m: EngineModel,
    a: Activity,
    odoc: Option<ObjectDoc>,
    gates_pass: bool,
    policy_accepts: bool,
    now: u64,
    id: Uri,
)
    requires
        has_rec(m.dedup, id),
    ensures
        has_rec(ingest_authed_spec(m, a, odoc, gates_pass, policy_accepts, now).0.dedup, id),
    decreases a,
{
    if blocked(m.dedup, a.id) {
    } else {
        let d1 = mark_spec(m.dedup, a.id, now);
        lemma_mark_keeps_rec(m.dedup, a.id, now, id);
        let m1 = EngineModel { dedup: d1, ..m };
        if a.kind is Announce {
            match a.embedded {
                Option::Some(inner) => {
                    lemma_authed_keeps_rec(m1, *inner, odoc, gates_pass, policy_accepts, now, id);
                    lemma_mark_has_rec(m.dedup, a.id, now);
                    lemma_authed_keeps_rec(
                        m1,
                        *inner,
                        odoc,
                        gates_pass,
                        policy_accepts,
                        now,
                        a.id,
                    );
                    let m2 = ingest_authed_spec(m1, *inner, odoc, gates_pass, policy_accepts, now).0;
                    lemma_set_outcome_keeps_rec(m2.dedup, a.id, Outcome::Applied, id);
                    lemma_set_outcome_keeps_rec(m2.dedup, a.id, Outcome::Duplicate, id);
                    lemma_set_outcome_keeps_rec(m2.dedup, a.id, Outcome::Rejected, id);
                },
                Option::None => {
                },
            }
        } else {
            lemma_mark_has_rec(m.dedup, a.id, now);
            lemma_set_outcome_keeps_rec(d1, a.id, Outcome::Applied, id);
            lemma_set_outcome_keeps_rec(d1, a.id, Outcome::Duplicate, id);
            lemma_set_outcome_keeps_rec(d1, a.id, Outcome::Rejected, id);
        }
    }
}

/// Admitting an id leaves a record for it standing.
pub proof fn lemma_mark_has_rec(s: Seq<ProcessingRecord>, id: Uri, now: u64)
    ensures
        has_rec(mark_spec(s, id, now), id),
{
    if has_rec(s, id) {
    } else {
        assert(mark_spec(s, id, now)[s.len() as int].activity_id == id);
    }
}

/// Recording a barring outcome bars the id.
proof fn lemma_set_outcome_blocked(s: Seq<ProcessingRecord>, id: Uri, outcome: Outcome)
    requires
        has_rec(s, id),
        outcome is Applied || outcome is Duplicate,
    ensures
        blocked(set_outcome_spec(s, id, outcome), id),
{
    let k = crate::dedup::rec_index(s, id);
    assert(0 <= k < s.len() && s[k].activity_id == id);
    assert(set_outcome_spec(s, id, outcome)[k].activity_id == id);
    assert(set_outcome_spec(s, id, outcome)[k].outcome == outcome);
}

/// Whenever the authenticated tail reports success for an activity, its id
/// is barred afterwards: a redelivery can only take the duplicate path.
pub proof fn lemma_ok_marks_blocked(
    m: EngineModel,
    a: Activity,
    odoc: Option<ObjectDoc>,
    gates_pass: bool,
    policy_accepts: bool,
    now: u64,
)
    ensures
        ingest_authed_spec(m, a, odoc, gates_pass, policy_accepts, now).1 is Ok ==> blocked(
            ingest_authed_spec(m, a, odoc, gates_pass, policy_accepts, now).0.dedup,
            a.id,
        ),
    decreases a,
{
    if blocked(m.dedup, a.id) {
    } else {
        let d1 = mark_spec(m.dedup, a.id, now);
        lemma_mark_has_rec(m.dedup, a.id, now);
        let m1 = EngineModel { dedup: d1, ..m };
        if a.kind is Announce {
            match a.embedded {
                Option::Some(inner) => {
                    let t = ingest_authed_spec(m1, *inner, odoc, gates_pass, policy_accepts, now);
                    lemma_authed_keeps_rec(
                        m1,
                        *inner,
                        odoc,
                        gates_pass,
                        policy_accepts,
                        now,
                        a.id,
                    );
                    match t.1 {
                        Ok(o) => {
                            lemma_set_outcome_blocked(t.0.dedup, a.id, rec_of(o));
                        },
                        Err(_) => {
                        },
                    }
                },
                Option::None => {
                },
            }
        } else {
            let resolution = if needs_object(a.kind) {
                resolve_object_spec(m1.store.objs, a.object, odoc)
            } else {
                (m1.store.objs, true)
            };
            if resolution.1 {
                let s2 = StoreModel { objs: resolution.0, ..m1.store };
                match apply_step(s2, a, gates_pass, policy_accepts).1 {
                    Ok(o) => {
                        lemma_set_outcome_blocked(d1, a.id, rec_of(o));
                    },
                    Err(_) => {
                    },
                }
            }
        }
    }
}

/// Re-delivery of a barred id is observably a no-op: neither the dedup
/// records nor the domain-object state change, and a successful answer can
/// only be `Duplicate`. (The actor cache may still refresh: identity data,
/// not domain-object state.)
pub proof fn lemma_duplicate_is_noop(
    m: EngineModel,
    cfg: EngineConfig,
    a: Activity,
    sig: SigMeta,
    raw_sig_ok: bool,
    adoc: Option<ActorDoc>,
    odoc: Option<ObjectDoc>,
    gates_pass: bool,
    policy_accepts: bool,
    now: u64,
)
    requires
        blocked(m.dedup, a.id),
    ensures
        ingest_spec(m, cfg, a, sig, raw_sig_ok, adoc, odoc, gates_pass, policy_accepts, now).0.store
            == m.store,
        ingest_spec(m, cfg, a, sig, raw_sig_ok, adoc, odoc, gates_pass, policy_accepts, now).0.dedup
            == m.dedup,
        ingest_spec(m, cfg, a, sig, raw_sig_ok, adoc, odoc, gates_pass, policy_accepts, now).1
            is Ok ==> ingest_spec(
            m,
            cfg,
            a,
            sig,
            raw_sig_ok,
            adoc,
            odoc,
            gates_pass,
            policy_accepts,
            now,
        ).1 == Ok::<IngestOutcome, EngineError>(IngestOutcome::Duplicate),
{
}

/// Idempotence of ingestion: once an ingestion of an activity has been
/// answered with success, ingesting the same activity again — with whatever
/// signature metadata, fetched documents, gate verdicts and clock the retry
/// arrives with — leaves the dedup records and the whole domain-object
/// state (objects, votes, follows) exactly as they were, and any successful
/// answer is `Duplicate`.
pub proof fn lemma_ingest_idempotent(
    m: EngineModel,
    cfg: EngineConfig,
    a: Activity,
    sig1: SigMeta,
    raw1: bool,
    adoc1: Option<ActorDoc>,
    odoc1: Option<ObjectDoc>,
    gates1: bool,
    policy1: bool,
    now1: u64,
    sig2: SigMeta,
    raw2: bool,
    adoc2: Option<ActorDoc>,
    odoc2: Option<ObjectDoc>,
    gates2: bool,
    policy2: bool,
    now2: u64,
)
    requires
        ingest_spec(m, cfg, a, sig1, raw1, adoc1, odoc1, gates1, policy1, now1).1 is Ok,
    ensures
        ingest_spec(
            ingest_spec(m, cfg, a, sig1, raw1, adoc1, odoc1, gates1, policy1, now1).0,
            cfg,
            a,
            sig2,
            raw2,
            adoc2,
            odoc2,
            gates2,
            policy2,
            now2,
        ).0.store == ingest_spec(m, cfg, a, sig1, raw1, adoc1, odoc1, gates1, policy1, now1).0.store,
        ingest_spec(
            ingest_spec(m, cfg, a, sig1, raw1, adoc1, odoc1, gates1, policy1, now1).0,
            cfg,
            a,
            sig2,
            raw2,
            adoc2,
            odoc2,
            gates2,
            policy2,
            now2,
        ).0.dedup == ingest_spec(m, cfg, a, sig1, raw1, adoc1, odoc1, gates1, policy1, now1).0.dedup,
        ingest_spec(
            ingest_spec(m, cfg, a, sig1, raw1, adoc1, odoc1, gates1, policy1, now1).0,
            cfg,
            a,
            sig2,
            raw2,
            adoc2,
            odoc2,
            gates2,
            policy2,
            now2,
        ).1 is Ok ==> ingest_spec(
            ingest_spec(m, cfg, a, sig1, raw1, adoc1, odoc1, gates1, policy1, now1).0,
            cfg,
            a,
            sig2,
            raw2,
            adoc2,
            odoc2,
            gates2,
            policy2,
            now2,
        ).1 == Ok::<IngestOutcome, EngineError>(IngestOutcome::Duplicate),
{
    let first = ingest_spec(m, cfg, a, sig1, raw1, adoc1, odoc1, gates1, policy1, now1);
    let resolution = resolve_spec(m.actors, a.actor, now1, cfg.actor_ttl, adoc1);
    let m1 = EngineModel { actors: resolution.0, ..m };
    lemma_ok_marks_blocked(m1, a, odoc1, gates1, policy1, now1);
    assert(blocked(first.0.dedup, a.id));
    lemma_duplicate_is_noop(
        first.0,
        cfg,
        a,
        sig2,
        raw2,
        adoc2,
        odoc2,
        gates2,
        policy2,
        now2,
    );
}

/// Admitting an id keeps every standing record.
proof fn lemma_mark_keeps_rec(s: Seq<ProcessingRecord>, marked: Uri, now: u64, id: Uri)
    requires
        has_rec(s, id),
    ensures
        has_rec(mark_spec(s, marked, now), id),
{
    let j = choose|j: int| 0 <= j < s.len() && s[j].activity_id == id;
    assert(mark_spec(s, marked, now)[j].activity_id == id);
}

/// Recording an outcome for an admitted id keeps every standing record.
proof fn lemma_set_outcome_keeps_rec(
    s: Seq<ProcessingRecord>,
    target: Uri,
    outcome: Outcome,
    id: Uri,
)
    requires
        has_rec(s, id),
        has_rec(s, target),
    ensures
        has_rec(set_outcome_spec(s, target, outcome), id),
{
    let t = set_outcome_spec(s, target, outcome);
    let k = crate::dedup::rec_index(s, target);
    assert(0 <= k < s.len() && s[k].activity_id == target);
    if id == target {
        assert(t[k].activity_id == id);
    } else {
        let j = choose|j: int| 0 <= j < s.len() && s[j].activity_id == id;
        assert(j != k);
        assert(t[j].activity_id == id);
    }
}

} // verus!
