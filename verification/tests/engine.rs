use fedengine::activity::{Activity, ActivityKind};
use fedengine::dedup::Outcome;
use fedengine::directory::{Actor, ActorDoc, ActorKind};
use fedengine::errors::{EngineError, IngestOutcome};
use fedengine::ids::Uri;
use fedengine::ingest::{Engine, EngineConfig};
use fedengine::resolver::ObjectDoc;
use fedengine::signature::SigMeta;
use fedengine::store::{ObjectKind, VoteKind};

fn uri(domain: u64, path: u64) -> Uri {
    Uri { domain, path }
}

fn config() -> EngineConfig {
    EngineConfig { clock_skew: 300, actor_ttl: 3600 }
}

const REMOTE_DOMAIN: u64 = 1;

fn sender_uri() -> Uri {
    uri(REMOTE_DOMAIN, 10)
}

fn sender_key() -> Uri {
    uri(REMOTE_DOMAIN, 11)
}

fn sender_doc() -> ActorDoc {
    ActorDoc {
        uri: sender_uri(),
        kind: ActorKind::Person,
        key_id: Some(sender_key()),
        inbox: Some(uri(REMOTE_DOMAIN, 12)),
        shared_inbox: Some(uri(REMOTE_DOMAIN, 13)),
    }
}

fn good_sig(now: u64) -> SigMeta {
    SigMeta { key_id: sender_key(), date: now }
}

fn create_activity(id_path: u64, object_path: u64, ts: u64, content: u64) -> Activity {
    Activity {
        id: uri(REMOTE_DOMAIN, id_path),
        kind: ActivityKind::Create,
        actor: sender_uri(),
        object: uri(REMOTE_DOMAIN, object_path),
        object_kind: ObjectKind::Comment,
        target: None,
        published: ts,
        content,
        embedded: None,
    }
}

fn activity_on(kind: ActivityKind, id_path: u64, object_path: u64, ts: u64, content: u64) -> Activity {
    Activity {
        id: uri(REMOTE_DOMAIN, id_path),
        kind,
        actor: sender_uri(),
        object: uri(REMOTE_DOMAIN, object_path),
        object_kind: ObjectKind::Comment,
        target: None,
        published: ts,
        content,
        embedded: None,
    }
}

fn ingest_ok(engine: &mut Engine, a: &Activity, now: u64) -> IngestOutcome {
    let (r, _) = engine.ingest(a, good_sig(now), true, Some(&sender_doc()), None, true, true, now);
    r.expect("ingestion should succeed")
}

#[test]
fn create_applies_and_stores_object() {
    let mut e = Engine::new(config());
    let a = create_activity(100, 200, 50, 7);
    assert_eq!(ingest_ok(&mut e, &a, 60), IngestOutcome::Applied);
    assert_eq!(e.store.objs.len(), 1);
    let o = e.store.objs[0];
    assert_eq!(o.id, uri(REMOTE_DOMAIN, 200));
    assert_eq!(o.creator, sender_uri());
    assert_eq!(o.content, 7);
    assert_eq!(o.updated, 50);
    assert!(!o.deleted);
}

#[test]
fn duplicate_create_is_acknowledged_without_reapplying() {
    // A retried Create with the same activity id takes the dedup path:
    // success is reported, nothing is created twice.
    let mut e = Engine::new(config());
    let a = create_activity(100, 200, 50, 7);
    assert_eq!(ingest_ok(&mut e, &a, 60), IngestOutcome::Applied);
    assert_eq!(ingest_ok(&mut e, &a, 61), IngestOutcome::Duplicate);
    assert_eq!(e.store.objs.len(), 1);
    assert_eq!(e.dedup.recs.len(), 1);
    assert_eq!(e.dedup.recs[0].outcome, Outcome::Applied);
}

#[test]
fn updates_converge_on_newest_timestamp_in_either_order() {
    // Last writer wins by timestamp, not by arrival order.
    let t1: u64 = 70;
    let t2: u64 = 80;
    for flip in [false, true] {
        let mut e = Engine::new(config());
        ingest_ok(&mut e, &create_activity(100, 200, 50, 1), 60);
        let u1 = activity_on(ActivityKind::Update, 101, 200, t1, 11);
        let u2 = activity_on(ActivityKind::Update, 102, 200, t2, 22);
        let (first, second) = if flip { (&u2, &u1) } else { (&u1, &u2) };
        ingest_ok(&mut e, first, 90);
        ingest_ok(&mut e, second, 91);
        assert_eq!(e.store.objs[0].content, 22);
        assert_eq!(e.store.objs[0].updated, t2);
    }
}

#[test]
fn update_with_equal_timestamp_still_applies() {
    // "Not older" wins: an update carrying exactly the object's last
    // federation timestamp overwrites.
    let mut e = Engine::new(config());
    ingest_ok(&mut e, &create_activity(100, 200, 50, 1), 60);
    ingest_ok(&mut e, &activity_on(ActivityKind::Update, 101, 200, 50, 5), 61);
    assert_eq!(e.store.objs[0].content, 5);
}

#[test]
fn delete_tombstones_and_no_update_revives() {
    let mut e = Engine::new(config());
    ingest_ok(&mut e, &create_activity(100, 200, 50, 1), 60);
    ingest_ok(&mut e, &activity_on(ActivityKind::Delete, 101, 200, 55, 0), 61);
    assert!(e.store.objs[0].deleted);
    assert_eq!(e.store.visible_content_of(uri(REMOTE_DOMAIN, 200)), None);
    // A later-timestamped update cannot revive the tombstone.
    ingest_ok(&mut e, &activity_on(ActivityKind::Update, 102, 200, 99, 33), 62);
    assert!(e.store.objs[0].deleted);
    assert_eq!(e.store.objs[0].content, 1);
    assert_eq!(e.store.visible_content_of(uri(REMOTE_DOMAIN, 200)), None);
}

#[test]
fn community_delete_beats_late_update_in_either_order() {
    // A Delete for a community arriving before an in-flight Update: the
    // final state is deleted whichever is processed first.
    for flip in [false, true] {
        let mut e = Engine::new(config());
        let mut c = create_activity(100, 200, 50, 1);
        c.object_kind = ObjectKind::Community;
        ingest_ok(&mut e, &c, 60);
        let del = activity_on(ActivityKind::Delete, 101, 200, 70, 0);
        let upd = activity_on(ActivityKind::Update, 102, 200, 80, 9);
        let (first, second) = if flip { (&upd, &del) } else { (&del, &upd) };
        ingest_ok(&mut e, first, 90);
        ingest_ok(&mut e, second, 91);
        // Whichever arrives first, the community ends tombstoned: no
        // content is observable.
        assert!(e.store.objs[0].deleted);
    }
}

#[test]
fn cross_domain_key_is_rejected_even_with_valid_signature() {
    // The signing key belongs to another domain than the claimed actor:
    // hard rejection, and no dedup record is created.
    let mut e = Engine::new(config());
    let a = create_activity(100, 200, 50, 7);
    let foreign_key = uri(9, 11);
    let doc = ActorDoc { key_id: Some(foreign_key), ..sender_doc() };
    let sig = SigMeta { key_id: foreign_key, date: 60 };
    let (r, _) = e.ingest(&a, sig, true, Some(&doc), None, true, true, 60);
    assert_eq!(r, Err(EngineError::Signature));
    assert_eq!(e.dedup.recs.len(), 0);
    assert_eq!(e.store.objs.len(), 0);
}

#[test]
fn failed_raw_signature_check_is_rejected() {
    let mut e = Engine::new(config());
    let a = create_activity(100, 200, 50, 7);
    let (r, _) = e.ingest(&a, good_sig(60), false, Some(&sender_doc()), None, true, true, 60);
    assert_eq!(r, Err(EngineError::Signature));
    assert_eq!(e.dedup.recs.len(), 0);
}

#[test]
fn stale_date_outside_skew_window_is_rejected() {
    let mut e = Engine::new(config());
    let a = create_activity(100, 200, 50, 7);
    let now: u64 = 10_000;
    let sig = SigMeta { key_id: sender_key(), date: now - 301 };
    let (r, _) = e.ingest(&a, sig, true, Some(&sender_doc()), None, true, true, now);
    assert_eq!(r, Err(EngineError::Signature));
    let sig_edge = SigMeta { key_id: sender_key(), date: now - 300 };
    let (r2, _) = e.ingest(&a, sig_edge, true, Some(&sender_doc()), None, true, true, now);
    assert_eq!(r2, Ok(IngestOutcome::Applied));
}

#[test]
fn unresolvable_actor_is_rejected_without_record() {
    let mut e = Engine::new(config());
    let a = create_activity(100, 200, 50, 7);
    let (r, _) = e.ingest(&a, good_sig(60), true, None, None, true, true, 60);
    assert_eq!(r, Err(EngineError::Resolution));
    assert_eq!(e.dedup.recs.len(), 0);
}

#[test]
fn malformed_actor_document_is_rejected() {
    let mut e = Engine::new(config());
    let a = create_activity(100, 200, 50, 7);
    let doc = ActorDoc { key_id: None, ..sender_doc() };
    let (r, _) = e.ingest(&a, good_sig(60), true, Some(&doc), None, true, true, 60);
    assert_eq!(r, Err(EngineError::Resolution));
}

#[test]
fn cached_actor_is_used_within_ttl_and_refetched_after() {
    let mut e = Engine::new(config());
    ingest_ok(&mut e, &create_activity(100, 200, 50, 7), 60);
    // Within the TTL no document is needed.
    let a2 = create_activity(101, 201, 50, 8);
    let (r, _) = e.ingest(&a2, good_sig(61), true, None, None, true, true, 61);
    assert_eq!(r, Ok(IngestOutcome::Applied));
    // Past the TTL the cache is stale and a failed fetch rejects.
    let late: u64 = 61 + 3600 + 1;
    let a3 = create_activity(102, 202, 50, 9);
    let sig = SigMeta { key_id: sender_key(), date: late };
    let (r3, _) = e.ingest(&a3, sig, true, None, None, true, true, late);
    assert_eq!(r3, Err(EngineError::Resolution));
}

#[test]
fn update_of_unknown_object_resolves_via_fetch() {
    let mut e = Engine::new(config());
    let doc = ObjectDoc {
        id: uri(REMOTE_DOMAIN, 200),
        kind: ObjectKind::Comment,
        creator: Some(sender_uri()),
        content: 5,
        published: 40,
    };
    let u = activity_on(ActivityKind::Update, 100, 200, 50, 6);
    let (r, _) = e.ingest(&u, good_sig(60), true, Some(&sender_doc()), Some(&doc), true, true, 60);
    assert_eq!(r, Ok(IngestOutcome::Applied));
    assert_eq!(e.store.objs[0].content, 6);
}

#[test]
fn unresolvable_object_rejects_and_legitimate_retry_succeeds() {
    let mut e = Engine::new(config());
    let u = activity_on(ActivityKind::Update, 100, 200, 50, 6);
    let (r, _) = e.ingest(&u, good_sig(60), true, Some(&sender_doc()), None, true, true, 60);
    assert_eq!(r, Err(EngineError::Resolution));
    assert_eq!(e.dedup.recs.len(), 1);
    assert_eq!(e.dedup.recs[0].outcome, Outcome::Rejected);
    // The rejection does not bar a later retry once the object resolves.
    let doc = ObjectDoc {
        id: uri(REMOTE_DOMAIN, 200),
        kind: ObjectKind::Comment,
        creator: Some(sender_uri()),
        content: 5,
        published: 40,
    };
    let (r2, _) = e.ingest(&u, good_sig(61), true, None, Some(&doc), true, true, 61);
    assert_eq!(r2, Ok(IngestOutcome::Applied));
    assert_eq!(e.dedup.recs[0].outcome, Outcome::Applied);
}

#[test]
fn failed_moderation_gate_rejects_and_cleared_gate_retries() {
    let mut e = Engine::new(config());
    let a = create_activity(100, 200, 50, 7);
    let (r, _) = e.ingest(&a, good_sig(60), true, Some(&sender_doc()), None, false, true, 60);
    assert_eq!(r, Err(EngineError::Application));
    assert_eq!(e.store.objs.len(), 0);
    let (r2, _) = e.ingest(&a, good_sig(61), true, None, None, true, true, 61);
    assert_eq!(r2, Ok(IngestOutcome::Applied));
    assert_eq!(e.store.objs.len(), 1);
}

#[test]
fn malformed_announce_is_a_parse_error() {
    let mut e = Engine::new(config());
    let a = activity_on(ActivityKind::Announce, 100, 200, 50, 0);
    let (r, _) = e.ingest(&a, good_sig(60), true, Some(&sender_doc()), None, true, true, 60);
    assert_eq!(r, Err(EngineError::Parse));
    assert_eq!(e.dedup.recs.len(), 0);
}

#[test]
fn votes_upsert_idempotently() {
    let mut e = Engine::new(config());
    ingest_ok(&mut e, &create_activity(100, 200, 50, 1), 60);
    ingest_ok(&mut e, &activity_on(ActivityKind::Like, 101, 200, 51, 0), 61);
    ingest_ok(&mut e, &activity_on(ActivityKind::Like, 102, 200, 52, 0), 62);
    assert_eq!(e.store.votes.len(), 1);
    assert_eq!(e.store.votes[0].vote, VoteKind::Like);
    // A dislike by the same actor replaces the like.
    ingest_ok(&mut e, &activity_on(ActivityKind::Dislike, 103, 200, 53, 0), 63);
    assert_eq!(e.store.votes.len(), 1);
    assert_eq!(e.store.votes[0].vote, VoteKind::Dislike);
}

#[test]
fn undo_reverses_a_recorded_like() {
    let mut e = Engine::new(config());
    ingest_ok(&mut e, &create_activity(100, 200, 50, 1), 60);
    ingest_ok(&mut e, &activity_on(ActivityKind::Like, 101, 200, 51, 0), 61);
    let mut undo = activity_on(ActivityKind::Undo, 102, 200, 52, 0);
    undo.embedded = Some(Box::new(activity_on(ActivityKind::Like, 101, 200, 51, 0)));
    assert_eq!(ingest_ok(&mut e, &undo, 62), IngestOutcome::Applied);
    assert_eq!(e.store.votes.len(), 0);
    // Undoing again is a no-op, not an error.
    let mut undo2 = activity_on(ActivityKind::Undo, 103, 200, 53, 0);
    undo2.embedded = Some(Box::new(activity_on(ActivityKind::Like, 101, 200, 51, 0)));
    assert_eq!(ingest_ok(&mut e, &undo2, 63), IngestOutcome::Applied);
    assert_eq!(e.store.votes.len(), 0);
}

#[test]
fn undo_by_another_actor_is_refused() {
    let mut e = Engine::new(config());
    ingest_ok(&mut e, &create_activity(100, 200, 50, 1), 60);
    ingest_ok(&mut e, &activity_on(ActivityKind::Like, 101, 200, 51, 0), 61);
    let mut inner = activity_on(ActivityKind::Like, 101, 200, 51, 0);
    inner.actor = uri(REMOTE_DOMAIN, 77);
    let mut undo = activity_on(ActivityKind::Undo, 102, 200, 52, 0);
    undo.embedded = Some(Box::new(inner));
    let (r, _) = e.ingest(&undo, good_sig(62), true, None, None, true, true, 62);
    assert_eq!(r, Err(EngineError::Application));
    assert_eq!(e.store.votes.len(), 1);
}

#[test]
fn undo_of_delete_restores_the_object() {
    let mut e = Engine::new(config());
    ingest_ok(&mut e, &create_activity(100, 200, 50, 1), 60);
    ingest_ok(&mut e, &activity_on(ActivityKind::Delete, 101, 200, 55, 0), 61);
    assert!(e.store.objs[0].deleted);
    let mut undo = activity_on(ActivityKind::Undo, 102, 200, 56, 0);
    undo.embedded = Some(Box::new(activity_on(ActivityKind::Delete, 101, 200, 55, 0)));
    assert_eq!(ingest_ok(&mut e, &undo, 62), IngestOutcome::Applied);
    assert!(!e.store.objs[0].deleted);
}

#[test]
fn follow_records_follower_and_owes_accept() {
    let mut e = Engine::new(config());
    let mut c = create_activity(100, 200, 50, 1);
    c.object_kind = ObjectKind::Community;
    ingest_ok(&mut e, &c, 60);
    let f = activity_on(ActivityKind::Follow, 101, 200, 51, 0);
    let (r, fup) = e.ingest(&f, good_sig(61), true, None, None, true, true, 61);
    assert_eq!(r, Ok(IngestOutcome::Applied));
    let fup = fup.expect("a follow owes a reply");
    assert!(fup.accept);
    assert_eq!(fup.to, sender_uri());
    assert_eq!(fup.community, uri(REMOTE_DOMAIN, 200));
    assert_eq!(e.store.follows.len(), 1);
}

#[test]
fn follow_against_policy_owes_reject_and_records_nothing() {
    let mut e = Engine::new(config());
    let mut c = create_activity(100, 200, 50, 1);
    c.object_kind = ObjectKind::Community;
    ingest_ok(&mut e, &c, 60);
    let f = activity_on(ActivityKind::Follow, 101, 200, 51, 0);
    let (r, fup) = e.ingest(&f, good_sig(61), true, None, None, true, false, 61);
    assert_eq!(r, Ok(IngestOutcome::Applied));
    assert!(!fup.expect("a follow owes a reply").accept);
    assert_eq!(e.store.follows.len(), 0);
}

#[test]
fn announce_applies_embedded_activity_with_inner_dedup() {
    let mut e = Engine::new(config());
    let mut ann = activity_on(ActivityKind::Announce, 100, 200, 50, 0);
    ann.embedded = Some(Box::new(create_activity(150, 200, 50, 7)));
    assert_eq!(ingest_ok(&mut e, &ann, 60), IngestOutcome::Applied);
    assert_eq!(e.store.objs.len(), 1);
    // A second relay of the same inner activity under a fresh outer id is
    // deduplicated by the inner id.
    let mut ann2 = activity_on(ActivityKind::Announce, 101, 200, 50, 0);
    ann2.embedded = Some(Box::new(create_activity(150, 200, 50, 7)));
    assert_eq!(ingest_ok(&mut e, &ann2, 61), IngestOutcome::Duplicate);
    assert_eq!(e.store.objs.len(), 1);
}

#[test]
fn unsupported_kind_is_acknowledged_without_effect() {
    let mut e = Engine::new(config());
    let a = activity_on(ActivityKind::Report, 100, 200, 50, 0);
    assert_eq!(ingest_ok(&mut e, &a, 60), IngestOutcome::Unsupported);
    assert_eq!(e.store.objs.len(), 0);
    // It is recorded, so a redelivery is a duplicate.
    assert_eq!(ingest_ok(&mut e, &a, 61), IngestOutcome::Duplicate);
}

#[test]
fn create_race_with_existing_object_is_a_noop_success() {
    let mut e = Engine::new(config());
    ingest_ok(&mut e, &create_activity(100, 200, 50, 1), 60);
    // A second Create for the same object under a fresh activity id.
    let r = ingest_ok(&mut e, &create_activity(101, 200, 55, 9), 61);
    assert_eq!(r, IngestOutcome::Applied);
    assert_eq!(e.store.objs.len(), 1);
    assert_eq!(e.store.objs[0].content, 1);
}

#[test]
fn undo_without_embedded_activity_is_a_parse_error() {
    let mut e = Engine::new(config());
    let undo = activity_on(ActivityKind::Undo, 100, 200, 50, 0);
    let (r, _) = e.ingest(&undo, good_sig(60), true, Some(&sender_doc()), None, true, true, 60);
    assert_eq!(r, Err(EngineError::Parse));
    assert_eq!(e.dedup.recs.len(), 0);
}

#[test]
fn delete_of_unresolvable_object_is_a_resolution_error() {
    let mut e = Engine::new(config());
    let d = activity_on(ActivityKind::Delete, 100, 200, 50, 0);
    let (r, _) = e.ingest(&d, good_sig(60), true, Some(&sender_doc()), None, true, true, 60);
    assert_eq!(r, Err(EngineError::Resolution));
}

#[test]
fn background_refresh_lists_exactly_the_stale_remote_entries() {
    let mut e = Engine::new(config());
    // A remote actor cached at t=60 is stale after the TTL.
    ingest_ok(&mut e, &create_activity(100, 200, 50, 7), 60);
    let local = Actor {
        uri: uri(2, 1),
        kind: ActorKind::Person,
        key_id: uri(2, 2),
        inbox: uri(2, 3),
        shared_inbox: None,
        local: true,
        refreshed: 0,
    };
    e.directory.register_local(local);
    let fresh_time: u64 = 100;
    assert_eq!(e.directory.refresh_candidates(fresh_time, 3600).len(), 0);
    let late: u64 = 60 + 3600 + 1;
    let due = e.directory.refresh_candidates(late, 3600);
    // The local entry never needs a refresh; the remote one does.
    assert_eq!(due.len(), 1);
    assert_eq!(due[0], sender_uri());
}

#[test]
fn registered_local_actor_resolves_without_fetch() {
    let mut e = Engine::new(config());
    let local = Actor {
        uri: uri(2, 1),
        kind: ActorKind::Person,
        key_id: uri(2, 2),
        inbox: uri(2, 3),
        shared_inbox: None,
        local: true,
        refreshed: 0,
    };
    e.directory.register_local(local);
    let mut a = create_activity(100, 200, 50, 7);
    a.actor = uri(2, 1);
    let far_future: u64 = 1_000_000;
    let sig = SigMeta { key_id: uri(2, 2), date: far_future };
    let (r, _) = e.ingest(&a, sig, true, None, None, true, true, far_future);
    assert_eq!(r, Ok(IngestOutcome::Applied));
}
