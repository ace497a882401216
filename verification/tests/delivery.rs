use fedengine::activity::ActivityKind;
use fedengine::directory::{Actor, ActorDoc, ActorKind};
use fedengine::dispatch::{
    backoff_delay, dispatch, next_ready, on_response, plan_destinations, DeliveryResponse,
    DeliveryTask, Outbox, RetryConfig, TaskStatus,
};
use fedengine::errors::IngestOutcome;
use fedengine::ids::Uri;
use fedengine::ingest::{Engine, EngineConfig};
use fedengine::store::ObjectKind;

fn uri(domain: u64, path: u64) -> Uri {
    Uri { domain, path }
}

fn remote_actor(domain: u64, path: u64, shared: Option<Uri>) -> Actor {
    Actor {
        uri: uri(domain, path),
        kind: ActorKind::Person,
        key_id: uri(domain, path + 1),
        inbox: uri(domain, path + 2),
        shared_inbox: shared,
        local: false,
        refreshed: 0,
    }
}

fn retry_config() -> RetryConfig {
    RetryConfig { base_delay: 10, max_delay: 1_000_000, max_attempts: 4 }
}

fn pending_task() -> DeliveryTask {
    DeliveryTask {
        activity_id: uri(2, 1),
        object: uri(2, 2),
        inbox: uri(1, 3),
        attempts: 0,
        next_attempt: 0,
        status: TaskStatus::Pending,
    }
}

#[test]
fn transient_responses_escalate_then_kill() {
    // Only 5xx/timeout responses: the task is retried with strictly
    // increasing scheduled delay up to the attempt bound, dies, and is
    // never retried again.
    let c = retry_config();
    let mut t = pending_task();
    let now: u64 = 1000;
    let mut last_delay: u64 = 0;
    for round in 0..3u32 {
        on_response(&mut t, &c, DeliveryResponse::Transient, 7 + round as u64, now);
        assert_eq!(t.status, TaskStatus::Pending);
        assert_eq!(t.attempts, round + 1);
        let delay = t.next_attempt - now;
        assert!(delay > last_delay, "delay must strictly increase");
        last_delay = delay;
    }
    on_response(&mut t, &c, DeliveryResponse::Transient, 7, now);
    assert_eq!(t.status, TaskStatus::Dead);
    assert_eq!(t.attempts, 4);
    let dead = t;
    on_response(&mut t, &c, DeliveryResponse::Transient, 7, now + 10_000);
    assert_eq!(t, dead, "a dead task is never retried");
    on_response(&mut t, &c, DeliveryResponse::Success, 0, now + 20_000);
    assert_eq!(t, dead);
}

#[test]
fn permanent_refusal_kills_immediately() {
    let c = retry_config();
    let mut t = pending_task();
    on_response(&mut t, &c, DeliveryResponse::Permanent, 0, 1000);
    assert_eq!(t.status, TaskStatus::Dead);
    assert_eq!(t.attempts, 0);
}

#[test]
fn rate_limit_retries_like_a_transient_failure() {
    let c = retry_config();
    let mut t = pending_task();
    on_response(&mut t, &c, DeliveryResponse::RateLimited, 0, 1000);
    assert_eq!(t.status, TaskStatus::Pending);
    assert_eq!(t.attempts, 1);
    assert_eq!(t.next_attempt, 1010);
}

#[test]
fn success_marks_delivered() {
    let c = retry_config();
    let mut t = pending_task();
    on_response(&mut t, &c, DeliveryResponse::Success, 0, 1000);
    assert_eq!(t.status, TaskStatus::Delivered);
}

#[test]
fn backoff_doubles_and_caps() {
    let c = retry_config();
    assert_eq!(backoff_delay(&c, 0), 10);
    assert_eq!(backoff_delay(&c, 1), 20);
    assert_eq!(backoff_delay(&c, 2), 40);
    assert_eq!(backoff_delay(&c, 3), 80);
    let capped = RetryConfig { base_delay: 10, max_delay: 25, max_attempts: 8 };
    assert_eq!(backoff_delay(&capped, 0), 10);
    assert_eq!(backoff_delay(&capped, 1), 20);
    assert_eq!(backoff_delay(&capped, 2), 25);
    assert_eq!(backoff_delay(&capped, 3), 25);
}

#[test]
fn jitter_never_reaches_the_next_backoff_step() {
    let c = retry_config();
    let mut t = pending_task();
    let now: u64 = 1000;
    on_response(&mut t, &c, DeliveryResponse::Transient, u64::MAX, now);
    // base delay 10, so the jittered delay lies in [10, 20).
    assert!(t.next_attempt >= now + 10);
    assert!(t.next_attempt < now + 20);
}

#[test]
fn destinations_deduplicate_by_shared_inbox_and_skip_local() {
    let shared = uri(1, 900);
    let followers = vec![
        remote_actor(1, 10, Some(shared)),
        remote_actor(1, 20, Some(shared)),
        remote_actor(3, 30, None),
        Actor { local: true, ..remote_actor(2, 40, None) },
    ];
    let mentioned = vec![remote_actor(4, 50, None), remote_actor(1, 60, Some(shared))];
    let dests = plan_destinations(&followers, &mentioned);
    assert_eq!(dests.len(), 3);
    assert!(dests.contains(&shared));
    assert!(dests.contains(&uri(3, 32)));
    assert!(dests.contains(&uri(4, 52)));
}

#[test]
fn mint_id_is_fresh_and_bound_to_local_domain() {
    let mut outbox = Outbox::new(2);
    let a = outbox.mint_id();
    let b = outbox.mint_id();
    assert_eq!(a.domain, 2);
    assert_eq!(b.domain, 2);
    assert_ne!(a, b);
}

#[test]
fn dispatch_builds_signed_activity_and_one_task_per_inbox() {
    let mut outbox = Outbox::new(2);
    let sender = Actor {
        uri: uri(2, 1),
        kind: ActorKind::Person,
        key_id: uri(2, 2),
        inbox: uri(2, 3),
        shared_inbox: None,
        local: true,
        refreshed: 0,
    };
    let shared = uri(1, 900);
    let followers = vec![remote_actor(1, 10, Some(shared)), remote_actor(1, 20, Some(shared))];
    let mentioned = vec![];
    let (activity, sig, tasks) = dispatch(
        &mut outbox,
        &sender,
        ActivityKind::Create,
        uri(2, 77),
        ObjectKind::Comment,
        Some(uri(1, 5)),
        42,
        500,
        &followers,
        &mentioned,
        600,
    );
    assert_eq!(activity.id.domain, 2);
    assert_eq!(activity.actor, uri(2, 1));
    assert_eq!(activity.content, 42);
    assert_eq!(sig.key_id, uri(2, 2));
    assert_eq!(sig.date, 600);
    // Two followers behind one shared inbox: one delivery task.
    assert_eq!(tasks.len(), 1);
    assert_eq!(tasks[0].inbox, shared);
    assert_eq!(tasks[0].activity_id, activity.id);
    assert_eq!(tasks[0].status, TaskStatus::Pending);
    assert_eq!(tasks[0].attempts, 0);
    assert_eq!(tasks[0].next_attempt, 600);
}

#[test]
fn comment_create_federates_to_follower_inbox() {
    // A local comment: the dispatcher builds one signed Create addressed to
    // the community's follower inboxes; the remote inbox processor resolves
    // the sending actor, verifies the signature and creates the comment.
    let local_domain: u64 = 2;
    let mut outbox = Outbox::new(local_domain);
    let sender = Actor {
        uri: uri(local_domain, 1),
        kind: ActorKind::Person,
        key_id: uri(local_domain, 2),
        inbox: uri(local_domain, 3),
        shared_inbox: None,
        local: true,
        refreshed: 0,
    };
    let followers = vec![remote_actor(1, 10, Some(uri(1, 900)))];
    let now: u64 = 700;
    let (activity, sig, tasks) = dispatch(
        &mut outbox,
        &sender,
        ActivityKind::Create,
        uri(local_domain, 77),
        ObjectKind::Comment,
        Some(uri(1, 5)),
        42,
        now,
        &followers,
        &vec![],
        now,
    );
    assert_eq!(tasks.len(), 1);
    // The remote server processes the delivered activity.
    let mut remote = Engine::new(EngineConfig { clock_skew: 300, actor_ttl: 3600 });
    let sender_doc = ActorDoc {
        uri: sender.uri,
        kind: ActorKind::Person,
        key_id: Some(sender.key_id),
        inbox: Some(sender.inbox),
        shared_inbox: None,
    };
    let (r, _) = remote.ingest(&activity, sig, true, Some(&sender_doc), None, true, true, now + 1);
    assert_eq!(r, Ok(IngestOutcome::Applied));
    assert_eq!(remote.store.objs.len(), 1);
    assert_eq!(remote.store.objs[0].id, uri(local_domain, 77));
    assert_eq!(remote.store.objs[0].creator, sender.uri);
}

#[test]
fn scheduler_serializes_same_inbox_and_object() {
    let now: u64 = 100;
    let mk = |path: u64, object: u64, inbox: u64, due: u64, status: TaskStatus| DeliveryTask {
        activity_id: uri(2, path),
        object: uri(2, object),
        inbox: uri(1, inbox),
        attempts: 0,
        next_attempt: due,
        status,
    };
    // Second task for the same (inbox, object) waits for the first.
    let tasks = vec![
        mk(1, 7, 3, 500, TaskStatus::Pending),
        mk(2, 7, 3, 50, TaskStatus::Pending),
        mk(3, 8, 3, 50, TaskStatus::Pending),
    ];
    let picked = next_ready(&tasks, now).expect("a task is due");
    assert_eq!(picked, 2, "the same-object task is blocked, the other object runs");
    // Once the first is delivered, the second is free.
    let tasks2 = vec![
        mk(1, 7, 3, 50, TaskStatus::Delivered),
        mk(2, 7, 3, 50, TaskStatus::Pending),
    ];
    assert_eq!(next_ready(&tasks2, now), Some(1));
    // Nothing due: nothing picked.
    let tasks3 = vec![mk(1, 7, 3, 500, TaskStatus::Pending)];
    assert_eq!(next_ready(&tasks3, now), None);
}
