use vstd::prelude::*;
use crate::ids::Uri;
use crate::activity::{Activity, ActivityKind};
use crate::directory::Actor;
use crate::signature::{sign_envelope, SigMeta};
use crate::store::ObjectKind;

verus! {

/// Where one outbound delivery attempt stands.
#[derive(Clone, Copy, PartialEq, Eq, Structural, Debug)]
pub enum TaskStatus {
    Pending,
    Delivered,
    Dead,
}

/// How an attempted delivery came back, as the transport layer classifies
/// it: delivered; transiently failed (network error, 5xx, timeout);
/// rate-limited (retried like a transient failure); or permanently refused
/// (any other 4xx — dead immediately).
#[derive(Clone, Copy, PartialEq, Eq, Structural, Debug)]
pub enum DeliveryResponse {
    Success,
    Transient,
    RateLimited,
    Permanent,
}

/// One outbound attempt unit: an activity bound for one destination inbox,
/// with its retry state. Created by the dispatcher, driven by the delivery
/// worker, terminal in `Delivered` or `Dead`.
#[derive(Clone, Copy, PartialEq, Eq, Structural, Debug)]
pub struct DeliveryTask {
    pub activity_id: Uri,
    pub object: Uri,
    pub inbox: Uri,
    pub attempts: u32,
    pub next_attempt: u64,
    pub status: TaskStatus,
}

/// Retry policy: base backoff delay, hard cap on one delay, and the bound
/// on delivery attempts after which a task dies.
#[derive(Clone, Copy, PartialEq, Eq, Structural, Debug)]
pub struct RetryConfig {
    pub base_delay: u64,
    pub max_delay: u64,
    pub max_attempts: u32,
}

/// The backoff delay before retry number `k` (zero-based): the base delay,
/// doubled per failed attempt, capped at the configured maximum.
pub open spec fn backoff_spec(c: RetryConfig, k: nat) -> u64
    decreases k,
{
    if k == 0 {
        if c.base_delay >= c.max_delay {
            c.max_delay
        } else {
            c.base_delay
        }
    } else {
        let p = backoff_spec(c, (k - 1) as nat);
        if p >= c.max_delay || 2 * (p as int) >= c.max_delay as int {
            c.max_delay
        } else {
            (2 * p) as u64
        }
    }
}

/// Saturating clock addition: the schedule never wraps around.
pub open spec fn sat_add(a: u64, b: u64) -> u64 {
    if a + b > u64::MAX {
        u64::MAX
    } else {
        (a + b) as u64
    }
}

/// The jitter actually added before retry `k`: the caller's jitter word
/// reduced below the backoff delay, so that jitter can never reorder two
/// consecutive backoff steps.
pub open spec fn jitter_of(c: RetryConfig, k: nat, jitter: u64) -> u64 {
    if backoff_spec(c, k) == 0 {
        0
    } else {
        (jitter % backoff_spec(c, k)) as u64
    }
}

/// The task after the transport layer reports one delivery response.
/// Terminal tasks never change: a dead task is never retried. A transient
/// or rate-limited response consumes one attempt; at the attempt bound the
/// task dies, otherwise it is rescheduled after the jittered backoff delay.
/// A permanent refusal kills the task immediately.
pub open spec fn task_after_response(
    t: DeliveryTask,
    c: RetryConfig,
    resp: DeliveryResponse,
    jitter: u64,
    now: u64,
) -> DeliveryTask {
    if !(t.status is Pending) {
        t
    } else {
        match resp {
            DeliveryResponse::Success => DeliveryTask { status: TaskStatus::Delivered, ..t },
            DeliveryResponse::Permanent => DeliveryTask { status: TaskStatus::Dead, ..t },
            _ => {
                let na = if t.attempts >= c.max_attempts {
                    t.attempts
                } else {
                    (t.attempts + 1) as u32
                };
                if na >= c.max_attempts {
                    DeliveryTask { status: TaskStatus::Dead, attempts: na, ..t }
                } else {
                    DeliveryTask {
                        status: TaskStatus::Pending,
                        attempts: na,
                        next_attempt: sat_add(
                            sat_add(now, backoff_spec(c, t.attempts as nat)),
                            jitter_of(c, t.attempts as nat, jitter),
                        ),
                        ..t
                    }
                }
            },
        }
    }
}

/// Compute the backoff delay before retry `k`.
pub fn backoff_delay(c: &RetryConfig, k: u32) -> (d: u64)
    ensures
        d == backoff_spec(*c, k as nat),
{
    let mut d: u64 = if c.base_delay >= c.max_delay {
        c.max_delay
    } else {
        c.base_delay
    };
    let mut i: u32 = 0;
    while i < k
        invariant
            i <= k,
            d == backoff_spec(*c, i as nat),
        decreases k - i,
    {
        if d >= c.max_delay || d >= c.max_delay - d {
            d = c.max_delay;
        } else {
            d = 2 * d;
        }
        i = i + 1;
    }
    d
}

/// Advance one task by one delivery response, exactly as
/// `task_after_response` says. `jitter` is whatever randomness the caller
/// drew; any value is safe, the attempt count never decreases, and a
/// terminal task stays exactly as it was.
pub fn on_response(
    t: &mut DeliveryTask,
    c: &RetryConfig,
    resp: DeliveryResponse,
    jitter: u64,
    now: u64,
)
    ensures
        *final(t) == task_after_response(*old(t), *c, resp, jitter, now),
        final(t).attempts >= old(t).attempts,
        !(old(t).status is Pending) ==> *final(t) == *old(t),
{
    if let TaskStatus::Pending = t.status {
        match resp {
            DeliveryResponse::Success => {
                t.status = TaskStatus::Delivered;
            },
            DeliveryResponse::Permanent => {
                t.status = TaskStatus::Dead;
            },
            _ => {
                let na = if t.attempts >= c.max_attempts {
                    t.attempts
                } else {
                    t.attempts + 1
                };
                if na >= c.max_attempts {
                    t.status = TaskStatus::Dead;
                    t.attempts = na;
                } else {
                    let d = backoff_delay(c, t.attempts);
                    let j = if d == 0 {
                        0
                    } else {
                        jitter % d
                    };
                    let base = if now > u64::MAX - d {
                        u64::MAX
                    } else {
                        now + d
                    };
                    let sched = if base > u64::MAX - j {
                        u64::MAX
                    } else {
                        base + j
                    };
                    t.attempts = na;
                    t.next_attempt = sched;
                    t.status = TaskStatus::Pending;
                }
            },
        }
    }
}

/// A terminal task absorbs every response: in particular a dead task is
/// never rescheduled, whatever responses arrive afterwards.
pub proof fn lemma_dead_stays_dead(
    t: DeliveryTask,
    c: RetryConfig,
    resp: DeliveryResponse,
    jitter: u64,
    now: u64,
)
    requires
        t.status is Dead,
    ensures
        task_after_response(t, c, resp, jitter, now) == t,
{
}

/// A delivered task is equally terminal: no response reopens it.
pub proof fn lemma_delivered_stays_delivered(
    t: DeliveryTask,
    c: RetryConfig,
    resp: DeliveryResponse,
    jitter: u64,
    now: u64,
)
    requires
        t.status is Delivered,
    ensures
        task_after_response(t, c, resp, jitter, now) == t,
{
}

/// The backoff delay never shrinks as attempts accumulate.
pub proof fn lemma_backoff_nondecreasing(c: RetryConfig, k1: nat, k2: nat)
    requires
        k1 <= k2,
    ensures
        backoff_spec(c, k1) <= backoff_spec(c, k2),
    decreases k2 - k1,
{
    if k1 < k2 {
        lemma_backoff_nondecreasing(c, k1, (k2 - 1) as nat);
    }
}

/// Below the cap, each backoff step exactly doubles, so the delay grows
/// strictly from every attempt to every later one.
pub proof fn lemma_backoff_strictly_increases(c: RetryConfig, k1: nat, k2: nat)
    requires
        c.base_delay >= 1,
        k1 < k2,
        backoff_spec(c, k2) < c.max_delay,
    ensures
        backoff_spec(c, k1) < backoff_spec(c, k2),
    decreases k2,
{
    lemma_backoff_positive(c, k1);
    lemma_backoff_nondecreasing(c, (k1 + 1) as nat, k2);
    assert(backoff_spec(c, (k1 + 1) as nat) <= backoff_spec(c, k2));
    if backoff_spec(c, (k1 + 1) as nat) >= c.max_delay {
        assert(false);
    }
    assert(backoff_spec(c, (k1 + 1) as nat) == 2 * backoff_spec(c, k1));
}

/// With a positive base delay every backoff delay is positive.
pub proof fn lemma_backoff_positive(c: RetryConfig, k: nat)
    requires
        c.base_delay >= 1,
    ensures
        backoff_spec(c, k) >= 1 || backoff_spec(c, k) == c.max_delay,
    decreases k,
{
    if k > 0 {
        lemma_backoff_positive(c, (k - 1) as nat);
    }
}

/// The whole scheduled delay — backoff plus jitter — grows strictly between
/// any two attempts below the cap, whatever jitter either attempt drew: the
/// jitter added before retry `k` stays below that retry's own backoff
/// delay, and one doubling step outgrows it.
pub proof fn lemma_scheduled_delay_strictly_increases(
    c: RetryConfig,
    k1: nat,
    k2: nat,
    j1: u64,
    j2: u64,
)
    requires
        c.base_delay >= 1,
        k1 < k2,
        backoff_spec(c, k2) < c.max_delay,
    ensures
        backoff_spec(c, k1) + jitter_of(c, k1, j1) < backoff_spec(c, k2) + jitter_of(c, k2, j2),
    decreases k2,
{
    lemma_backoff_positive(c, k1);
    lemma_backoff_nondecreasing(c, (k1 + 1) as nat, k2);
    if backoff_spec(c, (k1 + 1) as nat) >= c.max_delay {
        assert(false);
    }
    assert(backoff_spec(c, (k1 + 1) as nat) == 2 * backoff_spec(c, k1));
    assert(jitter_of(c, k1, j1) < backoff_spec(c, k1));
}

/// The inbox one actually delivers to for an actor: the shared inbox where
/// the remote server advertises one (one delivery per server instead of one
/// per follower), the personal inbox otherwise.
pub open spec fn effective_inbox(a: Actor) -> Uri {
    match a.shared_inbox {
        Option::Some(s) => s,
        Option::None => a.inbox,
    }
}

/// A destination inbox is owed exactly to the remote actors among the
/// community's followers and the explicitly mentioned actors.
pub open spec fn is_destination(followers: Seq<Actor>, mentioned: Seq<Actor>, u: Uri) -> bool {
    ||| exists|k: int|
        0 <= k < followers.len() && !followers[k].local && effective_inbox(followers[k]) == u
    ||| exists|k: int|
        0 <= k < mentioned.len() && !mentioned[k].local && effective_inbox(mentioned[k]) == u
}

/// The Outbox Dispatcher's id mint: outbound activity ids are fresh URIs
/// bound to the local domain.
pub struct Outbox {
    pub local_domain: u64,
    pub next_path: u64,
}

impl Outbox {
    /// A mint for this server's domain.
    pub fn new(local_domain: u64) -> (r: Outbox)
        ensures
            r.local_domain == local_domain,
            r.next_path == 0,
    {
        Outbox { local_domain, next_path: 0 }
    }

    /// Mint a fresh activity id under the local domain. Successive ids
    /// carry strictly increasing path tokens, so no id is minted twice.
    pub fn mint_id(&mut self) -> (id: Uri)
        requires
            old(self).next_path < u64::MAX,
        ensures
            id.domain == old(self).local_domain,
            id.path == old(self).next_path,
            final(self).next_path == old(self).next_path + 1,
            final(self).local_domain == old(self).local_domain,
    {
        let id = Uri { domain: self.local_domain, path: self.next_path };
        self.next_path = self.next_path + 1;
        id
    }
}

/// Collect the destination inboxes for an activity: the remote followers of
/// the target community and the mentioned remote actors, one entry per
/// distinct effective inbox (shared-inbox fan-out dedup), local actors
/// excluded.
pub fn plan_destinations(followers: &Vec<Actor>, mentioned: &Vec<Actor>) -> (r: Vec<Uri>)
    ensures
        forall|i: int, j: int| 0 <= i < j < r@.len() ==> r@[i] != r@[j],
        forall|u: Uri| r@.contains(u) <==> is_destination(followers@, mentioned@, u),
{
    let mut r: Vec<Uri> = Vec::new();
    let mut i: usize = 0;
    while i < followers.len()
        invariant
            i <= followers@.len(),
            forall|p: int, q: int| 0 <= p < q < r@.len() ==> r@[p] != r@[q],
            forall|v: Uri|
                r@.contains(v) ==> exists|k: int|
                    0 <= k < i && !followers@[k].local && effective_inbox(followers@[k]) == v,
            forall|k: int|
                0 <= k < i && !followers@[k].local ==> r@.contains(
                    #[trigger] effective_inbox(followers@[k]),
                ),
        decreases followers@.len() - i,
    {
        let a = followers[i];
        if !a.local {
            let u = match a.shared_inbox {
                Some(s) => s,
                None => a.inbox,
            };
            proof {
                assert(effective_inbox(followers@[i as int]) == u);
            }
            let ghost before = r@;
            push_unique(&mut r, u);
            proof {
                assert forall|v: Uri| r@.contains(v) implies exists|k: int|
                    0 <= k < i + 1 && !followers@[k].local && effective_inbox(followers@[k])
                        == v by {
                    if before.contains(v) {
                        let k = choose|k: int|
                            0 <= k < i && !followers@[k].local && effective_inbox(followers@[k])
                                == v;
                        assert(0 <= k < i + 1 && !followers@[k].local && effective_inbox(
                            followers@[k],
                        ) == v);
                    } else {
                        assert(v == u);
                        assert(0 <= i < i + 1 && !followers@[i as int].local && effective_inbox(
                            followers@[i as int],
                        ) == v);
                    }
                }
            }
        }
        i = i + 1;
    }
    let mut j: usize = 0;
    while j < mentioned.len()
        invariant
            j <= mentioned@.len(),
            forall|p: int, q: int| 0 <= p < q < r@.len() ==> r@[p] != r@[q],
            forall|v: Uri|
                r@.contains(v) ==> (exists|k: int|
                    0 <= k < followers@.len() && !followers@[k].local && effective_inbox(
                        followers@[k],
                    ) == v) || (exists|k: int|
                    0 <= k < j && !mentioned@[k].local && effective_inbox(mentioned@[k]) == v),
            forall|k: int|
                0 <= k < followers@.len() && !followers@[k].local ==> r@.contains(
                    #[trigger] effective_inbox(followers@[k]),
                ),
            forall|k: int|
                0 <= k < j && !mentioned@[k].local ==> r@.contains(
                    #[trigger] effective_inbox(mentioned@[k]),
                ),
        decreases mentioned@.len() - j,
    {
        let a = mentioned[j];
        if !a.local {
            let u = match a.shared_inbox {
                Some(s) => s,
                None => a.inbox,
            };
            proof {
                assert(effective_inbox(mentioned@[j as int]) == u);
            }
            let ghost before = r@;
            push_unique(&mut r, u);
            proof {
                assert forall|v: Uri| r@.contains(v) implies (exists|k: int|
                    0 <= k < followers@.len() && !followers@[k].local && effective_inbox(
                        followers@[k],
                    ) == v) || (exists|k: int|
                    0 <= k < j + 1 && !mentioned@[k].local && effective_inbox(mentioned@[k])
                        == v) by {
                    if !before.contains(v) {
                        assert(v == u);
                        assert(0 <= j < j + 1 && !mentioned@[j as int].local && effective_inbox(
                            mentioned@[j as int],
                        ) == v);
                    }
                }
            }
        }
        j = j + 1;
    }
    proof {
        assert forall|u: Uri| is_destination(followers@, mentioned@, u) implies r@.contains(
            u,
        ) by {
            if exists|k: int|
                0 <= k < followers@.len() && !followers@[k].local && effective_inbox(
                    followers@[k],
                ) == u {
                let k = choose|k: int|
                    0 <= k < followers@.len() && !followers@[k].local && effective_inbox(
                        followers@[k],
                    ) == u;
                assert(r@.contains(effective_inbox(followers@[k])));
            } else {
                let k = choose|k: int|
                    0 <= k < mentioned@.len() && !mentioned@[k].local && effective_inbox(
                        mentioned@[k],
                    ) == u;
                assert(r@.contains(effective_inbox(mentioned@[k])));
            }
        }
    }
    r
}

/// Append a URI unless it already stands in the vector.
fn push_unique(dst: &mut Vec<Uri>, u: Uri)
    requires
        forall|p: int, q: int| 0 <= p < q < old(dst)@.len() ==> old(dst)@[p] != old(dst)@[q],
    ensures
        forall|p: int, q: int|
            0 <= p < q < final(dst)@.len() ==> final(dst)@[p] != final(dst)@[q],
        forall|v: Uri| final(dst)@.contains(v) <==> (old(dst)@.contains(v) || v == u),
{
    let mut i: usize = 0;
    while i < dst.len()
        invariant
            i <= dst@.len(),
            dst@ == old(dst)@,
            forall|p: int, q: int| 0 <= p < q < dst@.len() ==> dst@[p] != dst@[q],
            forall|k: int| 0 <= k < i ==> dst@[k] != u,
        decreases dst@.len() - i,
    {
        if dst[i] == u {
            assert(dst@.contains(u));
            return ;
        }
        i = i + 1;
    }
    proof {
        assert(!dst@.contains(u));
    }
    let ghost before = dst@;
    dst.push(u);
    proof {
        assert forall|v: Uri| dst@.contains(v) <==> (before.contains(v) || v == u) by {
            vstd::seq_lib::lemma_seq_contains_after_push(before, u, v);
        }
        assert(dst@[before.len() as int] == u);
    }
}

/// Build, sign and enqueue one outbound activity: mint its id under the
/// local domain, address it to every distinct destination inbox owed, and
/// create one pending `DeliveryTask` per destination, eligible now. The
/// caller commits its local write before calling this; nothing here can
/// fail, and delivery failure never rolls that write back.
pub fn dispatch(
    outbox: &mut Outbox,
    sender: &Actor,
    kind: ActivityKind,
    object: Uri,
    object_kind: ObjectKind,
    target: Option<Uri>,
    content: u64,
    published: u64,
    followers: &Vec<Actor>,
    mentioned: &Vec<Actor>,
    now: u64,
) -> (r: (Activity, SigMeta, Vec<DeliveryTask>))
    requires
        old(outbox).next_path < u64::MAX,
        sender.local,
        !(kind is Announce),
        !(kind is Undo),
    ensures
        r.0.id.domain == old(outbox).local_domain,
        r.0.id.path == old(outbox).next_path,
        final(outbox).next_path == old(outbox).next_path + 1,
        final(outbox).local_domain == old(outbox).local_domain,
        r.0.kind == kind && r.0.actor == sender.uri && r.0.object == object && r.0.object_kind
            == object_kind && r.0.target == target && r.0.published == published && r.0.content
            == content && r.0.embedded is None,
        r.0.wf(),
        r.1 == (SigMeta { key_id: sender.key_id, date: now }),
        forall|i: int, j: int| 0 <= i < j < r.2@.len() ==> r.2@[i].inbox != r.2@[j].inbox,
        forall|u: Uri|
            (exists|i: int| 0 <= i < r.2@.len() && #[trigger] r.2@[i].inbox == u)
                <==> is_destination(followers@, mentioned@, u),
        forall|i: int|
            0 <= i < r.2@.len() ==> (#[trigger] r.2@[i]).activity_id == r.0.id && r.2@[i].object
                == object && r.2@[i].attempts == 0 && r.2@[i].next_attempt == now
                && r.2@[i].status is Pending,
{
    let id = outbox.mint_id();
    let activity = Activity {
        id,
        kind,
        actor: sender.uri,
        object,
        object_kind,
        target,
        published,
        content,
        embedded: None,
    };
    let sig = sign_envelope(sender.key_id, now);
    let dests = plan_destinations(followers, mentioned);
    let mut tasks: Vec<DeliveryTask> = Vec::new();
    let mut i: usize = 0;
    while i < dests.len()
        invariant
            i <= dests@.len(),
            tasks@.len() == i,
            forall|k: int|
                0 <= k < i ==> (#[trigger] tasks@[k]).inbox == dests@[k] && tasks@[k].activity_id
                    == id && tasks@[k].object == object && tasks@[k].attempts == 0
                    && tasks@[k].next_attempt == now && tasks@[k].status is Pending,
        decreases dests@.len() - i,
    {
        let inbox = dests[i];
        tasks.push(
            DeliveryTask {
                activity_id: id,
                object,
                inbox,
                attempts: 0,
                next_attempt: now,
                status: TaskStatus::Pending,
            },
        );
        i = i + 1;
    }
    proof {
        assert forall|u: Uri|
            (exists|k: int| 0 <= k < tasks@.len() && #[trigger] tasks@[k].inbox == u)
                <==> is_destination(followers@, mentioned@, u) by {
            if exists|k: int| 0 <= k < tasks@.len() && #[trigger] tasks@[k].inbox == u {
                let k = choose|k: int| 0 <= k < tasks@.len() && #[trigger] tasks@[k].inbox == u;
                assert(dests@[k] == u);
                assert(dests@.contains(u));
            }
            if is_destination(followers@, mentioned@, u) {
                assert(dests@.contains(u));
                let k = choose|k: int| 0 <= k < dests@.len() && dests@[k] == u;
                assert(tasks@[k].inbox == u);
            }
        }
    }
    (activity, sig, tasks)
}

/// A task is eligible to run: pending and due.
pub open spec fn task_ready(s: Seq<DeliveryTask>, i: int, now: u64) -> bool {
    &&& 0 <= i < s.len()
    &&& s[i].status is Pending
    &&& s[i].next_attempt <= now
}

/// A task may be picked: eligible, and not behind an earlier pending task
/// bound for the same inbox and concerning the same object — delivery to
/// one destination for one object is serialized, so a `Create` cannot be
/// overtaken by its own `Update`.
pub open spec fn task_pickable(s: Seq<DeliveryTask>, i: int, now: u64) -> bool {
    &&& task_ready(s, i, now)
    &&& forall|j: int|
        0 <= j < i ==> !((#[trigger] s[j]).status is Pending && s[j].inbox == s[i].inbox
            && s[j].object == s[i].object)
}

/// Pick a deliverable task: some eligible task not serialized behind an
/// earlier one, or `None` when every task is ineligible or blocked.
pub fn next_ready(tasks: &Vec<DeliveryTask>, now: u64) -> (r: Option<usize>)
    ensures
        match r {
            Some(i) => task_pickable(tasks@, i as int, now),
            None => forall|i: int| !task_pickable(tasks@, i, now),
        },
{
    let mut i: usize = 0;
    while i < tasks.len()
        invariant
            i <= tasks@.len(),
            forall|k: int| 0 <= k < i ==> !task_pickable(tasks@, k, now),
        decreases tasks@.len() - i,
    {
        let t = tasks[i];
        let due = match t.status {
            TaskStatus::Pending => t.next_attempt <= now,
            _ => false,
        };
        if due {
            let mut j: usize = 0;
            let mut clear = true;
            while j < i
                invariant
                    j <= i,
                    i < tasks@.len(),
                    t == tasks@[i as int],
                    clear ==> forall|k: int|
                        0 <= k < j ==> !((#[trigger] tasks@[k]).status is Pending
                            && tasks@[k].inbox == tasks@[i as int].inbox && tasks@[k].object
                            == tasks@[i as int].object),
                    !clear ==> exists|k: int|
                        0 <= k < j && (#[trigger] tasks@[k]).status is Pending && tasks@[k].inbox
                            == tasks@[i as int].inbox && tasks@[k].object == tasks@[i as int].object,
                decreases i - j,
            {
                let b = tasks[j];
                let blocking = match b.status {
                    TaskStatus::Pending => {
                        b.inbox == t.inbox && b.object == t.object
                    },
                    _ => false,
                };
                if blocking {
                    proof {
                        assert(tasks@[j as int].status is Pending && tasks@[j as int].inbox
                            == tasks@[i as int].inbox && tasks@[j as int].object
                            == tasks@[i as int].object);
                    }
                    clear = false;
                }
                j = j + 1;
            }
            if clear {
                return Some(i);
            }
            proof {
                assert(!task_pickable(tasks@, i as int, now));
            }
        }
        i = i + 1;
    }
    None
}

/// A task's attempt count is monotonically non-decreasing (an ensures of
/// `on_response`) and bounded: it never passes the configured maximum.
pub proof fn lemma_attempts_bounded(
    t: DeliveryTask,
    c: RetryConfig,
    resp: DeliveryResponse,
    jitter: u64,
    now: u64,
)
    requires
        t.attempts <= c.max_attempts,
    ensures
        task_after_response(t, c, resp, jitter, now).attempts <= c.max_attempts,
        task_after_response(t, c, resp, jitter, now).attempts >= t.attempts,
{
}

/// One delivery response per element, applied in order: the response, the
/// jitter drawn for it, and the clock when it arrived.
pub open spec fn task_after_responses(
    t: DeliveryTask,
    c: RetryConfig,
    resps: Seq<(DeliveryResponse, u64, u64)>,
) -> DeliveryTask
    decreases resps.len(),
{
    if resps.len() == 0 {
        t
    } else {
        let prev = task_after_responses(t, c, resps.drop_last());
        task_after_response(prev, c, resps.last().0, resps.last().1, resps.last().2)
    }
}

/// A pending task that receives only transient or rate-limited responses is
/// retried once per response while attempts remain, and transitions to
/// `Dead` exactly when the configured maximum attempt count is reached —
/// after which it stays dead, however many more responses arrive.
pub proof fn lemma_only_transient_responses_exhaust(
    t: DeliveryTask,
    c: RetryConfig,
    resps: Seq<(DeliveryResponse, u64, u64)>,
)
    requires
        t.status is Pending,
        t.attempts < c.max_attempts,
        forall|i: int|
            0 <= i < resps.len() ==> ((#[trigger] resps[i]).0 is Transient || resps[i].0
                is RateLimited),
    ensures
        t.attempts + resps.len() < c.max_attempts ==> task_after_responses(t, c, resps).status
            is Pending && task_after_responses(t, c, resps).attempts == t.attempts + resps.len(),
        t.attempts + resps.len() >= c.max_attempts ==> task_after_responses(t, c, resps).status
            is Dead,
    decreases resps.len(),
{
    if resps.len() > 0 {
        lemma_only_transient_responses_exhaust(t, c, resps.drop_last());
        let prev = task_after_responses(t, c, resps.drop_last());
        if t.attempts + resps.len() - 1 < c.max_attempts {
            lemma_transient_consumes_attempt(
                prev,
                c,
                resps.last().0,
                resps.last().1,
                resps.last().2,
            );
        } else {
            lemma_dead_stays_dead(prev, c, resps.last().0, resps.last().1, resps.last().2);
        }
    }
}

/// A pending task under the attempt bound, answered with a transient or
/// rate-limited response, consumes exactly one attempt; it dies exactly
/// when the bound is reached, and otherwise stays pending.
pub proof fn lemma_transient_consumes_attempt(
    t: DeliveryTask,
    c: RetryConfig,
    resp: DeliveryResponse,
    jitter: u64,
    now: u64,
)
    requires
        t.status is Pending,
        resp is Transient || resp is RateLimited,
        t.attempts < c.max_attempts,
    ensures
        task_after_response(t, c, resp, jitter, now).attempts == t.attempts + 1,
        task_after_response(t, c, resp, jitter, now).status is Dead <==> t.attempts + 1
            >= c.max_attempts,
        task_after_response(t, c, resp, jitter, now).status is Dead || task_after_response(
            t,
            c,
            resp,
            jitter,
            now,
        ).status is Pending,
{
}

} // verus!
