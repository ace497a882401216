use vstd::prelude::*;
use crate::ids::Uri;
use crate::errors::EngineError;

verus! {

/// The signature metadata the engine reads from a signed request: which key
/// produced the signature and the Date header it covers. The signature bytes
/// themselves stay with the transport layer, which checks them against the
/// resolved public key and reports the outcome as a boolean.
#[derive(Clone, Copy, PartialEq, Eq, Structural, Debug)]
pub struct SigMeta {
    pub key_id: Uri,
    pub date: u64,
}

/// The request's Date header lies within the allowed clock-skew window
/// around the receiver's clock.
pub open spec fn date_in_window(date: u64, now: u64, skew: u64) -> bool {
    &&& now <= date + skew
    &&& date <= now + skew
}

/// Everything verification demands of an inbound envelope: the raw
/// cryptographic check passed against the resolved actor's key, the signing
/// key is that actor's key, the claimed actor's domain owns the signing key
/// (no cross-domain spoofing), and the Date header is within the skew window.
pub open spec fn envelope_ok(
    claimed_actor: Uri,
    sig: SigMeta,
    actor_key_id: Uri,
    raw_sig_ok: bool,
    now: u64,
    skew: u64,
) -> bool {
    &&& raw_sig_ok
    &&& sig.key_id == actor_key_id
    &&& sig.key_id.same_domain(claimed_actor)
    &&& date_in_window(sig.date, now, skew)
}

/// Produce the signature metadata for an outbound request: the envelope is
/// bound to the sending actor's key id and dated now. The transport layer
/// computes the canonical digest of method, path, host, date and body and
/// signs it with the actor's private key.
pub fn sign_envelope(key_id: Uri, now: u64) -> (s: SigMeta)
    ensures
        s.key_id == key_id,
        s.date == now,
{
    SigMeta { key_id, date: now }
}

/// Verify an inbound envelope against the resolved actor's key id.
/// `raw_sig_ok` is the transport layer's result of recomputing the canonical
/// digest and checking the signature bytes against that key. Fails exactly
/// when any of the conditions of `envelope_ok` fails, and then with
/// `SignatureError`: a hard rejection, never retried and never recorded.
pub fn verify_envelope(
    claimed_actor: Uri,
    sig: SigMeta,
    actor_key_id: Uri,
    raw_sig_ok: bool,
    now: u64,
    skew: u64,
) -> (r: Result<(), EngineError>)
    ensures
        r is Ok <==> envelope_ok(claimed_actor, sig, actor_key_id, raw_sig_ok, now, skew),
        r is Err ==> r == Err::<(), EngineError>(EngineError::Signature),
{
    if !raw_sig_ok {
        return Err(EngineError::Signature);
    }
    if sig.key_id != actor_key_id {
        return Err(EngineError::Signature);
    }
    if sig.key_id.domain != claimed_actor.domain {
        return Err(EngineError::Signature);
    }
    let upper_ok = if now > u64::MAX - skew {
        true
    } else {
        sig.date <= now + skew
    };
    let lower_ok = if sig.date > u64::MAX - skew {
        true
    } else {
        now <= sig.date + skew
    };
    if upper_ok && lower_ok {
        Ok(())
    } else {
        Err(EngineError::Signature)
    }
}

/// A structurally valid signature from a key of another domain is rejected:
/// whenever the signing key's domain differs from the claimed actor's
/// domain, verification fails, whatever the raw cryptographic check said.
pub proof fn lemma_cross_domain_rejected(
    claimed_actor: Uri,
    sig: SigMeta,
    actor_key_id: Uri,
    raw_sig_ok: bool,
    now: u64,
    skew: u64,
)
    requires
        sig.key_id.domain != claimed_actor.domain,
    ensures
        !envelope_ok(claimed_actor, sig, actor_key_id, raw_sig_ok, now, skew),
{
}

} // verus!
