use vstd::prelude::*;
use crate::ids::Uri;
use crate::store::ObjectKind;

verus! {

/// The activity vocabulary the engine knows. Kinds outside the per-kind state
/// machine (`Accept`, `Reject`, `Report`) are ingested as graceful no-ops.
#[derive(Clone, Copy, PartialEq, Eq, Structural, Debug)]
pub enum ActivityKind {
    Create,
    Update,
    Delete,
    Undo,
    Like,
    Dislike,
    Follow,
    Accept,
    Reject,
    Announce,
    Report,
}

/// A federation message. Immutable once constructed: outbound ones are built
/// by the dispatcher, inbound ones arrive as decoded by the transport layer.
/// `object` names the domain object acted on; for `Create`/`Update` the new
/// mutable fields travel as the opaque `content` token; `embedded` carries
/// the wrapped activity of an `Announce` or the activity an `Undo` reverses.
#[derive(Debug)]
pub struct Activity {
    pub id: Uri,
    pub kind: ActivityKind,
    pub actor: Uri,
    pub object: Uri,
    pub object_kind: ObjectKind,
    pub target: Option<Uri>,
    pub published: u64,
    pub content: u64,
    pub embedded: Option<Box<Activity>>,
}

impl Activity {
    /// Nesting depth of embedded activities; bounds the recursion of the
    /// ingestion pipeline.
    pub open spec fn depth(self) -> nat
        decreases self,
    {
        match self.embedded {
            Option::None => 0,
            Option::Some(b) => (*b).depth() + 1,
        }
    }

    /// Shape validation: the fields each kind requires are present.
    /// `Announce` must wrap an activity (itself well formed); `Undo` must
    /// carry the activity it reverses, unwrapped.
    pub open spec fn wf(self) -> bool
        decreases self,
    {
        match self.kind {
            ActivityKind::Announce => match self.embedded {
                Option::None => false,
                Option::Some(b) => (*b).wf(),
            },
            ActivityKind::Undo => match self.embedded {
                Option::None => false,
                Option::Some(b) => (*b).embedded is None,
            },
            _ => true,
        }
    }

    /// Runtime check of `wf`, used by the ingestion pipeline to reject
    /// malformed payloads.
    pub fn check_wf(&self) -> (r: bool)
        ensures
            r == self.wf(),
        decreases *self,
    {
        match self.kind {
            ActivityKind::Announce => match &self.embedded {
                None => false,
                Some(b) => b.check_wf(),
            },
            ActivityKind::Undo => match &self.embedded {
                None => false,
                Some(b) => b.embedded.is_none(),
            },
            _ => true,
        }
    }
}

} // verus!
