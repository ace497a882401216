use vstd::prelude::*;

verus! {

/// A federation URI, reduced to the two facts the engine reasons about: the
/// domain that owns it and a path token unique within that domain. The
/// transport layer interns the textual form; two URIs are the same resource
/// exactly when both fields agree.
#[derive(Clone, Copy, PartialEq, Eq, Structural, Debug, Hash)]
pub struct Uri {
    pub domain: u64,
    pub path: u64,
}

impl Uri {
    /// True when both URIs are owned by the same server.
    pub open spec fn same_domain(self, other: Uri) -> bool {
        self.domain == other.domain
    }
}

} // verus!
