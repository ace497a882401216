use vstd::prelude::*;
use crate::ids::Uri;
use crate::store::{has_obj, DomainObject, ObjectKind, ObjectStore};

verus! {

/// A fetched remote object document, as decoded by the transport layer. A
/// document that does not carry its creator is malformed for every kind the
/// engine stores.
#[derive(Clone, Copy, PartialEq, Eq, Debug)]
pub struct ObjectDoc {
    pub id: Uri,
    pub kind: ObjectKind,
    pub creator: Option<Uri>,
    pub content: u64,
    pub published: u64,
}

/// Schema validation of a fetched object document.
pub open spec fn obj_doc_valid(d: ObjectDoc) -> bool {
    d.creator is Some
}

/// The local cached copy a valid document yields.
pub open spec fn obj_from_doc(d: ObjectDoc) -> DomainObject {
    DomainObject {
        id: d.id,
        kind: d.kind,
        creator: d.creator->Some_0,
        content: d.content,
        updated: d.published,
        deleted: false,
    }
}

/// What resolving an object reference does to the object relation: a
/// locally known object stands as it is (a failed refresh therefore falls
/// back to the cached copy); an unknown one is admitted from a valid
/// fetched document for exactly that URI; otherwise resolution fails and
/// nothing changes. The boolean says whether the reference resolved.
pub open spec fn resolve_object_spec(
    s: Seq<DomainObject>,
    uri: Uri,
    doc: Option<ObjectDoc>,
) -> (Seq<DomainObject>, bool) {
    if has_obj(s, uri) {
        (s, true)
    } else {
        match doc {
            Option::Some(d) => {
                if d.id == uri && obj_doc_valid(d) {
                    (s.push(obj_from_doc(d)), true)
                } else {
                    (s, false)
                }
            },
            Option::None => (s, false),
        }
    }
}

/// The value behind an optional borrowed document.
pub open spec fn obj_doc_view(doc: Option<&ObjectDoc>) -> Option<ObjectDoc> {
    match doc {
        Option::Some(d) => Option::Some(*d),
        Option::None => Option::None,
    }
}

/// Resolve an object reference against local storage, exactly as
/// `resolve_object_spec` says. `fetched` is the remote representation the
/// transport layer obtained for this URI, or `None` when the fetch errored
/// or timed out. The vote and follow relations are untouched.
pub fn resolve_object(store: &mut ObjectStore, uri: Uri, fetched: Option<&ObjectDoc>) -> (r:
    bool)
    requires
        old(store).wf(),
    ensures
        final(store).wf(),
        final(store).objs@ =~= resolve_object_spec(
            old(store).objs@,
            uri,
            obj_doc_view(fetched),
        ).0,
        r == resolve_object_spec(old(store).objs@, uri, obj_doc_view(fetched)).1,
        final(store).votes@ == old(store).votes@,
        final(store).follows@ == old(store).follows@,
{
    match store.find_obj(uri) {
        Some(_) => true,
        None => {
            match fetched {
                Some(d) => {
                    if let (Some(creator), true) = (d.creator, d.id == uri) {
                        store.objs.push(
                            DomainObject {
                                id: d.id,
                                kind: d.kind,
                                creator,
                                content: d.content,
                                updated: d.published,
                                deleted: false,
                            },
                        );
                        true
                    } else {
                        false
                    }
                },
                None => false,
            }
        },
    }
}

} // verus!
