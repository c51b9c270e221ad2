use vstd::prelude::*;

verus! {

/// Mathematical view of one DID record.
pub struct DidView {
    pub identity: Seq<char>,
    pub credential_hash: Seq<char>,
    pub created_at: u64,
    pub verified: bool,
}

/// The registry seen as a map from identity to record.
pub type RegistryView = Map<Seq<char>, DidView>;

/// Text returned by a successful creation.
pub open spec fn confirmation_text() -> Seq<char> {
    "DID created successfully"@
}

/// Creation succeeds exactly when no record is filed under the identity.
pub open spec fn create_allowed(m: RegistryView, id: Seq<char>) -> bool {
    !m.contains_key(id)
}

/// Registry after `create(id, hash, now)`.
pub open spec fn spec_create(m: RegistryView, id: Seq<char>, hash: Seq<char>, now: u64) -> RegistryView {
    if create_allowed(m, id) {
        m.insert(id, DidView { identity: id, credential_hash: hash, created_at: now, verified: false })
    } else {
        m
    }
}

/// Result of `verify(id, hash)`: a record exists and its hash equals the one presented.
pub open spec fn verify_matches(m: RegistryView, id: Seq<char>, hash: Seq<char>) -> bool {
    m.contains_key(id) && m[id].credential_hash == hash
}

/// Registry after `verify(id, hash)`.
pub open spec fn spec_verify(m: RegistryView, id: Seq<char>, hash: Seq<char>) -> RegistryView {
    if verify_matches(m, id, hash) {
        m.insert(id, DidView { verified: true, ..m[id] })
    } else {
        m
    }
}

/// Result of `update_credential_hash(id, _)`: a record exists and is not yet verified.
pub open spec fn update_allowed(m: RegistryView, id: Seq<char>) -> bool {
    m.contains_key(id) && !m[id].verified
}

/// Registry after `update_credential_hash(id, hash)`.
pub open spec fn spec_update(m: RegistryView, id: Seq<char>, hash: Seq<char>) -> RegistryView {
    if update_allowed(m, id) {
        m.insert(id, DidView { credential_hash: hash, ..m[id] })
    } else {
        m
    }
}

/// One mutating operation on the registry.
pub enum Op {
    Create { id: Seq<char>, hash: Seq<char>, now: u64 },
    Verify { id: Seq<char>, hash: Seq<char> },
    Update { id: Seq<char>, hash: Seq<char> },
}

/// Registry after one operation.
pub open spec fn apply(m: RegistryView, op: Op) -> RegistryView {
    match op {
        Op::Create { id, hash, now } => spec_create(m, id, hash, now),
        Op::Verify { id, hash } => spec_verify(m, id, hash),
        Op::Update { id, hash } => spec_update(m, id, hash),
    }
}

/// Registry after a sequence of operations, applied from first to last.
pub open spec fn apply_all(m: RegistryView, ops: Seq<Op>) -> RegistryView
    decreases ops.len(),
{
    if ops.len() == 0 {
        m
    } else {
        apply(apply_all(m, ops.drop_last()), ops.last())
    }
}

/// Whether an operation is a creation for the identity.
pub open spec fn creates(op: Op, id: Seq<char>) -> bool {
    match op {
        Op::Create { id: c, .. } => c == id,
        _ => false,
    }
}

} // verus!
