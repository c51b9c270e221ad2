use vstd::prelude::*;

use crate::model::{
    apply, apply_all, create_allowed, creates, spec_create, spec_update, update_allowed, DidView, Op,
    RegistryView,
};

verus! {

/// A record, once filed, stays filed under the same identity with the same
/// creation time, whatever operations follow.
pub proof fn lemma_record_persists(m: RegistryView, id: Seq<char>, ops: Seq<Op>)
    requires
        m.contains_key(id),
    ensures
        apply_all(m, ops).contains_key(id),
        apply_all(m, ops)[id].identity == m[id].identity,
        apply_all(m, ops)[id].created_at == m[id].created_at,
    decreases ops.len(),
{
    if ops.len() > 0 {
        lemma_record_persists(m, id, ops.drop_last());
    }
}

/// Once a creation for an identity has succeeded, every later creation for it
/// is refused and leaves the registry as it was.
pub proof fn lemma_create_at_most_once(
    m: RegistryView,
    id: Seq<char>,
    hash: Seq<char>,
    now: u64,
    ops: Seq<Op>,
    later_hash: Seq<char>,
    later_now: u64,
)
    requires
        create_allowed(m, id),
    ensures
        spec_create(m, id, hash, now)[id] == (DidView {
            identity: id,
            credential_hash: hash,
            created_at: now,
            verified: false,
        }),
        !create_allowed(apply_all(spec_create(m, id, hash, now), ops), id),
        spec_create(apply_all(spec_create(m, id, hash, now), ops), id, later_hash, later_now)
            == apply_all(spec_create(m, id, hash, now), ops),
{
    lemma_record_persists(spec_create(m, id, hash, now), id, ops);
}

/// Once a record is verified, no sequence of operations changes it at all.
pub proof fn lemma_verified_record_frozen(m: RegistryView, id: Seq<char>, ops: Seq<Op>)
    requires
        m.contains_key(id),
        m[id].verified,
    ensures
        apply_all(m, ops).contains_key(id),
        apply_all(m, ops)[id] == m[id],
    decreases ops.len(),
{
    if ops.len() > 0 {
        lemma_verified_record_frozen(m, id, ops.drop_last());
        let p = apply_all(m, ops.drop_last());
        let q = apply(p, ops.last());
        assert(q.contains_key(id));
        assert(q[id] == p[id]);
    }
}

/// Once a record is verified it stays verified.
pub proof fn lemma_verification_monotone(m: RegistryView, id: Seq<char>, ops: Seq<Op>)
    requires
        m.contains_key(id),
        m[id].verified,
    ensures
        apply_all(m, ops).contains_key(id),
        apply_all(m, ops)[id].verified,
{
    lemma_verified_record_frozen(m, id, ops);
}

/// Once a record is verified, an update of its hash is refused and leaves the
/// stored hash as it was, whatever operations came in between.
pub proof fn lemma_update_refused_after_verify(
    m: RegistryView,
    id: Seq<char>,
    ops: Seq<Op>,
    new_hash: Seq<char>,
)
    requires
        m.contains_key(id),
        m[id].verified,
    ensures
        !update_allowed(apply_all(m, ops), id),
        spec_update(apply_all(m, ops), id, new_hash) == apply_all(m, ops),
        spec_update(apply_all(m, ops), id, new_hash)[id].credential_hash == m[id].credential_hash,
{
    lemma_verified_record_frozen(m, id, ops);
}

/// An identity that no operation creates stays absent.
pub proof fn lemma_absent_until_created(m: RegistryView, id: Seq<char>, ops: Seq<Op>)
    requires
        !m.contains_key(id),
        forall|i: int| 0 <= i < ops.len() ==> !creates(#[trigger] ops[i], id),
    ensures
        !apply_all(m, ops).contains_key(id),
    decreases ops.len(),
{
    if ops.len() > 0 {
        let front = ops.drop_last();
        assert forall|i: int| 0 <= i < front.len() implies !creates(#[trigger] front[i], id) by {
            assert(front[i] == ops[i]);
        }
        lemma_absent_until_created(m, id, front);
        assert(!creates(ops[ops.len() - 1], id));
    }
}

/// The verified flag of a record is set only by a verification of that
/// identity that presents the stored hash.
pub proof fn lemma_only_matching_verify_sets_flag(m: RegistryView, id: Seq<char>, op: Op)
    requires
        m.contains_key(id),
        !m[id].verified,
        apply(m, op).contains_key(id),
        apply(m, op)[id].verified,
    ensures
        op == (Op::Verify { id, hash: m[id].credential_hash }),
{
}

} // verus!
