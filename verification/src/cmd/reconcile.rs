//! What a sync leaves in the store.
//!
//! The store is taken as a table with the id as its primary key. The plan
//! of a sync is carried out on it: the upserts first, then the deletes.

use super::sync::{
    deletes_of, find_by_id, has_id, has_key, is_stale, needs_upsert, survey, sync_plan, upserts_of,
    SyncPlanView,
};
use crate::bitwarden::sync::CipherView;
use crate::database::{
    delete_all, ids_distinct, keys_distinct, table_of, upsert_all, IdentityDtoView, IdentityTable,
};
use vstd::prelude::*;

verus! {

/// The table after a sync: the exposed identities that differ from the
/// store are written, and what is stale after that is deleted.
pub open spec fn after_sync(stored: Seq<IdentityDtoView>, observed: Seq<IdentityDtoView>) -> IdentityTable {
    let upserts = upserts_of(observed, stored);
    delete_all(upsert_all(table_of(stored), upserts), deletes_of(stored, observed, upserts))
}

/// What writing a list of identities does to one id of a table.
proof fn lemma_upsert_all(table: IdentityTable, identities: Seq<IdentityDtoView>, id: Seq<char>)
    ensures
        upsert_all(table, identities).dom().contains(id) <==> (table.dom().contains(id) || has_id(
            identities,
            id,
        )),
        !has_id(identities, id) ==> upsert_all(table, identities)[id] == table[id],
        ids_distinct(identities) ==> forall|k: int|
            0 <= k < identities.len() && (#[trigger] identities[k]).id == id ==> upsert_all(
                table,
                identities,
            )[id] == identities[k],
    decreases identities.len(),
{
    if identities.len() > 0 {
        let front = identities.drop_last();
        let last = identities.last();
        lemma_upsert_all(table, front, id);
        if has_id(front, id) {
            let k = choose|k: int| 0 <= k < front.len() && (#[trigger] front[k]).id == id;
            assert(identities[k].id == id);
        }
        if has_id(identities, id) {
            let k = choose|k: int| 0 <= k < identities.len() && (#[trigger] identities[k]).id == id;
            if k < front.len() {
                assert(front[k].id == id);
            }
        }
        if last.id == id {
            assert(identities[identities.len() - 1].id == id);
        }
        if ids_distinct(identities) {
            assert(ids_distinct(front)) by {
                assert forall|i: int, j: int| 0 <= i < j < front.len() implies (
                #[trigger] front[i]).id != (#[trigger] front[j]).id by {
                    assert(identities[i].id != identities[j].id);
                }
            }
            assert forall|k: int|
                0 <= k < identities.len() && (#[trigger] identities[k]).id == id implies upsert_all(
                table,
                identities,
            )[id] == identities[k] by {
                if k < front.len() {
                    assert(front[k].id == id);
                    assert(identities[k].id != identities[identities.len() - 1].id);
                }
            }
        }
    }
}

/// What deleting a list of identities does to one id of a table.
proof fn lemma_delete_all(table: IdentityTable, identities: Seq<IdentityDtoView>, id: Seq<char>)
    ensures
        delete_all(table, identities).dom().contains(id) <==> (table.dom().contains(id) && !has_id(
            identities,
            id,
        )),
        !has_id(identities, id) ==> delete_all(table, identities)[id] == table[id],
    decreases identities.len(),
{
    if identities.len() > 0 {
        let front = identities.drop_last();
        let last = identities.last();
        lemma_delete_all(table, front, id);
        if has_id(front, id) {
            let k = choose|k: int| 0 <= k < front.len() && (#[trigger] front[k]).id == id;
            assert(identities[k].id == id);
        }
        if has_id(identities, id) {
            let k = choose|k: int| 0 <= k < identities.len() && (#[trigger] identities[k]).id == id;
            if k < front.len() {
                assert(front[k].id == id);
            }
        }
        if last.id == id {
            assert(identities[identities.len() - 1].id == id);
        }
    }
}

/// The upserts are the exposed identities that differ from the store.
proof fn lemma_upserts_of(observed: Seq<IdentityDtoView>, stored: Seq<IdentityDtoView>)
    ensures
        forall|k: int|
            0 <= k < upserts_of(observed, stored).len() ==> observed.contains(
                #[trigger] upserts_of(observed, stored)[k],
            ) && needs_upsert(stored, upserts_of(observed, stored)[k]),
        forall|j: int|
            0 <= j < observed.len() && needs_upsert(stored, #[trigger] observed[j]) ==> upserts_of(
                observed,
                stored,
            ).contains(observed[j]),
        ids_distinct(observed) ==> ids_distinct(upserts_of(observed, stored)),
    decreases observed.len(),
{
    let upserts = upserts_of(observed, stored);
    if observed.len() > 0 {
        let front = observed.drop_last();
        let last = observed.last();
        let before = upserts_of(front, stored);
        lemma_upserts_of(front, stored);
        assert forall|k: int| 0 <= k < upserts.len() implies observed.contains(
            #[trigger] upserts[k],
        ) && needs_upsert(stored, upserts[k]) by {
            if k < before.len() {
                assert(upserts[k] == before[k]);
                assert(front.contains(before[k]));
                let j = choose|j: int| 0 <= j < front.len() && front[j] == before[k];
                assert(observed[j] == upserts[k]);
            } else {
                assert(observed[observed.len() - 1] == upserts[k]);
            }
        }
        assert forall|j: int|
            0 <= j < observed.len() && needs_upsert(
                stored,
                #[trigger] observed[j],
            ) implies upserts.contains(observed[j]) by {
            if j < front.len() {
                assert(front[j] == observed[j]);
                assert(before.contains(front[j]));
                let k = choose|k: int| 0 <= k < before.len() && before[k] == front[j];
                assert(upserts[k] == observed[j]);
            } else {
                assert(upserts[upserts.len() - 1] == observed[j]);
            }
        }
        if ids_distinct(observed) {
            assert(ids_distinct(front)) by {
                assert forall|i: int, j: int| 0 <= i < j < front.len() implies (
                #[trigger] front[i]).id != (#[trigger] front[j]).id by {
                    assert(observed[i].id != observed[j].id);
                }
            }
            assert forall|a: int, b: int| 0 <= a < b < upserts.len() implies (
            #[trigger] upserts[a]).id != (#[trigger] upserts[b]).id by {
                if b < before.len() {
                    assert(before[a].id != before[b].id);
                } else {
                    assert(upserts[a] == before[a]);
                    assert(front.contains(before[a]));
                    let j = choose|j: int| 0 <= j < front.len() && front[j] == before[a];
                    assert(observed[j].id != observed[observed.len() - 1].id);
                }
            }
        }
    }
}

/// The deletes are the stored identities that are stale.
proof fn lemma_deletes_of(
    stored: Seq<IdentityDtoView>,
    observed: Seq<IdentityDtoView>,
    upserts: Seq<IdentityDtoView>,
)
    ensures
        forall|k: int|
            0 <= k < deletes_of(stored, observed, upserts).len() ==> stored.contains(
                #[trigger] deletes_of(stored, observed, upserts)[k],
            ) && is_stale(deletes_of(stored, observed, upserts)[k], observed, upserts),
        forall|j: int|
            0 <= j < stored.len() && is_stale(#[trigger] stored[j], observed, upserts)
                ==> deletes_of(stored, observed, upserts).contains(stored[j]),
    decreases stored.len(),
{
    let deletes = deletes_of(stored, observed, upserts);
    if stored.len() > 0 {
        let front = stored.drop_last();
        let before = deletes_of(front, observed, upserts);
        lemma_deletes_of(front, observed, upserts);
        assert forall|k: int| 0 <= k < deletes.len() implies stored.contains(
            #[trigger] deletes[k],
        ) && is_stale(deletes[k], observed, upserts) by {
            if k < before.len() {
                assert(deletes[k] == before[k]);
                assert(front.contains(before[k]));
                let j = choose|j: int| 0 <= j < front.len() && front[j] == before[k];
                assert(stored[j] == deletes[k]);
            } else {
                assert(stored[stored.len() - 1] == deletes[k]);
            }
        }
        assert forall|j: int|
            0 <= j < stored.len() && is_stale(
                #[trigger] stored[j],
                observed,
                upserts,
            ) implies deletes.contains(stored[j]) by {
            if j < front.len() {
                assert(front[j] == stored[j]);
                assert(before.contains(front[j]));
                let k = choose|k: int| 0 <= k < before.len() && before[k] == front[j];
                assert(deletes[k] == stored[j]);
            } else {
                assert(deletes[deletes.len() - 1] == stored[j]);
            }
        }
    }
}

/// Where the ids are distinct, an id is found with the one identity that
/// has it.
proof fn lemma_find_by_id(stored: Seq<IdentityDtoView>, id: Seq<char>)
    ensures
        find_by_id(stored, id) is None <==> !has_id(stored, id),
        ids_distinct(stored) ==> forall|k: int|
            0 <= k < stored.len() && (#[trigger] stored[k]).id == id ==> find_by_id(stored, id)
                == Some(stored[k]),
    decreases stored.len(),
{
    if stored.len() > 0 {
        let rest = stored.drop_first();
        lemma_find_by_id(rest, id);
        if stored[0].id == id {
        } else {
            if has_id(rest, id) {
                let k = choose|k: int| 0 <= k < rest.len() && (#[trigger] rest[k]).id == id;
                assert(stored[k + 1].id == id);
            }
            if has_id(stored, id) {
                let k = choose|k: int| 0 <= k < stored.len() && (#[trigger] stored[k]).id == id;
                assert(rest[k - 1].id == id);
            }
        }
        if ids_distinct(stored) {
            assert(ids_distinct(rest)) by {
                assert forall|i: int, j: int| 0 <= i < j < rest.len() implies (
                #[trigger] rest[i]).id != (#[trigger] rest[j]).id by {
                    assert(stored[i + 1].id != stored[j + 1].id);
                }
            }
            assert forall|k: int|
                0 <= k < stored.len() && (#[trigger] stored[k]).id == id implies find_by_id(
                stored,
                id,
            ) == Some(stored[k]) by {
                if stored[0].id == id {
                    if k > 0 {
                        assert(stored[0].id != stored[k].id);
                    }
                } else {
                    assert(rest[k - 1] == stored[k]);
                }
            }
        }
    }
}

/// What holds of the table after the exposed identities were reconciled
/// with the store.
proof fn lemma_reconciled(stored: Seq<IdentityDtoView>, observed: Seq<IdentityDtoView>)
    requires
        ids_distinct(stored),
        ids_distinct(observed),
    ensures
        forall|id: Seq<char>| #[trigger]
            after_sync(stored, observed).dom().contains(id) ==> has_key(
                observed,
                after_sync(stored, observed)[id].public_key,
            ),
        forall|k: int|
            0 <= k < observed.len() ==> {
                let exposed = #[trigger] observed[k];
                &&& after_sync(stored, observed).dom().contains(exposed.id)
                &&& after_sync(stored, observed)[exposed.id].name == exposed.name
                &&& after_sync(stored, observed)[exposed.id].public_key == exposed.public_key
            },
{
    let upserts = upserts_of(observed, stored);
    let deletes = deletes_of(stored, observed, upserts);
    let before = table_of(stored);
    let written = upsert_all(before, upserts);
    let after = delete_all(written, deletes);
    lemma_upserts_of(observed, stored);
    lemma_deletes_of(stored, observed, upserts);

    assert forall|id: Seq<char>| #[trigger] after.dom().contains(id) implies has_key(
        observed,
        after[id].public_key,
    ) by {
        lemma_delete_all(written, deletes, id);
        lemma_upsert_all(before, upserts, id);
        lemma_upsert_all(Map::empty(), stored, id);
        if has_id(upserts, id) {
            let k = choose|k: int| 0 <= k < upserts.len() && (#[trigger] upserts[k]).id == id;
            assert(observed.contains(upserts[k]));
            let j = choose|j: int| 0 <= j < observed.len() && observed[j] == upserts[k];
            assert(after[id] == observed[j]);
        } else {
            assert(has_id(stored, id));
            let j = choose|j: int| 0 <= j < stored.len() && (#[trigger] stored[j]).id == id;
            assert(after[id] == stored[j]);
            if is_stale(stored[j], observed, upserts) {
                assert(deletes.contains(stored[j]));
                let k = choose|k: int| 0 <= k < deletes.len() && deletes[k] == stored[j];
                assert(deletes[k].id == id);
            }
        }
    }
    assert forall|k: int| 0 <= k < observed.len() implies {
        let exposed = #[trigger] observed[k];
        &&& after.dom().contains(exposed.id)
        &&& after[exposed.id].name == exposed.name
        &&& after[exposed.id].public_key == exposed.public_key
    } by {
        let exposed = observed[k];
        let id = exposed.id;
        lemma_delete_all(written, deletes, id);
        lemma_upsert_all(before, upserts, id);
        lemma_upsert_all(Map::empty(), stored, id);
        lemma_find_by_id(stored, id);
        if needs_upsert(stored, exposed) {
            assert(upserts.contains(exposed));
            let u = choose|u: int| 0 <= u < upserts.len() && upserts[u] == exposed;
            assert(upserts[u].id == id);
            assert(written[id] == exposed);
            if has_id(deletes, id) {
                let d = choose|d: int| 0 <= d < deletes.len() && (#[trigger] deletes[d]).id == id;
                assert(is_stale(deletes[d], observed, upserts));
            }
        } else {
            let old = find_by_id(stored, id).unwrap();
            assert(has_id(stored, id));
            let j = choose|j: int| 0 <= j < stored.len() && (#[trigger] stored[j]).id == id;
            assert(stored[j] == old);
            if has_id(upserts, id) {
                let u = choose|u: int| 0 <= u < upserts.len() && (#[trigger] upserts[u]).id == id;
                assert(observed.contains(upserts[u]) && needs_upsert(stored, upserts[u]));
                let o = choose|o: int| 0 <= o < observed.len() && observed[o] == upserts[u];
                if o != k {
                    if o < k {
                        assert(observed[o].id != observed[k].id);
                    } else {
                        assert(observed[k].id != observed[o].id);
                    }
                }
            }
            assert(written[id] == old);
            assert(observed[k].public_key == old.public_key);
            if has_id(deletes, id) {
                let d = choose|d: int| 0 <= d < deletes.len() && (#[trigger] deletes[d]).id == id;
                assert(stored.contains(deletes[d]) && is_stale(deletes[d], observed, upserts));
                let s = choose|s: int| 0 <= s < stored.len() && stored[s] == deletes[d];
                assert(observed[k].public_key == stored[j].public_key);
                if s != j {
                    if s < j {
                        assert(stored[s].id != stored[j].id);
                    } else {
                        assert(stored[j].id != stored[s].id);
                    }
                }
            }
        }
    }
}

/// What holds of the table where the exposed keys are distinct and no
/// stored identity with another id has one of them.
proof fn lemma_reconciled_unique(
    stored: Seq<IdentityDtoView>,
    observed: Seq<IdentityDtoView>,
)
    requires
        ids_distinct(stored),
        ids_distinct(observed),
        keys_distinct(observed),
        forall|j: int|
            0 <= j < stored.len() && !has_id(observed, (#[trigger] stored[j]).id) ==> !has_key(
                observed,
                stored[j].public_key,
            ),
    ensures
        forall|id: Seq<char>| #[trigger]
            after_sync(stored, observed).dom().contains(id) <==> has_id(observed, id),
        forall|a: Seq<char>, b: Seq<char>|
            a != b && #[trigger] after_sync(stored, observed).dom().contains(a) && #[trigger] after_sync(
                stored,
                observed,
            ).dom().contains(b) ==> after_sync(stored, observed)[a].public_key != after_sync(
                stored,
                observed,
            )[b].public_key,
{
    let upserts = upserts_of(observed, stored);
    let deletes = deletes_of(stored, observed, upserts);
    let before = table_of(stored);
    let written = upsert_all(before, upserts);
    let after = delete_all(written, deletes);
    lemma_reconciled(stored, observed);
    lemma_upserts_of(observed, stored);
    lemma_deletes_of(stored, observed, upserts);

    assert forall|id: Seq<char>| #[trigger] after.dom().contains(id) <==> has_id(
        observed,
        id,
    ) by {
        if has_id(observed, id) {
            let k = choose|k: int| 0 <= k < observed.len() && (#[trigger] observed[k]).id == id;
            assert(after.dom().contains(observed[k].id));
        }
        if after.dom().contains(id) && !has_id(observed, id) {
            lemma_delete_all(written, deletes, id);
            lemma_upsert_all(before, upserts, id);
            lemma_upsert_all(Map::empty(), stored, id);
            if has_id(upserts, id) {
                let u = choose|u: int| 0 <= u < upserts.len() && (#[trigger] upserts[u]).id == id;
                assert(observed.contains(upserts[u]));
                let o = choose|o: int| 0 <= o < observed.len() && observed[o] == upserts[u];
                assert(observed[o].id == id);
            } else {
                let j = choose|j: int| 0 <= j < stored.len() && (#[trigger] stored[j]).id == id;
                assert(after[id] == stored[j]);
                assert(has_key(observed, after[id].public_key));
            }
        }
    }
    assert forall|a: Seq<char>, b: Seq<char>|
        a != b && #[trigger] after.dom().contains(a) && #[trigger] after.dom().contains(
            b,
        ) implies after[a].public_key != after[b].public_key by {
        assert(has_id(observed, a));
        assert(has_id(observed, b));
        let i = choose|i: int| 0 <= i < observed.len() && (#[trigger] observed[i]).id == a;
        let j = choose|j: int| 0 <= j < observed.len() && (#[trigger] observed[j]).id == b;
        assert(after[observed[i].id].public_key == observed[i].public_key);
        assert(after[observed[j].id].public_key == observed[j].public_key);
        if i < j {
            assert(observed[i].public_key != observed[j].public_key);
        } else {
            assert(observed[j].public_key != observed[i].public_key);
        }
    }
}


/// The table after the plan of a sync was carried out on the store: the
/// upserts first, then the deletes.
pub open spec fn carried_out(stored: Seq<IdentityDtoView>, plan: SyncPlanView) -> IdentityTable {
    delete_all(upsert_all(table_of(stored), plan.upserts), plan.deletes)
}

/// Whether no two items of the vault have the same id.
pub open spec fn cipher_ids_distinct(ciphers: Seq<CipherView>) -> bool {
    forall|i: int, j: int|
        0 <= i < j < ciphers.len() ==> (#[trigger] ciphers[i]).id != (#[trigger] ciphers[j]).id
}

/// Whether a stored identity holds a key that the vault now exposes in an
/// item with another id.
pub open spec fn key_moved(identity: IdentityDtoView, observed: Seq<IdentityDtoView>) -> bool {
    !has_id(observed, identity.id) && has_key(observed, identity.public_key)
}

/// Every exposed identity has the id of an item, and exposed identities of
/// items with distinct ids have distinct ids.
proof fn lemma_observed_ids(ciphers: Seq<CipherView>, symmetric_key: Seq<u8>)
    ensures
        forall|k: int|
            0 <= k < survey(ciphers, symmetric_key).observed.len() ==> exists|j: int|
                0 <= j < ciphers.len() && (#[trigger] ciphers[j]).id == (#[trigger] survey(
                    ciphers,
                    symmetric_key,
                ).observed[k]).id,
        cipher_ids_distinct(ciphers) ==> ids_distinct(survey(ciphers, symmetric_key).observed),
    decreases ciphers.len(),
{
    let observed = survey(ciphers, symmetric_key).observed;
    if ciphers.len() > 0 {
        let front = ciphers.drop_last();
        let before = survey(front, symmetric_key).observed;
        lemma_observed_ids(front, symmetric_key);
        assert forall|k: int| 0 <= k < observed.len() implies exists|j: int|
            0 <= j < ciphers.len() && (#[trigger] ciphers[j]).id == (#[trigger] observed[k]).id by {
            if k < before.len() {
                assert(observed[k] == before[k]);
                let j = choose|j: int|
                    0 <= j < front.len() && (#[trigger] front[j]).id == before[k].id;
                assert(ciphers[j].id == observed[k].id);
            } else {
                assert(ciphers[ciphers.len() - 1].id == observed[k].id);
            }
        }
        if cipher_ids_distinct(ciphers) {
            assert(cipher_ids_distinct(front)) by {
                assert forall|i: int, j: int| 0 <= i < j < front.len() implies (
                #[trigger] front[i]).id != (#[trigger] front[j]).id by {
                    assert(ciphers[i].id != ciphers[j].id);
                }
            }
            assert forall|a: int, b: int| 0 <= a < b < observed.len() implies (
            #[trigger] observed[a]).id != (#[trigger] observed[b]).id by {
                if b < before.len() {
                    assert(before[a].id != before[b].id);
                } else {
                    assert(observed[a] == before[a]);
                    let j = choose|j: int|
                        0 <= j < front.len() && (#[trigger] front[j]).id == before[a].id;
                    assert(ciphers[j].id != ciphers[ciphers.len() - 1].id);
                }
            }
        }
    }
}

/// After a sync the store holds the exposed identities and no others.
///
/// Take a store in which no two identities have the same id, and items of
/// the vault of which no two have the same id. Once the plan of a sync
/// that did not end early is carried out, every identity in the store has
/// a public key that was observed in this run, and every exposed identity
/// is in the store under its id, with its name and its public key.
pub proof fn lemma_sync_reconciles(
    ciphers: Seq<CipherView>,
    symmetric_key: Seq<u8>,
    stored: Seq<IdentityDtoView>,
)
    requires
        ids_distinct(stored),
        cipher_ids_distinct(ciphers),
        !sync_plan(ciphers, symmetric_key, stored).aborted,
    ensures
        forall|id: Seq<char>| #[trigger]
            carried_out(stored, sync_plan(ciphers, symmetric_key, stored)).dom().contains(id)
                ==> has_key(
                survey(ciphers, symmetric_key).observed,
                carried_out(stored, sync_plan(ciphers, symmetric_key, stored))[id].public_key,
            ),
        forall|k: int|
            0 <= k < survey(ciphers, symmetric_key).observed.len() ==> {
                let exposed = #[trigger] survey(ciphers, symmetric_key).observed[k];
                let after = carried_out(stored, sync_plan(ciphers, symmetric_key, stored));
                &&& after.dom().contains(exposed.id)
                &&& after[exposed.id].name == exposed.name
                &&& after[exposed.id].public_key == exposed.public_key
            },
{
    let observed = survey(ciphers, symmetric_key).observed;
    lemma_observed_ids(ciphers, symmetric_key);
    lemma_reconciled(stored, observed);
    assert(carried_out(stored, sync_plan(ciphers, symmetric_key, stored)) == after_sync(
        stored,
        observed,
    ));
}

/// After a sync no two identities in the store have the same public key,
/// and the store holds an identity for each exposed id and for no other.
///
/// This needs more than distinct ids: no two exposed identities may have
/// the same public key, and no key may have moved, that is, no stored
/// identity whose id is not exposed may have the public key of an exposed
/// one. Such an identity is kept, since its key is observed, beside the
/// exposed one that has the same key.
pub proof fn lemma_sync_keeps_keys_unique(
    ciphers: Seq<CipherView>,
    symmetric_key: Seq<u8>,
    stored: Seq<IdentityDtoView>,
)
    requires
        ids_distinct(stored),
        cipher_ids_distinct(ciphers),
        !sync_plan(ciphers, symmetric_key, stored).aborted,
        keys_distinct(survey(ciphers, symmetric_key).observed),
        forall|j: int|
            0 <= j < stored.len() ==> !key_moved(
                #[trigger] stored[j],
                survey(ciphers, symmetric_key).observed,
            ),
    ensures
        forall|id: Seq<char>| #[trigger]
            carried_out(stored, sync_plan(ciphers, symmetric_key, stored)).dom().contains(id)
                <==> has_id(survey(ciphers, symmetric_key).observed, id),
        forall|a: Seq<char>, b: Seq<char>|
            a != b && #[trigger] carried_out(
                stored,
                sync_plan(ciphers, symmetric_key, stored),
            ).dom().contains(a) && #[trigger] carried_out(
                stored,
                sync_plan(ciphers, symmetric_key, stored),
            ).dom().contains(b) ==> carried_out(
                stored,
                sync_plan(ciphers, symmetric_key, stored),
            )[a].public_key != carried_out(
                stored,
                sync_plan(ciphers, symmetric_key, stored),
            )[b].public_key,
{
    let observed = survey(ciphers, symmetric_key).observed;
    lemma_observed_ids(ciphers, symmetric_key);
    assert forall|j: int|
        0 <= j < stored.len() && !has_id(observed, (#[trigger] stored[j]).id) implies !has_key(
        observed,
        stored[j].public_key,
    ) by {
        assert(!key_moved(stored[j], observed));
    }
    lemma_reconciled_unique(stored, observed);
    assert(carried_out(stored, sync_plan(ciphers, symmetric_key, stored)) == after_sync(
        stored,
        observed,
    ));
}

} // verus!
