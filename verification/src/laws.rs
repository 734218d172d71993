//! Laws of the ledger protocol that relate several operations.
//!
//! Each proof function here states, over the same maps and sequences the
//! operations' contracts speak of, a guarantee that no single contract
//! states by itself.

use vstd::prelude::*;

use crate::actions::ActionModel;
use crate::actions::RequestModel;
use crate::ledger::apply_request;
use crate::ledger::apply_requests;
use crate::ledger::record_action_type;
use crate::ledger::record_action_types;
use crate::ledger::stamped_action;
use crate::ledger::stored_actions;
use crate::ledger::with_label;

verus! {

/// Registering a source and then removing it leaves the identity
/// unregistered again, and no other identity's registration is touched.
/// Since `save_action` and `save_actions_batch` reject exactly the
/// callers absent from the registry, the removed identity's subsequent
/// writes fail again as they did before registration; and since the
/// registry operations leave the action log and the action-type index
/// unchanged, everything the source wrote in between stays queryable.
pub proof fn lemma_deregistration_blocks_only_future_writes(
    sources: Map<Seq<char>, Seq<char>>,
    id: Seq<char>,
    label: Seq<char>,
)
    ensures
        !sources.insert(id, label).remove(id).contains_key(id),
        forall|other: Seq<char>|
            other != id ==> #[trigger] sources.insert(id, label).remove(id).contains_key(other)
                == sources.contains_key(other),
{
}

/// Appending a batch whose records all concern one subject extends that
/// subject's stored sequence by exactly the stamped records, in input
/// order; the view scoped to the writer's label grows by exactly those
/// records as well, so its length grows by the batch's length; and no
/// other subject's sequence changes.
pub proof fn lemma_batch_appends_in_order(
    tp: Map<Seq<char>, Seq<ActionModel>>,
    reqs: Seq<RequestModel>,
    did: Seq<char>,
    label: Seq<char>,
    source: Seq<char>,
    block_date: Seq<char>,
)
    requires
        forall|i: int| 0 <= i < reqs.len() ==> (#[trigger] reqs[i]).account_did == did,
    ensures
        ({
            let tp2 = apply_requests(tp, reqs, label, source, block_date);
            let stamped = reqs.map_values(
                |q: RequestModel| stamped_action(q, label, source, block_date),
            );
            &&& stored_actions(tp2, did) == stored_actions(tp, did) + stamped
            &&& with_label(stored_actions(tp2, did), label) == with_label(
                stored_actions(tp, did),
                label,
            ) + stamped
            &&& with_label(stored_actions(tp2, did), label).len() == with_label(
                stored_actions(tp, did),
                label,
            ).len() + reqs.len()
            &&& forall|d: Seq<char>|
                d != did ==> #[trigger] stored_actions(tp2, d) == stored_actions(tp, d)
        }),
    decreases reqs.len(),
{
    let tp2 = apply_requests(tp, reqs, label, source, block_date);
    let f = |q: RequestModel| stamped_action(q, label, source, block_date);
    let stamped = reqs.map_values(f);
    if reqs.len() == 0 {
        assert(stamped.len() == 0);
        assert(stored_actions(tp, did) + stamped =~= stored_actions(tp, did));
        assert(with_label(stored_actions(tp, did), label) + stamped =~= with_label(
            stored_actions(tp, did),
            label,
        ));
    } else {
        let prefix = reqs.drop_last();
        let lastq = reqs.last();
        lemma_batch_appends_in_order(tp, prefix, did, label, source, block_date);
        let tp1 = apply_requests(tp, prefix, label, source, block_date);
        assert(tp2 == apply_request(tp1, lastq, label, source, block_date));
        assert(lastq.account_did == did);
        let st = stamped_action(lastq, label, source, block_date);
        assert(stored_actions(tp2, did) == stored_actions(tp1, did).push(st));
        assert(stamped =~= prefix.map_values(f).push(st));
        assert(stored_actions(tp, did) + stamped =~= (stored_actions(tp, did)
            + prefix.map_values(f)).push(st));
        // the stamped record carries the writer's label, so the scoped
        // view keeps it
        reveal_with_fuel(Seq::<ActionModel>::filter, 2);
        assert(stored_actions(tp1, did).push(st).drop_last() =~= stored_actions(tp1, did));
        assert(with_label(stored_actions(tp2, did), label) == with_label(
            stored_actions(tp1, did),
            label,
        ).push(st));
        assert(with_label(stored_actions(tp, did), label) + stamped =~= (with_label(
            stored_actions(tp, did),
            label,
        ) + prefix.map_values(f)).push(st));
        assert forall|d: Seq<char>| d != did implies #[trigger] stored_actions(tp2, d)
            == stored_actions(tp, d) by {
            assert(stored_actions(tp1, d) == stored_actions(tp, d));
        }
    }
}

/// Recording one action type keeps the list free of duplicates, keeps
/// the list already seen as a prefix (first-seen order is stable), and
/// makes the list contain exactly what it contained before plus the
/// recorded type.
pub proof fn lemma_record_action_type_distinct(ts: Seq<Seq<char>>, t: Seq<char>)
    requires
        ts.no_duplicates(),
    ensures
        record_action_type(ts, t).no_duplicates(),
        ts.is_prefix_of(record_action_type(ts, t)),
        forall|x: Seq<char>|
            #[trigger] record_action_type(ts, t).contains(x) <==> ts.contains(x) || x == t,
{
    let ts2 = record_action_type(ts, t);
    if !ts.contains(t) {
        assert(ts2 == ts.push(t));
        assert forall|a: int, b: int|
            0 <= a < ts2.len() && 0 <= b < ts2.len() && a != b implies ts2[a] != ts2[b] by {
            if a < ts.len() && b < ts.len() {
            } else if b == ts.len() {
                assert(ts2[a] == ts[a] && ts2[b] == t);
            } else {
                assert(ts2[b] == ts[b] && ts2[a] == t);
            }
        }
        assert(ts2.subrange(0, ts.len() as int) =~= ts);
        assert forall|x: Seq<char>| #[trigger] ts2.contains(x) implies ts.contains(x) || x
            == t by {
            let i = choose|i: int| 0 <= i < ts2.len() && ts2[i] == x;
            if i < ts.len() {
                assert(ts[i] == x);
            }
        }
        assert forall|x: Seq<char>| ts.contains(x) || x == t implies #[trigger] ts2.contains(
            x,
        ) by {
            if ts.contains(x) {
                let i = choose|i: int| 0 <= i < ts.len() && ts[i] == x;
                assert(ts2[i] == x);
            } else {
                assert(ts2[ts.len() as int] == t);
            }
        }
    } else {
        assert(ts.subrange(0, ts.len() as int) =~= ts);
    }
}

/// Recording the action types of a whole batch keeps the index list
/// duplicate-free and keeps what was already recorded as a prefix, in
/// first-seen order; and the list afterwards contains exactly the types
/// it contained before plus the types the batch uses.
pub proof fn lemma_record_action_types_distinct(ts: Seq<Seq<char>>, reqs: Seq<RequestModel>)
    requires
        ts.no_duplicates(),
    ensures
        record_action_types(ts, reqs).no_duplicates(),
        ts.is_prefix_of(record_action_types(ts, reqs)),
        forall|x: Seq<char>|
            #[trigger] record_action_types(ts, reqs).contains(x) <==> ts.contains(x) || (
            exists|i: int| 0 <= i < reqs.len() && (#[trigger] reqs[i]).action_type == x),
    decreases reqs.len(),
{
    let ts2 = record_action_types(ts, reqs);
    if reqs.len() == 0 {
        assert(ts.subrange(0, ts.len() as int) =~= ts);
    } else {
        let prefix = reqs.drop_last();
        lemma_record_action_types_distinct(ts, prefix);
        let mid = record_action_types(ts, prefix);
        lemma_record_action_type_distinct(mid, reqs.last().action_type);
        assert(ts2 == record_action_type(mid, reqs.last().action_type));
        assert forall|k: int| 0 <= k < ts.len() implies ts2[k] == ts[k] by {
            assert(mid.subrange(0, ts.len() as int)[k] == ts[k]);
            assert(ts2.subrange(0, mid.len() as int)[k] == mid[k]);
        }
        assert(ts2.subrange(0, ts.len() as int) =~= ts);
        assert forall|x: Seq<char>| #[trigger] ts2.contains(x) implies ts.contains(x) || (
        exists|i: int| 0 <= i < reqs.len() && (#[trigger] reqs[i]).action_type == x) by {
            if !ts.contains(x) {
                if mid.contains(x) {
                    let i = choose|i: int|
                        0 <= i < prefix.len() && (#[trigger] prefix[i]).action_type == x;
                    assert(reqs[i].action_type == x);
                } else {
                    assert(x == reqs.last().action_type);
                    assert(reqs[reqs.len() - 1].action_type == x);
                }
            }
        }
        assert forall|x: Seq<char>|
            ts.contains(x) || (exists|i: int|
                0 <= i < reqs.len() && (#[trigger] reqs[i]).action_type == x) implies #[trigger] ts2.contains(
            x,
        ) by {
            if ts.contains(x) {
                assert(mid.contains(x));
            } else {
                let i = choose|i: int| 0 <= i < reqs.len() && (#[trigger] reqs[i]).action_type == x;
                if i < prefix.len() {
                    assert(prefix[i].action_type == x);
                    assert(mid.contains(x));
                } else {
                    assert(reqs.last().action_type == x);
                }
            }
        }
    }
}

} // verus!
