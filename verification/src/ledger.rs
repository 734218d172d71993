//! The ledger: source registry, per-subject action log, per-source
//! action-type index, and the operations callers invoke.
//!
//! Authentication and the clock are capabilities of the host: every
//! operation that needs them takes an [`AuthorizationContext`] (the
//! authenticated caller identity and the privileged self-call gate's
//! answer) and, on the write path, the block date the host clock supplied.
//! A failed precondition leaves the ledger exactly as it was; a successful
//! write commits every mutation the contract states.
//!
//! Two known sharp edges of the interface are kept deliberately: read
//! filters match on the label string, so two identities registered under
//! one label are indistinguishable to readers; and deregistering a source
//! does not clean up its actions or its action-type index entry, it only
//! blocks future writes.

use vstd::prelude::*;

use crate::actions::ActionModel;
use crate::actions::CoretoTPAction;
use crate::actions::CoretoTPActionRequestData;
use crate::actions::CoretoTPStat;
use crate::actions::RequestModel;
use crate::assoc::KeyVal;
use crate::assoc::assoc_view;
use crate::assoc::find_key;
use crate::assoc::has_key;
use crate::assoc::keys_unique;
use crate::assoc::lemma_assoc_view_contains;
use crate::assoc::lemma_assoc_view_push;
use crate::assoc::lemma_assoc_view_remove;
use crate::assoc::lemma_assoc_view_value;

verus! {

/// The actions of `s` recorded under the label `label`, in stored order.
/// Reads match on the label string, not on the writing identity.
pub open spec fn with_label(s: Seq<ActionModel>, label: Seq<char>) -> Seq<ActionModel> {
    s.filter(|a: ActionModel| a.source_label == label)
}

/// The actions of `s` recorded under `label` whose trust score is
/// strictly positive, in stored order.
pub open spec fn with_label_and_trust(s: Seq<ActionModel>, label: Seq<char>) -> Seq<ActionModel> {
    s.filter(|a: ActionModel| a.source_label == label && crate::score::f32_bits_positive(a.trust))
}

/// The actions of `s` recorded under `label` whose performance score is
/// strictly positive, in stored order.
pub open spec fn with_label_and_performance(s: Seq<ActionModel>, label: Seq<char>) -> Seq<
    ActionModel,
> {
    s.filter(
        |a: ActionModel| a.source_label == label && crate::score::f32_bits_positive(a.performance),
    )
}

/// The action sequence stored for `did`, or the empty sequence when the
/// subject has none yet.
pub open spec fn stored_actions(tp: Map<Seq<char>, Seq<ActionModel>>, did: Seq<char>) -> Seq<
    ActionModel,
> {
    if tp.contains_key(did) {
        tp[did]
    } else {
        Seq::empty()
    }
}

/// The action-type list stored for `src`, or the empty list when that
/// source never recorded an action.
pub open spec fn stored_types(sa: Map<Seq<char>, Seq<Seq<char>>>, src: Seq<char>) -> Seq<
    Seq<char>,
> {
    if sa.contains_key(src) {
        sa[src]
    } else {
        Seq::empty()
    }
}

/// The stored action a request becomes: the caller-supplied fields
/// verbatim, stamped with the writer's current label, the writer's
/// identity, and the block date the host clock supplied.
pub open spec fn stamped_action(
    req: RequestModel,
    label: Seq<char>,
    source: Seq<char>,
    block_date: Seq<char>,
) -> ActionModel {
    ActionModel {
        trust: req.trust,
        performance: req.performance,
        action_type: req.action_type,
        action_date: req.action_date,
        block_date: block_date,
        source_label: label,
        source: source,
        identifier: req.identifier,
    }
}

/// Appending one stamped request to the action log: the subject's
/// sequence, created empty on first use, grows by the stamped action.
pub open spec fn apply_request(
    tp: Map<Seq<char>, Seq<ActionModel>>,
    req: RequestModel,
    label: Seq<char>,
    source: Seq<char>,
    block_date: Seq<char>,
) -> Map<Seq<char>, Seq<ActionModel>> {
    tp.insert(
        req.account_did,
        stored_actions(tp, req.account_did).push(stamped_action(req, label, source, block_date)),
    )
}

/// Appending a batch of stamped requests, in input order.
pub open spec fn apply_requests(
    tp: Map<Seq<char>, Seq<ActionModel>>,
    reqs: Seq<RequestModel>,
    label: Seq<char>,
    source: Seq<char>,
    block_date: Seq<char>,
) -> Map<Seq<char>, Seq<ActionModel>>
    decreases reqs.len(),
{
    if reqs.len() == 0 {
        tp
    } else {
        apply_request(
            apply_requests(tp, reqs.drop_last(), label, source, block_date),
            reqs.last(),
            label,
            source,
            block_date,
        )
    }
}

/// Recording one action type in a source's index: idempotent, and a type
/// never seen before goes to the end, which keeps first-seen order.
pub open spec fn record_action_type(ts: Seq<Seq<char>>, t: Seq<char>) -> Seq<Seq<char>> {
    if ts.contains(t) {
        ts
    } else {
        ts.push(t)
    }
}

/// Recording the action types of a batch of requests, in input order.
pub open spec fn record_action_types(ts: Seq<Seq<char>>, reqs: Seq<RequestModel>) -> Seq<
    Seq<char>,
>
    decreases reqs.len(),
{
    if reqs.len() == 0 {
        ts
    } else {
        record_action_type(record_action_types(ts, reqs.drop_last()), reqs.last().action_type)
    }
}

/// What the host says about the current call: the authenticated caller
/// identity, and whether the call is the ledger's own privileged
/// self-call.
pub struct AuthorizationContext {
    pub caller: String,
    pub is_privileged: bool,
}

/// Why a call was rejected. Every rejection happens before any mutation.
#[derive(Clone, Copy, Debug, PartialEq, Eq, Structural)]
pub enum LedgerError {
    /// A non-privileged caller attempted a registry mutation.
    Unauthorized,
    /// An unregistered identity attempted a write.
    InvalidSigner,
    /// The identity being registered already is.
    AlreadyExists,
    /// The identity being deregistered is not registered.
    NotFound,
    /// The queried subject has no action sequence at all.
    SubjectNotFound,
    /// The queried source never recorded an action.
    SourceNotFound,
}

impl LedgerError {
    /// The message the host surfaces for this rejection.
    pub fn message(&self) -> (m: &'static str)
        ensures
            m@ == match *self {
                LedgerError::Unauthorized => "Method is private"@,
                LedgerError::InvalidSigner => "Invalid signer wallet."@,
                LedgerError::AlreadyExists => "Source already exists."@,
                LedgerError::NotFound => "Source not found."@,
                LedgerError::SubjectNotFound => "AccountDID not found."@,
                LedgerError::SourceNotFound => "Source not found."@,
            },
    {
        match *self {
            LedgerError::Unauthorized => "Method is private",
            LedgerError::InvalidSigner => "Invalid signer wallet.",
            LedgerError::AlreadyExists => "Source already exists.",
            LedgerError::NotFound => "Source not found.",
            LedgerError::SubjectNotFound => "AccountDID not found.",
            LedgerError::SourceNotFound => "Source not found.",
        }
    }
}

/// Filtering one more element of `s` by label keeps the filtered prefix
/// and appends `s[j]` exactly when its label matches.
proof fn lemma_with_label_take_step(s: Seq<ActionModel>, label: Seq<char>, j: int)
    requires
        0 <= j < s.len(),
    ensures
        s[j].source_label == label ==> with_label(s.take(j + 1), label) == with_label(
            s.take(j),
            label,
        ).push(s[j]),
        s[j].source_label != label ==> with_label(s.take(j + 1), label) == with_label(
            s.take(j),
            label,
        ),
{
    reveal_with_fuel(Seq::<ActionModel>::filter, 2);
    assert(s.take(j + 1).drop_last() =~= s.take(j));
    assert(s.take(j + 1).last() == s[j]);
}

/// The step of `lemma_with_label_take_step` for the trust filter.
proof fn lemma_with_label_and_trust_take_step(s: Seq<ActionModel>, label: Seq<char>, j: int)
    requires
        0 <= j < s.len(),
    ensures
        s[j].source_label == label && crate::score::f32_bits_positive(s[j].trust)
            ==> with_label_and_trust(s.take(j + 1), label) == with_label_and_trust(
            s.take(j),
            label,
        ).push(s[j]),
        !(s[j].source_label == label && crate::score::f32_bits_positive(s[j].trust))
            ==> with_label_and_trust(s.take(j + 1), label) == with_label_and_trust(
            s.take(j),
            label,
        ),
{
    reveal_with_fuel(Seq::<ActionModel>::filter, 2);
    assert(s.take(j + 1).drop_last() =~= s.take(j));
    assert(s.take(j + 1).last() == s[j]);
}

/// The step of `lemma_with_label_take_step` for the performance filter.
proof fn lemma_with_label_and_performance_take_step(s: Seq<ActionModel>, label: Seq<char>, j: int)
    requires
        0 <= j < s.len(),
    ensures
        s[j].source_label == label && crate::score::f32_bits_positive(s[j].performance)
            ==> with_label_and_performance(s.take(j + 1), label) == with_label_and_performance(
            s.take(j),
            label,
        ).push(s[j]),
        !(s[j].source_label == label && crate::score::f32_bits_positive(s[j].performance))
            ==> with_label_and_performance(s.take(j + 1), label) == with_label_and_performance(
            s.take(j),
            label,
        ),
{
    reveal_with_fuel(Seq::<ActionModel>::filter, 2);
    assert(s.take(j + 1).drop_last() =~= s.take(j));
    assert(s.take(j + 1).last() == s[j]);
}

/// Copies a list of strings.
fn clone_string_vec(v: &Vec<String>) -> (r: Vec<String>)
    ensures
        r.deep_view() == v.deep_view(),
{
    let mut r: Vec<String> = Vec::new();
    proof {
        assert(r.deep_view() =~= v.deep_view().take(0));
    }
    let mut i: usize = 0;
    while i < v.len()
        invariant
            i <= v@.len(),
            r.deep_view() == v.deep_view().take(i as int),
        decreases v@.len() - i,
    {
        let ghost pre = r.deep_view();
        r.push(v[i].clone());
        proof {
            assert forall|k: int| 0 <= k < r@.len() implies #[trigger] r.deep_view()[k]
                == v.deep_view().take(i as int + 1)[k] by {
                if k < pre.len() {
                    assert(r.deep_view()[k] == pre[k]);
                } else {
                    assert(r.deep_view()[k] == v@[i as int]@);
                }
            }
            assert(pre.len() == i as int);
            assert(r@.len() == i + 1);
            assert(r.deep_view().len() == r@.len());
            assert(r.deep_view().len() == i + 1);
            assert(v.deep_view().take(i as int + 1).len() == i + 1);
            assert(r.deep_view() =~= v.deep_view().take(i as int + 1));
        }
        i += 1;
    }
    proof {
        assert(v.deep_view().take(v@.len() as int) =~= v.deep_view());
    }
    r
}

/// Whether `t` occurs in `v`.
fn contains_string(v: &Vec<String>, t: &String) -> (r: bool)
    ensures
        r == v.deep_view().contains(t@),
{
    proof {
        assert(forall|j: int| 0 <= j < v@.len() ==> #[trigger] v.deep_view()[j] == v@[j]@);
    }
    let mut i: usize = 0;
    while i < v.len()
        invariant
            i <= v@.len(),
            forall|j: int| 0 <= j < i ==> #[trigger] v.deep_view()[j] != t@,
        decreases v@.len() - i,
    {
        if v[i] == *t {
            proof {
                assert(v.deep_view()[i as int] == t@);
            }
            return true;
        }
        proof {
            assert(v.deep_view()[i as int] == v@[i as int]@);
        }
        i += 1;
    }
    false
}

/// Records `action_type` in a type list: appended when absent, left
/// alone when already present, so first-seen order and distinctness are
/// kept.
fn push_action_type(types: &mut Vec<String>, action_type: String)
    ensures
        final(types).deep_view() == record_action_type(old(types).deep_view(), action_type@),
        old(types).deep_view().no_duplicates() ==> final(types).deep_view().no_duplicates(),
{
    let ghost pre = types.deep_view();
    if !contains_string(types, &action_type) {
        types.push(action_type);
        proof {
            assert forall|k: int| 0 <= k < types@.len() implies #[trigger] types.deep_view()[k]
                == pre.push(action_type@)[k] by {
                if k < pre.len() {
                    assert(types.deep_view()[k] == pre[k]);
                } else {
                    assert(types.deep_view()[k] == types@[k]@);
                }
            }
            assert(types.deep_view().len() == types@.len());
            assert(types@.len() == pre.len() + 1);
            assert(types.deep_view() =~= pre.push(action_type@));
            if pre.no_duplicates() {
                assert forall|a: int, b: int|
                    0 <= a < types.deep_view().len() && 0 <= b < types.deep_view().len() && a
                        != b implies types.deep_view()[a] != types.deep_view()[b] by {
                    if a < pre.len() && b < pre.len() {
                    } else if b == pre.len() {
                        assert(!pre.contains(action_type@));
                        assert(types.deep_view()[b] == action_type@);
                    } else {
                        assert(!pre.contains(action_type@));
                        assert(types.deep_view()[a] == action_type@);
                    }
                }
            }
        }
    }
}

/// The ledger's mathematical state: three independent keyed stores.
pub ghost struct LedgerView {
    /// Subject DID to that subject's action sequence, in append order.
    pub tp_infos: Map<Seq<char>, Seq<ActionModel>>,
    /// Registered source identity to its display label.
    pub sources: Map<Seq<char>, Seq<char>>,
    /// Source identity to the distinct action types it has recorded, in
    /// first-seen order.
    pub source_actions: Map<Seq<char>, Seq<Seq<char>>>,
}

/// The ledger.
pub struct CoretoTPLedger {
    tp_infos: Vec<KeyVal<CoretoTPStat>>,
    sources: Vec<KeyVal<String>>,
    source_actions: Vec<KeyVal<Vec<String>>>,
}

impl View for CoretoTPLedger {
    type V = LedgerView;

    closed spec fn view(&self) -> LedgerView {
        LedgerView {
            tp_infos: assoc_view(self.tp_infos@),
            sources: assoc_view(self.sources@),
            source_actions: assoc_view(self.source_actions@),
        }
    }
}

impl Default for CoretoTPLedger {
    /// A ledger with no sources, no actions and an empty index.
    fn default() -> (r: Self)
        ensures
            r.wf(),
            r@.tp_infos == Map::<Seq<char>, Seq<ActionModel>>::empty(),
            r@.sources == Map::<Seq<char>, Seq<char>>::empty(),
            r@.source_actions == Map::<Seq<char>, Seq<Seq<char>>>::empty(),
    {
        CoretoTPLedger { tp_infos: Vec::new(), sources: Vec::new(), source_actions: Vec::new() }
    }
}

impl CoretoTPLedger {
    /// The stores are well formed: keys are pairwise distinct, and each
    /// recorded action-type list holds no duplicate.
    pub closed spec fn wf(self) -> bool {
        &&& keys_unique(self.tp_infos@)
        &&& keys_unique(self.sources@)
        &&& keys_unique(self.source_actions@)
        &&& forall|i: int|
            0 <= i < self.source_actions@.len()
                ==> (#[trigger] self.source_actions@[i]).val.deep_view().no_duplicates()
    }

    /// Appends one stamped action to `account_did`'s sequence, creating
    /// the sequence on first use. No authorization happens here: the
    /// write operations gate before calling.
    fn append_action(&mut self, account_did: &String, action: CoretoTPAction)
        requires
            keys_unique(old(self).tp_infos@),
        ensures
            keys_unique(final(self).tp_infos@),
            assoc_view(final(self).tp_infos@) == assoc_view(old(self).tp_infos@).insert(
                account_did@,
                stored_actions(assoc_view(old(self).tp_infos@), account_did@).push(action@),
            ),
            final(self).sources == old(self).sources,
            final(self).source_actions == old(self).source_actions,
    {
        let ghost tp0_seq = self.tp_infos@;
        let ghost tp0 = assoc_view(tp0_seq);
        proof {
            lemma_assoc_view_contains(tp0_seq, account_did@);
        }
        match find_key(&self.tp_infos, account_did) {
            Some(i) => {
                proof {
                    lemma_assoc_view_value(tp0_seq, i as int);
                    lemma_assoc_view_remove(tp0_seq, i as int);
                }
                let mut entry = self.tp_infos.remove(i);
                let ghost mid_seq = self.tp_infos@;
                let ghost pre = entry.val.actions.deep_view();
                proof {
                    assert(pre == tp0[account_did@]);
                }
                entry.val.actions.push(action);
                proof {
                    assert forall|k: int|
                        0 <= k < entry.val.actions@.len() implies #[trigger] entry.val.actions.deep_view()[k]
                        == pre.push(action@)[k] by {
                        if k < pre.len() {
                            assert(entry.val.actions.deep_view()[k] == pre[k]);
                        } else {
                            assert(entry.val.actions.deep_view()[k] == entry.val.actions@[k]@);
                        }
                    }
                    assert(entry.val.actions.deep_view().len() == entry.val.actions@.len());
                    assert(entry.val.actions.deep_view() =~= pre.push(action@));
                    lemma_assoc_view_contains(mid_seq, account_did@);
                    assert(!has_key(mid_seq, account_did@));
                    lemma_assoc_view_push(mid_seq, entry);
                }
                self.tp_infos.push(entry);
                proof {
                    assert(assoc_view(self.tp_infos@) =~= tp0.insert(
                        account_did@,
                        stored_actions(tp0, account_did@).push(action@),
                    ));
                }
            },
            None => {
                let mut stat = CoretoTPStat::default();
                proof {
                    assert(stat.actions.deep_view().len() == stat.actions@.len());
                    assert(stat.actions@.len() == 0);
                }
                stat.actions.push(action);
                let entry = KeyVal { key: account_did.clone(), val: stat };
                proof {
                    assert(entry.val.actions@.len() == 1);
                    assert(entry.val.actions.deep_view()[0] == action@);
                    assert(entry.val.actions.deep_view() =~= Seq::<ActionModel>::empty().push(
                        action@,
                    ));
                    assert(!tp0.contains_key(account_did@));
                    lemma_assoc_view_push(tp0_seq, entry);
                }
                self.tp_infos.push(entry);
                proof {
                    assert(stored_actions(tp0, account_did@) =~= Seq::<ActionModel>::empty());
                    assert(assoc_view(self.tp_infos@) == tp0.insert(
                        account_did@,
                        stored_actions(tp0, account_did@).push(action@),
                    ));
                }
            },
        }
    }

    /// Stores `types` as `caller`'s action-type list, replacing any list
    /// held before.
    fn store_types(&mut self, caller: &String, types: Vec<String>)
        requires
            keys_unique(old(self).source_actions@),
            forall|i: int|
                0 <= i < old(self).source_actions@.len()
                    ==> (#[trigger] old(self).source_actions@[i]).val.deep_view().no_duplicates(),
            types.deep_view().no_duplicates(),
        ensures
            keys_unique(final(self).source_actions@),
            forall|i: int|
                0 <= i < final(self).source_actions@.len()
                    ==> (#[trigger] final(self).source_actions@[i]).val.deep_view().no_duplicates(),
            assoc_view(final(self).source_actions@) == assoc_view(
                old(self).source_actions@,
            ).insert(caller@, types.deep_view()),
            final(self).sources == old(self).sources,
            final(self).tp_infos == old(self).tp_infos,
    {
        let ghost sa0_seq = self.source_actions@;
        let ghost sa0 = assoc_view(sa0_seq);
        proof {
            lemma_assoc_view_contains(sa0_seq, caller@);
        }
        let entry = KeyVal { key: caller.clone(), val: types };
        match find_key(&self.source_actions, caller) {
            Some(i) => {
                proof {
                    lemma_assoc_view_remove(sa0_seq, i as int);
                }
                let _replaced = self.source_actions.remove(i);
                let ghost mid_seq = self.source_actions@;
                proof {
                    assert forall|j: int|
                        0 <= j < mid_seq.len() implies (#[trigger] mid_seq[j]).val.deep_view().no_duplicates() by {
                        let j2: int = if j < i as int {
                            j
                        } else {
                            j + 1
                        };
                        assert(mid_seq[j] == sa0_seq[j2]);
                    }
                    lemma_assoc_view_contains(mid_seq, caller@);
                    assert(!has_key(mid_seq, caller@));
                    lemma_assoc_view_push(mid_seq, entry);
                }
                self.source_actions.push(entry);
                proof {
                    assert(assoc_view(self.source_actions@) =~= sa0.insert(
                        caller@,
                        entry.val.deep_view(),
                    ));
                    assert forall|j: int|
                        0 <= j < self.source_actions@.len() implies (
                        #[trigger] self.source_actions@[j]).val.deep_view().no_duplicates() by {
                        if j < mid_seq.len() {
                            assert(self.source_actions@[j] == mid_seq[j]);
                            assert(mid_seq[j].val.deep_view().no_duplicates());
                        } else {
                            assert(self.source_actions@[j] == entry);
                        }
                    }
                }
            },
            None => {
                proof {
                    assert(!has_key(sa0_seq, caller@));
                    lemma_assoc_view_push(sa0_seq, entry);
                }
                self.source_actions.push(entry);
                proof {
                    assert forall|j: int|
                        0 <= j < self.source_actions@.len() implies (
                        #[trigger] self.source_actions@[j]).val.deep_view().no_duplicates() by {
                        if j < sa0_seq.len() {
                            assert(self.source_actions@[j] == sa0_seq[j]);
                        } else {
                            assert(self.source_actions@[j] == entry);
                        }
                    }
                }
            },
        }
    }

    /// Records a batch of actions asserted by the calling source, in
    /// input order. The caller must be a registered source; the check
    /// happens once for the whole batch, so an unregistered caller has
    /// the entire batch rejected before any mutation. On success every
    /// record is stamped and appended as by `save_action`, and the
    /// caller's action-type list is stored once at the end of the batch,
    /// which for an empty batch still creates the caller's (empty) index
    /// entry.
    pub fn save_actions_batch(
        &mut self,
        ctx: &AuthorizationContext,
        block_date: String,
        batch: Vec<CoretoTPActionRequestData>,
    ) -> (r: Result<(), LedgerError>)
        requires
            old(self).wf(),
        ensures
            final(self).wf(),
            !old(self)@.sources.contains_key(ctx.caller@) ==> r == Err::<(), LedgerError>(
                LedgerError::InvalidSigner,
            ) && *final(self) == *old(self),
            old(self)@.sources.contains_key(ctx.caller@) ==> r == Ok::<(), LedgerError>(()) && ({
                let label = old(self)@.sources[ctx.caller@];
                &&& final(self)@.tp_infos == apply_requests(
                    old(self)@.tp_infos,
                    batch.deep_view(),
                    label,
                    ctx.caller@,
                    block_date@,
                )
                &&& final(self)@.source_actions == old(self)@.source_actions.insert(
                    ctx.caller@,
                    record_action_types(
                        stored_types(old(self)@.source_actions, ctx.caller@),
                        batch.deep_view(),
                    ),
                )
                &&& final(self)@.sources == old(self)@.sources
            }),
    {
        proof {
            lemma_assoc_view_contains(self.sources@, ctx.caller@);
        }
        let label: String = match find_key(&self.sources, &ctx.caller) {
            None => {
                return Err(LedgerError::InvalidSigner);
            },
            Some(i) => {
                proof {
                    lemma_assoc_view_value(self.sources@, i as int);
                }
                self.sources[i].val.clone()
            },
        };
        proof {
            lemma_assoc_view_contains(self.source_actions@, ctx.caller@);
        }
        let mut types: Vec<String> = match find_key(&self.source_actions, &ctx.caller) {
            Some(i) => {
                proof {
                    lemma_assoc_view_value(self.source_actions@, i as int);
                    assert(self.source_actions@[i as int].val.deep_view().no_duplicates());
                }
                clone_string_vec(&self.source_actions[i].val)
            },
            None => Vec::new(),
        };
        let ghost tp0 = assoc_view(self.tp_infos@);
        let ghost ts0 = stored_types(assoc_view(self.source_actions@), ctx.caller@);
        proof {
            assert(types.deep_view() =~= ts0);
        }
        let mut k: usize = 0;
        while k < batch.len()
            invariant
                old(self).wf(),
                k <= batch@.len(),
                self.sources == old(self).sources,
                self.source_actions == old(self).source_actions,
                keys_unique(self.tp_infos@),
                assoc_view(old(self).sources@).contains_key(ctx.caller@),
                label@ == assoc_view(old(self).sources@)[ctx.caller@],
                tp0 == assoc_view(old(self).tp_infos@),
                ts0 == stored_types(assoc_view(old(self).source_actions@), ctx.caller@),
                assoc_view(self.tp_infos@) == apply_requests(
                    tp0,
                    batch.deep_view().take(k as int),
                    label@,
                    ctx.caller@,
                    block_date@,
                ),
                types.deep_view() == record_action_types(ts0, batch.deep_view().take(k as int)),
                types.deep_view().no_duplicates(),
            decreases batch@.len() - k,
        {
            let data = &batch[k];
            let action = CoretoTPAction {
                trust: data.trust,
                performance: data.performance,
                action_type: data.action_type.clone(),
                action_date: data.action_date.clone(),
                identifier: data.identifier.clone(),
                block_date: block_date.clone(),
                source_label: label.clone(),
                source: ctx.caller.clone(),
            };
            proof {
                assert(batch.deep_view()[k as int] == batch@[k as int]@);
                assert(action@ == stamped_action(
                    batch.deep_view()[k as int],
                    label@,
                    ctx.caller@,
                    block_date@,
                ));
            }
            self.append_action(&data.account_did, action);
            push_action_type(&mut types, data.action_type.clone());
            proof {
                let bd = batch.deep_view();
                assert(bd.take(k as int + 1).drop_last() =~= bd.take(k as int));
                assert(bd.take(k as int + 1).last() == bd[k as int]);
            }
            k += 1;
        }
        proof {
            assert(batch.deep_view().take(batch@.len() as int) =~= batch.deep_view());
        }
        self.store_types(&ctx.caller, types);
        Ok(())
    }

    /// Records one action about `account_did`, asserted by the calling
    /// source. The caller must be a registered source; an unregistered
    /// caller is rejected before any mutation. On success the action is
    /// stamped with the block date, the caller's identity and the
    /// caller's current label, appended to the subject's sequence, and
    /// its action type is recorded in the caller's index.
    pub fn save_action(
        &mut self,
        ctx: &AuthorizationContext,
        block_date: String,
        account_did: String,
        trust: u32,
        performance: u32,
        action_type: String,
        action_date: String,
        identifier: String,
    ) -> (r: Result<(), LedgerError>)
        requires
            old(self).wf(),
        ensures
            final(self).wf(),
            !old(self)@.sources.contains_key(ctx.caller@) ==> r == Err::<(), LedgerError>(
                LedgerError::InvalidSigner,
            ) && *final(self) == *old(self),
            old(self)@.sources.contains_key(ctx.caller@) ==> r == Ok::<(), LedgerError>(()) && ({
                let req = RequestModel {
                    trust: trust,
                    performance: performance,
                    action_type: action_type@,
                    action_date: action_date@,
                    account_did: account_did@,
                    identifier: identifier@,
                };
                let label = old(self)@.sources[ctx.caller@];
                &&& final(self)@.tp_infos == apply_request(
                    old(self)@.tp_infos,
                    req,
                    label,
                    ctx.caller@,
                    block_date@,
                )
                &&& final(self)@.source_actions == old(self)@.source_actions.insert(
                    ctx.caller@,
                    record_action_type(
                        stored_types(old(self)@.source_actions, ctx.caller@),
                        action_type@,
                    ),
                )
                &&& final(self)@.sources == old(self)@.sources
            }),
    {
        proof {
            lemma_assoc_view_contains(self.sources@, ctx.caller@);
        }
        let label: String = match find_key(&self.sources, &ctx.caller) {
            None => {
                return Err(LedgerError::InvalidSigner);
            },
            Some(i) => {
                proof {
                    lemma_assoc_view_value(self.sources@, i as int);
                }
                self.sources[i].val.clone()
            },
        };
        let action = CoretoTPAction {
            trust: trust,
            performance: performance,
            action_type: action_type.clone(),
            action_date: action_date,
            identifier: identifier,
            block_date: block_date,
            source_label: label,
            source: ctx.caller.clone(),
        };
        self.append_action(&account_did, action);
        proof {
            lemma_assoc_view_contains(self.source_actions@, ctx.caller@);
        }
        let mut types: Vec<String> = match find_key(&self.source_actions, &ctx.caller) {
            Some(i) => {
                proof {
                    lemma_assoc_view_value(self.source_actions@, i as int);
                    assert(self.source_actions@[i as int].val.deep_view().no_duplicates());
                }
                clone_string_vec(&self.source_actions[i].val)
            },
            None => Vec::new(),
        };
        proof {
            assert(types.deep_view() =~= stored_types(
                assoc_view(self.source_actions@),
                ctx.caller@,
            ));
        }
        push_action_type(&mut types, action_type);
        self.store_types(&ctx.caller, types);
        Ok(())
    }

    /// Registers `source` under `source_label`. Restricted to the
    /// privileged self-call; rejects an identity that is already
    /// registered, leaving its existing label untouched.
    pub fn add_source(
        &mut self,
        ctx: &AuthorizationContext,
        source: String,
        source_label: String,
    ) -> (r: Result<(), LedgerError>)
        requires
            old(self).wf(),
        ensures
            final(self).wf(),
            !ctx.is_privileged ==> r == Err::<(), LedgerError>(LedgerError::Unauthorized)
                && *final(self) == *old(self),
            ctx.is_privileged && old(self)@.sources.contains_key(source@)
                ==> r == Err::<(), LedgerError>(LedgerError::AlreadyExists)
                && *final(self) == *old(self),
            ctx.is_privileged && !old(self)@.sources.contains_key(source@)
                ==> r == Ok::<(), LedgerError>(())
                && final(self)@.sources == old(self)@.sources.insert(source@, source_label@)
                && final(self)@.tp_infos == old(self)@.tp_infos
                && final(self)@.source_actions == old(self)@.source_actions,
    {
        if !ctx.is_privileged {
            return Err(LedgerError::Unauthorized);
        }
        proof {
            lemma_assoc_view_contains(self.sources@, source@);
        }
        match find_key(&self.sources, &source) {
            Some(_) => Err(LedgerError::AlreadyExists),
            None => {
                let entry = KeyVal { key: source, val: source_label };
                proof {
                    lemma_assoc_view_push(self.sources@, entry);
                }
                self.sources.push(entry);
                Ok(())
            },
        }
    }

    /// Deregisters `source`. Restricted to the privileged self-call;
    /// rejects an identity that is not registered. Previously recorded
    /// actions and the source's action-type index entry are left in
    /// place: deregistration only blocks future writes.
    pub fn remove_source(&mut self, ctx: &AuthorizationContext, source: String) -> (r: Result<
        (),
        LedgerError,
    >)
        requires
            old(self).wf(),
        ensures
            final(self).wf(),
            !ctx.is_privileged ==> r == Err::<(), LedgerError>(LedgerError::Unauthorized)
                && *final(self) == *old(self),
            ctx.is_privileged && !old(self)@.sources.contains_key(source@)
                ==> r == Err::<(), LedgerError>(LedgerError::NotFound)
                && *final(self) == *old(self),
            ctx.is_privileged && old(self)@.sources.contains_key(source@)
                ==> r == Ok::<(), LedgerError>(())
                && final(self)@.sources == old(self)@.sources.remove(source@)
                && final(self)@.tp_infos == old(self)@.tp_infos
                && final(self)@.source_actions == old(self)@.source_actions,
    {
        if !ctx.is_privileged {
            return Err(LedgerError::Unauthorized);
        }
        proof {
            lemma_assoc_view_contains(self.sources@, source@);
        }
        match find_key(&self.sources, &source) {
            None => Err(LedgerError::NotFound),
            Some(i) => {
                proof {
                    lemma_assoc_view_remove(self.sources@, i as int);
                }
                self.sources.remove(i);
                Ok(())
            },
        }
    }

    /// All actions recorded for `account_did` under the label
    /// `source_label`, in append order. Rejects a subject that has no
    /// action sequence at all, even when an existing sequence would
    /// match nothing.
    pub fn get_user_actions(&self, source_label: String, account_did: String) -> (r: Result<
        Vec<CoretoTPAction>,
        LedgerError,
    >)
        requires
            self.wf(),
        ensures
            match r {
                Ok(v) => self@.tp_infos.contains_key(account_did@) && v.deep_view() == with_label(
                    self@.tp_infos[account_did@],
                    source_label@,
                ),
                Err(e) => e == LedgerError::SubjectNotFound && !self@.tp_infos.contains_key(
                    account_did@,
                ),
            },
    {
        proof {
            lemma_assoc_view_contains(self.tp_infos@, account_did@);
        }
        match find_key(&self.tp_infos, &account_did) {
            None => Err(LedgerError::SubjectNotFound),
            Some(i) => {
                proof {
                    lemma_assoc_view_value(self.tp_infos@, i as int);
                }
                let ghost acts_dv: Seq<ActionModel> = self.tp_infos@[i as int].val.deep_view();
                let mut out: Vec<CoretoTPAction> = Vec::new();
                proof {
                    assert(out.deep_view() =~= with_label(acts_dv.take(0), source_label@));
                }
                let mut j: usize = 0;
                while j < self.tp_infos[i].val.actions.len()
                    invariant
                        i < self.tp_infos@.len(),
                        acts_dv == self.tp_infos@[i as int].val.deep_view(),
                        j <= acts_dv.len(),
                        out.deep_view() == with_label(acts_dv.take(j as int), source_label@),
                    decreases acts_dv.len() - j,
                {
                    let a = &self.tp_infos[i].val.actions[j];
                    proof {
                        assert(a@ == acts_dv[j as int]);
                        lemma_with_label_take_step(acts_dv, source_label@, j as int);
                    }
                    if a.source_label == source_label {
                        out.push(a.clone());
                        proof {
                            assert(out.deep_view() =~= with_label(
                                acts_dv.take(j as int),
                                source_label@,
                            ).push(acts_dv[j as int]));
                        }
                    }
                    j += 1;
                }
                proof {
                    assert(acts_dv.take(acts_dv.len() as int) =~= acts_dv);
                }
                Ok(out)
            },
        }
    }

    /// The actions recorded for `account_did` under `source_label` whose
    /// trust score is strictly positive, in append order.
    pub fn get_user_trust_actions(&self, source_label: String, account_did: String) -> (r: Result<
        Vec<CoretoTPAction>,
        LedgerError,
    >)
        requires
            self.wf(),
        ensures
            match r {
                Ok(v) => self@.tp_infos.contains_key(account_did@) && v.deep_view()
                    == with_label_and_trust(self@.tp_infos[account_did@], source_label@),
                Err(e) => e == LedgerError::SubjectNotFound && !self@.tp_infos.contains_key(
                    account_did@,
                ),
            },
    {
        proof {
            lemma_assoc_view_contains(self.tp_infos@, account_did@);
        }
        match find_key(&self.tp_infos, &account_did) {
            None => Err(LedgerError::SubjectNotFound),
            Some(i) => {
                proof {
                    lemma_assoc_view_value(self.tp_infos@, i as int);
                }
                let ghost acts_dv: Seq<ActionModel> = self.tp_infos@[i as int].val.deep_view();
                let mut out: Vec<CoretoTPAction> = Vec::new();
                proof {
                    assert(out.deep_view() =~= with_label_and_trust(
                        acts_dv.take(0),
                        source_label@,
                    ));
                }
                let mut j: usize = 0;
                while j < self.tp_infos[i].val.actions.len()
                    invariant
                        i < self.tp_infos@.len(),
                        acts_dv == self.tp_infos@[i as int].val.deep_view(),
                        j <= acts_dv.len(),
                        out.deep_view() == with_label_and_trust(
                            acts_dv.take(j as int),
                            source_label@,
                        ),
                    decreases acts_dv.len() - j,
                {
                    let a = &self.tp_infos[i].val.actions[j];
                    proof {
                        assert(a@ == acts_dv[j as int]);
                        lemma_with_label_and_trust_take_step(acts_dv, source_label@, j as int);
                    }
                    if a.source_label == source_label && crate::score::score_is_positive(a.trust) {
                        out.push(a.clone());
                        proof {
                            assert(out.deep_view() =~= with_label_and_trust(
                                acts_dv.take(j as int),
                                source_label@,
                            ).push(acts_dv[j as int]));
                        }
                    }
                    j += 1;
                }
                proof {
                    assert(acts_dv.take(acts_dv.len() as int) =~= acts_dv);
                }
                Ok(out)
            },
        }
    }

    /// The actions recorded for `account_did` under `source_label` whose
    /// performance score is strictly positive, in append order.
    pub fn get_user_performance_actions(&self, source_label: String, account_did: String) -> (r:
        Result<Vec<CoretoTPAction>, LedgerError>)
        requires
            self.wf(),
        ensures
            match r {
                Ok(v) => self@.tp_infos.contains_key(account_did@) && v.deep_view()
                    == with_label_and_performance(self@.tp_infos[account_did@], source_label@),
                Err(e) => e == LedgerError::SubjectNotFound && !self@.tp_infos.contains_key(
                    account_did@,
                ),
            },
    {
        proof {
            lemma_assoc_view_contains(self.tp_infos@, account_did@);
        }
        match find_key(&self.tp_infos, &account_did) {
            None => Err(LedgerError::SubjectNotFound),
            Some(i) => {
                proof {
                    lemma_assoc_view_value(self.tp_infos@, i as int);
                }
                let ghost acts_dv: Seq<ActionModel> = self.tp_infos@[i as int].val.deep_view();
                let mut out: Vec<CoretoTPAction> = Vec::new();
                proof {
                    assert(out.deep_view() =~= with_label_and_performance(
                        acts_dv.take(0),
                        source_label@,
                    ));
                }
                let mut j: usize = 0;
                while j < self.tp_infos[i].val.actions.len()
                    invariant
                        i < self.tp_infos@.len(),
                        acts_dv == self.tp_infos@[i as int].val.deep_view(),
                        j <= acts_dv.len(),
                        out.deep_view() == with_label_and_performance(
                            acts_dv.take(j as int),
                            source_label@,
                        ),
                    decreases acts_dv.len() - j,
                {
                    let a = &self.tp_infos[i].val.actions[j];
                    proof {
                        assert(a@ == acts_dv[j as int]);
                        lemma_with_label_and_performance_take_step(
                            acts_dv,
                            source_label@,
                            j as int,
                        );
                    }
                    if a.source_label == source_label && crate::score::score_is_positive(
                        a.performance,
                    ) {
                        out.push(a.clone());
                        proof {
                            assert(out.deep_view() =~= with_label_and_performance(
                                acts_dv.take(j as int),
                                source_label@,
                            ).push(acts_dv[j as int]));
                        }
                    }
                    j += 1;
                }
                proof {
                    assert(acts_dv.take(acts_dv.len() as int) =~= acts_dv);
                }
                Ok(out)
            },
        }
    }

    /// The distinct action types `source` has ever recorded, each exactly
    /// once, in first-seen order. Rejects a source that never recorded an
    /// action; registry membership plays no part here.
    pub fn get_source_action_types(&self, source: String) -> (r: Result<Vec<String>, LedgerError>)
        requires
            self.wf(),
        ensures
            match r {
                Ok(v) => self@.source_actions.contains_key(source@) && v.deep_view()
                    == self@.source_actions[source@] && v.deep_view().no_duplicates(),
                Err(e) => e == LedgerError::SourceNotFound && !self@.source_actions.contains_key(
                    source@,
                ),
            },
    {
        proof {
            lemma_assoc_view_contains(self.source_actions@, source@);
        }
        match find_key(&self.source_actions, &source) {
            None => Err(LedgerError::SourceNotFound),
            Some(i) => {
                proof {
                    lemma_assoc_view_value(self.source_actions@, i as int);
                }
                Ok(clone_string_vec(&self.source_actions[i].val))
            },
        }
    }

    /// Named stub: derived trust scoring is out of scope by design. The
    /// result is always the encoding of the zero score; the host adapter
    /// forwards the two inputs to its observability sink.
    pub fn get_user_trust(&self, source_label: String, account_did: String) -> (r: u32)
        ensures
            r == 0u32,
    {
        let _ = source_label;
        let _ = account_did;
        0u32
    }

    /// Named stub: derived performance scoring is out of scope by design.
    /// The result is always the encoding of the zero score; the host
    /// adapter forwards the two inputs to its observability sink.
    pub fn get_user_performance(&self, source_label: String, account_did: String) -> (r: u32)
        ensures
            r == 0u32,
    {
        let _ = source_label;
        let _ = account_did;
        0u32
    }
}

} // verus!
