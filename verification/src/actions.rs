//! The records the ledger stores and accepts.
//!
//! `CoretoTPActionRequestData` is what a writer submits; `CoretoTPAction` is
//! the immutable record the ledger keeps, which adds the fields the ledger
//! stamps at append time: the block date from the host clock, the writing
//! source's identity, and a snapshot of that source's current label.
//! `CoretoTPStat` is one subject's append-only sequence of actions.
//!
//! Trust and performance scores are IEEE 754 single-precision bit patterns;
//! see the `score` module.

use vstd::prelude::*;

verus! {

/// The mathematical value of one submitted record.
pub ghost struct RequestModel {
    pub trust: u32,
    pub performance: u32,
    pub action_type: Seq<char>,
    pub action_date: Seq<char>,
    pub account_did: Seq<char>,
    pub identifier: Seq<char>,
}

/// The mathematical value of one stored action.
pub ghost struct ActionModel {
    pub trust: u32,
    pub performance: u32,
    pub action_type: Seq<char>,
    pub action_date: Seq<char>,
    pub block_date: Seq<char>,
    pub source_label: Seq<char>,
    pub source: Seq<char>,
    pub identifier: Seq<char>,
}

/// One record as submitted by a writer: caller-supplied fields only.
pub struct CoretoTPActionRequestData {
    pub trust: u32,
    pub performance: u32,
    pub action_type: String,
    pub action_date: String,
    pub account_did: String,
    pub identifier: String,
}

/// One immutable stored action.
#[derive(Debug)]
pub struct CoretoTPAction {
    pub trust: u32,
    pub performance: u32,
    pub action_type: String,
    pub action_date: String,
    pub block_date: String,
    pub source_label: String,
    pub source: String,
    pub identifier: String,
}

/// One subject's append-only sequence of actions.
pub struct CoretoTPStat {
    pub actions: Vec<CoretoTPAction>,
}

impl View for CoretoTPActionRequestData {
    type V = RequestModel;

    open spec fn view(&self) -> RequestModel {
        RequestModel {
            trust: self.trust,
            performance: self.performance,
            action_type: self.action_type@,
            action_date: self.action_date@,
            account_did: self.account_did@,
            identifier: self.identifier@,
        }
    }
}

impl DeepView for CoretoTPActionRequestData {
    type V = RequestModel;

    open spec fn deep_view(&self) -> RequestModel {
        self.view()
    }
}

impl View for CoretoTPAction {
    type V = ActionModel;

    open spec fn view(&self) -> ActionModel {
        ActionModel {
            trust: self.trust,
            performance: self.performance,
            action_type: self.action_type@,
            action_date: self.action_date@,
            block_date: self.block_date@,
            source_label: self.source_label@,
            source: self.source@,
            identifier: self.identifier@,
        }
    }
}

impl DeepView for CoretoTPAction {
    type V = ActionModel;

    open spec fn deep_view(&self) -> ActionModel {
        self.view()
    }
}

impl Clone for CoretoTPAction {
    fn clone(&self) -> (r: Self)
        ensures
            r@ == self@,
    {
        CoretoTPAction {
            trust: self.trust,
            performance: self.performance,
            action_type: self.action_type.clone(),
            action_date: self.action_date.clone(),
            block_date: self.block_date.clone(),
            source_label: self.source_label.clone(),
            source: self.source.clone(),
            identifier: self.identifier.clone(),
        }
    }
}

impl View for CoretoTPStat {
    type V = Seq<ActionModel>;

    open spec fn view(&self) -> Seq<ActionModel> {
        self.actions.deep_view()
    }
}

impl DeepView for CoretoTPStat {
    type V = Seq<ActionModel>;

    open spec fn deep_view(&self) -> Seq<ActionModel> {
        self.view()
    }
}

impl CoretoTPStat {
    /// A subject sequence with no actions yet.
    pub fn default() -> (r: Self)
        ensures
            r@ == Seq::<ActionModel>::empty(),
    {
        let r = CoretoTPStat { actions: Vec::new() };
        proof {
            assert(r@ =~= Seq::<ActionModel>::empty());
        }
        r
    }
}

} // verus!
