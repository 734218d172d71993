//! A permissioned, append-only ledger of trust and performance actions.
//!
//! Registered sources assert actions about subject accounts named by a
//! decentralized identifier (DID). The ledger records every action in the
//! order it was appended, keeps a per-source index of the distinct action
//! types that source has used, and answers filtered queries over a subject's
//! history. The host environment (caller authentication, the privileged
//! self-call gate, and the block clock) is passed in explicitly as plain
//! values, so the whole protocol is verified here.

pub mod actions;
pub mod assoc;
pub mod laws;
pub mod ledger;
pub mod score;

pub use actions::ActionModel;
pub use actions::CoretoTPAction;
pub use actions::CoretoTPActionRequestData;
pub use actions::CoretoTPStat;
pub use actions::RequestModel;
pub use ledger::AuthorizationContext;
pub use ledger::CoretoTPLedger;
pub use ledger::LedgerError;
pub use ledger::LedgerView;
pub use score::f32_bits_positive;
pub use score::score_is_positive;
