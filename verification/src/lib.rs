//! Verified accounting core of a micro-lending protocol: a share-based
//! liquidity pool with locked-liquidity bookkeeping and an 85/10/5 interest
//! split, a credit-line loan lifecycle state machine, and a merchant
//! registry. Ledger storage, authorization proofs, token transfers and event
//! emission are the host's concern; the functions here take plain values
//! (account ids, amounts, timestamps) and return the resulting state and
//! actions, so every accounting rule is checked by the verifier.

pub mod creditline;
pub mod math;
pub mod pool;
pub mod registry;
pub mod shares;
