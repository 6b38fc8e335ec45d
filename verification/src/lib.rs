//! Core of an encrypted trading-strategy service.
//!
//! Builders publish threshold rules whose numeric bounds are held only as
//! ciphertexts under a fully homomorphic encryption scheme; investors
//! allocate funds to those strategies. The service can decide whether a
//! candidate market value crosses a still-encrypted bound without ever
//! seeing the bound in the clear.
//!
//! The modules split the core as follows: [`fhe`] holds the key material and
//! the ciphertext type together with the homomorphic operations; [`trading`]
//! is the strategy registry; [`account`] is the account ledger with the
//! encrypted limit-order store; [`flows`] coordinates capital flow between
//! ledger and registry; [`laws`] states and proves the invariants that span
//! several operations.

pub mod account;
pub mod errors;
pub mod fhe;
pub mod flows;
pub mod laws;
pub mod trading;
