//! Planning of token disperse and collect transactions: request validation,
//! decimal amount parsing, checked summation and contract call encoding.

pub mod amount;
pub mod address;
pub mod abi;
pub mod calls;
pub mod plan;
pub mod requests;
pub mod keys;
