//! Rate-control and bonding engine for a money-market derivative token.
//!
//! Users lock an interest-bearing deposit token to mint a derivative token at
//! a dynamically adjusted premium rate; burning the derivative token queues a
//! time-locked redemption that becomes claimable after a fixed unbonding
//! delay. The premium rate and the realized allocation share are recomputed
//! once per epoch under bounded adjustment rules.

pub mod dec;
pub mod error;
pub mod state;
pub mod engine;
pub mod conservation;
pub mod bonding;
pub mod contract;
