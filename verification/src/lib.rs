//! Ceres: the logic of parametric crop insurance. An oracle keeps the latest
//! weather reading per map cell and kind, a registry holds farmers' insurance
//! policies, and a trigger records, once per policy, that a payout is due.
//! Each contract is a verified state machine over its stored data.

pub mod address;
pub mod keyed;
pub mod oracle;
pub mod policy;
pub mod trigger;
