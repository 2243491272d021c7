//! A verified single-tape Turing machine: a bi-infinite tape realized as a
//! growable sequence through an interleaving address bijection, and a
//! transition engine that applies first-match quintuple rules step by step.

pub mod addressing;
pub mod machine;

pub use addressing::Movement;
pub use machine::Rule;
pub use machine::Turing;
pub use machine::TuringComplete;
