//! Shared-ownership and message-passing primitives, each modelled as a
//! state machine whose transitions are proved against a mathematical view.
pub mod shared;
pub mod borrow;
pub mod channel;
pub mod lock;
pub mod guess;
pub mod restaurant;
pub mod adder;
pub mod summary;
pub mod iterators;
pub mod minigrep;
pub mod sync;
