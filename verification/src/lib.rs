//! A verified single-process publish/subscribe and request/reply core.
//!
//! The crate's centre is the [`selector::Selector`]: an event demultiplexer
//! that registers subscribers, service servers, service clients, guard
//! conditions and software timers, blocks until one of them is ready or the
//! nearest timer is due, and fans callbacks out in a fixed order.  Timers are
//! kept in a [`delta_list::DeltaList`], whose prefix sums of relative delays
//! give each entry's absolute deadline.
//!
//! Everything that decides — registration, rejection of a foreign context,
//! the timer wheel, timeout computation, dispatch order and one-shot removal
//! — is verified.  The few places that must touch the operating system (the
//! clock, the blocking wake channel, the topic directory) sit behind small
//! trusted wrappers in [`runtime`].

pub mod context;
pub mod delta_list;
pub mod error;
pub mod guard_condition;
pub mod msg;
pub mod node;
pub mod qos;
pub mod queue;
pub mod runtime;
pub mod selector;
pub mod service;
pub mod topic;
pub mod wake;
