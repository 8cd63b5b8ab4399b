//! Quality-of-service profiles for endpoints.
//!
//! A [`Profile`] is a plain configuration record; durations are nanosecond
//! counts, `None` meaning "no bound".  The named constructors are the
//! recognised presets; every field of each preset is pinned by its contract.

use vstd::prelude::*;

verus! {

/// Delivery reliability.
#[derive(Clone, Copy, Debug, PartialEq, Eq, Structural)]
pub enum Reliability {
    /// Messages may be dropped.
    BestEffort,
    /// Messages are retried until acknowledged.
    Reliable,
}

/// Whether late joiners see earlier samples.
#[derive(Clone, Copy, Debug, PartialEq, Eq, Structural)]
pub enum Durability {
    /// No samples are kept for late joiners.
    Volatile,
    /// The last samples are kept for late joiners.
    TransientLocal,
}

/// How many samples the history keeps.
#[derive(Clone, Copy, Debug, PartialEq, Eq, Structural)]
pub enum History {
    /// Keep the most recent `depth` samples.
    KeepLast,
    /// Keep every sample.
    KeepAll,
}

/// How liveliness is asserted.
#[derive(Clone, Copy, Debug, PartialEq, Eq, Structural)]
pub enum Liveliness {
    /// The runtime asserts liveliness by itself.
    Automatic,
    /// The application asserts liveliness by hand.
    Manual,
}

/// A quality-of-service configuration.
#[derive(Clone, Copy, Debug, PartialEq, Eq, Structural)]
pub struct Profile {
    /// Delivery reliability.
    pub reliability: Reliability,
    /// Sample retention for late joiners.
    pub durability: Durability,
    /// History kind.
    pub history: History,
    /// History depth, read with `History::KeepLast`.
    pub depth: usize,
    /// Longest accepted gap between samples, in nanoseconds.
    pub deadline: Option<u64>,
    /// How long a sample stays valid, in nanoseconds.
    pub lifespan: Option<u64>,
    /// Liveliness kind.
    pub liveliness: Liveliness,
    /// Lease for liveliness assertions, in nanoseconds.
    pub liveliness_lease: Option<u64>,
}

/// The named default of every option, as a value.
pub open spec fn spec_default_profile() -> Profile {
    Profile {
        reliability: Reliability::Reliable,
        durability: Durability::Volatile,
        history: History::KeepLast,
        depth: 10usize,
        deadline: None,
        lifespan: None,
        liveliness: Liveliness::Automatic,
        liveliness_lease: None,
    }
}

impl Profile {
    /// Whether every option holds its named default.
    pub open spec fn is_spec_default(self) -> bool {
        self == spec_default_profile()
    }

    /// The preset for sensor streams: lossy but fresh.
    pub fn sensor() -> (r: Self)
        ensures
            r.reliability == Reliability::BestEffort,
            r.durability == Durability::Volatile,
            r.history == History::KeepLast,
            r.depth == 5usize,
            r.deadline is None,
            r.lifespan is None,
            r.liveliness == Liveliness::Automatic,
            r.liveliness_lease is None,
    {
        Profile {
            reliability: Reliability::BestEffort,
            durability: Durability::Volatile,
            history: History::KeepLast,
            depth: 5,
            deadline: None,
            lifespan: None,
            liveliness: Liveliness::Automatic,
            liveliness_lease: None,
        }
    }

    /// The preset for parameter traffic: reliable with a deep history.
    pub fn parameter() -> (r: Self)
        ensures
            r.reliability == Reliability::Reliable,
            r.history == History::KeepLast,
            r.depth == 1000usize,
            r.durability == Durability::Volatile,
            r.deadline is None,
            r.lifespan is None,
            r.liveliness == Liveliness::Automatic,
            r.liveliness_lease is None,
    {
        Profile { depth: 1000, ..Profile::new() }
    }

    /// The preset for parameter event streams: reliable, keeping everything.
    pub fn parameter_events() -> (r: Self)
        ensures
            r.reliability == Reliability::Reliable,
            r.history == History::KeepAll,
            r.depth == 1000usize,
            r.durability == Durability::Volatile,
            r.deadline is None,
            r.lifespan is None,
            r.liveliness == Liveliness::Automatic,
            r.liveliness_lease is None,
    {
        Profile { history: History::KeepAll, depth: 1000, ..Profile::new() }
    }

    /// The preset for service traffic.
    pub fn services_default() -> (r: Self)
        ensures
            r.is_spec_default(),
    {
        Profile::new()
    }

    /// The profile that stands for "whatever the system picks": the named
    /// defaults.
    pub fn system_default() -> (r: Self)
        ensures
            r.is_spec_default(),
    {
        Profile::new()
    }

    /// The named default of every option.
    pub fn new() -> (r: Self)
        ensures
            r.is_spec_default(),
    {
        Profile {
            reliability: Reliability::Reliable,
            durability: Durability::Volatile,
            history: History::KeepLast,
            depth: 10,
            deadline: None,
            lifespan: None,
            liveliness: Liveliness::Automatic,
            liveliness_lease: None,
        }
    }
}

impl Default for Profile {
    /// The named default of every option.
    fn default() -> (r: Self)
        ensures
            r.is_spec_default(),
    {
        Profile::new()
    }
}

} // verus!
