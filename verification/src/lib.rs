//! A value-generation and shrinking engine for property-based testing.
//!
//! Every supported type carries an [`Arbitrary`] capability: it can produce a
//! pseudo-random instance whose magnitude or length is bounded by the size
//! parameter of a [`Gen`] source, and, for an existing value, a finite,
//! deterministic sequence of simpler candidate values that a search driver
//! can walk toward a minimal counterexample. The contracts state the exact
//! candidate sequence of every rule at the model level, that every candidate
//! is again a valid value of its type, and that generated values respect the
//! size bound.

pub mod arbitrary;
pub mod assoc;
pub mod composite;
pub mod laws;
pub mod numbers;
pub mod sequence;
pub mod source;
pub mod text;

pub use arbitrary::Arbitrary;
pub use arbitrary::empty_shrinker;
pub use arbitrary::models_of;
pub use arbitrary::single_shrinker;
pub use assoc::AssocMap;
pub use source::Gen;
pub use source::StdGen;
