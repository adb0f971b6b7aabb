//! Configuration-derivation core for a Spark cluster controller.
//!
//! Given a declarative cluster specification (roles, per-role replica-group
//! selectors, and free-form overrides), this library
//! - assigns each replica group a stable, content-derived identity,
//! - merges configuration values from precedence-ordered sources into the
//!   effective key/value sets the workload processes need, and
//! - derives the master discovery addresses that dependent roles use.
//!
//! Everything here is a pure function over in-memory values; the surrounding
//! control loop performs all I/O.

pub mod crd;
pub mod dict;
pub mod discovery;
pub mod identity;
pub mod merge;
pub mod numeral;
pub mod render;

pub use crd::ConfigOption;
pub use crd::CrdError;
pub use crd::SparkClusterSpec;
pub use crd::SparkClusterStatus;
pub use crd::SparkNode;
pub use crd::SparkNodeSelector;
pub use crd::SparkNodeType;
pub use crd::SparkVersion;
