//! Schema-driven synthesis of test datasets and a storage capability probe.

pub mod bundle;
pub mod dataset;
pub mod faker;
pub mod plan;
pub mod preview;
pub mod probe;
pub mod random;
pub mod schema;
pub mod storage;
pub mod synth;
pub mod text;
