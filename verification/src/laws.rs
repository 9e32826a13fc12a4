//! What holds of the library as a whole. Each law is a proof function: its
//! parameters are what the law speaks of, and its `ensures` states it.

pub mod boot;
pub mod bundles;
pub mod changes;
pub mod endpoints;
pub mod errors;
pub mod launch;
pub mod refresh;
pub mod sets;
pub mod steps;
pub mod texts;
pub mod times;
pub mod tls;
