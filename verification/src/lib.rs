//! Round-robin load balancing over a fixed pool of backends whose health is
//! tracked by periodic probes.

pub mod backend;
pub mod balancer;
pub mod error;
pub mod fairness;
pub mod handler;
pub mod health;
pub mod pool;
pub mod selector;
