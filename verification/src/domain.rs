pub mod load_balancer;
pub mod round_robin;

pub use load_balancer::LoadBalancer;
