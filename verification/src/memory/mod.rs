pub mod monitor;
pub mod optimizer;
