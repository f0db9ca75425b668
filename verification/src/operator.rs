pub mod finalizer;
pub mod meta;
pub mod status;
pub mod types;
pub mod controller;
pub mod workload;
pub mod reconcile;
