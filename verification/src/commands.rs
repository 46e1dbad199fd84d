pub mod graft;
pub mod namespace;
pub mod remember;
pub mod resurrect;
pub mod ungraft;
