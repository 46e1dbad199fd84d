pub mod digest;
pub mod entries;
pub mod order;
pub mod id;
pub mod object;
