pub mod path;
pub mod root;
pub mod blobs;
pub mod binding;
