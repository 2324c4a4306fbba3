pub mod capsule;
pub mod store;
pub mod laws;
