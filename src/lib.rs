pub mod application;
pub mod base_object;
