//! The records that the API returns, where they hold only plain values.
pub mod blueprint_course;
pub mod course;
pub mod enrollment;
pub mod permission;
pub mod user;
