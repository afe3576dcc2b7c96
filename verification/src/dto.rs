//! The records that cross the service surface: plain data, with
//! serialization handled by the hosting layer at the boundary.

pub mod annotation;
pub mod auth;
pub mod bookmark;
pub mod reading_progress;
pub mod search;
pub mod user;
