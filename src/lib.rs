//! The core of an HTTP action server: route resolution, the decisions of the
//! worker pool, and the native capabilities that action scripts call.

pub mod auth;
pub mod db;
pub mod fetch;
pub mod files;
pub mod json;
pub mod natives;
pub mod pool;
pub mod registry;
pub mod request;
pub mod routing;
pub mod shared;
pub mod text;
