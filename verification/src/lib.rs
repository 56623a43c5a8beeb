//! An invoke API layer for SQLite and remote REST resources: serializers
//! that validate payloads and shape answers, list filters, resource
//! registration and dispatch planning, remote request building with token
//! authentication, and the generators behind the management commands.
pub mod api;
pub mod config;
pub mod error;
pub mod filters;
pub mod json;
pub mod management;
pub mod model;
pub mod module;
pub mod search;
pub mod serializer;
pub mod state;
pub mod text;
