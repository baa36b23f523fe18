//! Routes and hooks that plugins add.
pub mod route;
pub mod route_call;
pub mod route_call_actor;
pub mod web_response;
