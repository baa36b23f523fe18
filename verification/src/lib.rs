//! Request rules, stores and documents of the Isabelle core server.
pub mod args;
pub mod collections;
pub mod handler;
pub mod item;
pub mod json;
pub mod notif;
pub mod origin;
pub mod plugin_actor_demo;
pub mod server;
pub mod startup;
pub mod state;
pub mod text;
pub mod util;
