//! What the endpoints decide.
pub mod api_token;
pub mod auth_config;
pub mod guards;
pub mod itm;
pub mod list_filter;
pub mod login;
pub mod oauth;
pub mod openapi;
pub mod secret;
pub mod signin;
pub mod system;
pub mod user_control;
