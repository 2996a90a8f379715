//! A supervised CGI gateway: token authentication, the CGI/1.1 bridge to a
//! backend web frontend, and the state machine that runs the backend engine.

pub mod asset;
pub mod auth;
pub mod cgi_env;
pub mod cgi_output;
pub mod config;
pub mod env_map;
pub mod gateway;
pub mod murmur;
pub mod secret;
pub mod shutdown;
pub mod supervisor;
pub mod text;
pub mod token;
