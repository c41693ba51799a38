pub mod api;
pub mod auth;
pub mod claims;
pub(crate) mod clock;
pub mod codec;
pub mod credentials;
pub mod db;
pub mod env;
pub mod error;
pub mod logging;
pub mod mac;
pub mod pool;
pub mod settings;
