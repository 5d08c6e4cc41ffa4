//! Verified core of the uc-drive2 desktop drive backend.
pub mod download;
pub mod error;
pub mod mime;
pub mod models;
pub mod text;
pub mod gopeed;
pub mod tasks;
pub mod uc_refresh;
pub mod crypto;
pub mod uc;
pub mod files;
pub mod clock;
pub mod access_log;
pub mod config;
pub mod routes;
