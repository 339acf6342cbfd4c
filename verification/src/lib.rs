//! Named cloud-access profiles kept in two INI stores, and the protocol that
//! makes one of them the active context in both.

pub mod aws;
pub mod config;
pub mod configs;
pub mod creds;
pub mod ctx;
pub mod ini;
pub mod laws;
pub mod store;
pub mod table;
pub mod text;
