//! Magpie: the decision and text logic of a chat bot that drives torrent clients.
pub mod text;
pub mod utils;
pub mod i18n;
pub mod config;
pub mod redis_client;
pub mod server;
pub mod torrent_client;
pub mod mock_client;
pub mod tasks;
pub mod bot;
pub mod messages;
pub mod views;
pub mod keyboards;
pub mod db;
pub mod links;
pub mod pages;
pub mod clients;
pub mod laws;
