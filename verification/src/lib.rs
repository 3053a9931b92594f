//! Users, friendships, privacy settings and online status of the game
//! platform's user service, as a verified library.
pub mod http;
pub mod models;
pub mod text;
pub mod repository;
pub mod cache;
pub mod service;
pub mod controller;
pub mod schema;
