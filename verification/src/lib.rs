pub mod access;
pub mod client;
pub mod models;
pub mod passwords;
pub mod repository;
pub mod service;
pub mod session;
pub mod token;
pub mod transfer;
pub mod text;
