pub mod database;
pub mod handlers;
