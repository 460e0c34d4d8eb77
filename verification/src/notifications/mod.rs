pub mod discord;
pub mod payload;
