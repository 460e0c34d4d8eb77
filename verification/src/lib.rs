//! Verified core of a LAN monitor for the Elegoo CC2 printer.
pub mod api;
pub mod detection;
pub mod error;
pub mod json;
pub mod notifications;
pub mod printer;
pub mod text;
