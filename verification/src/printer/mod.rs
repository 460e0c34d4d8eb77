pub mod client_raw;
pub mod event_log;
pub mod state;
