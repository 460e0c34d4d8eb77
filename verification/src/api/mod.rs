pub mod logs;
pub mod notifications;
pub mod obico;
pub mod detection;
