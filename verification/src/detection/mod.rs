pub mod obico;
