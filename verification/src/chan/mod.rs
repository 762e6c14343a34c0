pub mod chan_service;
pub mod model_actions;
pub mod models;
