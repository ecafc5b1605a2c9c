pub mod api;
pub mod api_laws;
pub mod app;
pub mod branding;
pub mod config;
pub mod config_laws;
pub mod hotkey_laws;
pub mod json;
pub mod json_laws;
pub mod logging;
pub mod model;
pub mod model_laws;
pub mod number;
pub mod number_laws;
pub mod packaging;
pub mod packaging_laws;
pub mod queue;
pub mod queue_laws;
pub mod response_laws;
pub mod text;
pub mod text_laws;
pub mod usage;
pub mod usage_laws;
pub mod windows;
