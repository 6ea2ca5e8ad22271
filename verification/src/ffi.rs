pub mod engine_api;
pub mod native_control;
pub mod native_event;
