pub mod browser_controller;
pub mod browser_state;
pub mod event_dispatcher;
pub mod navigation_controller;
pub mod tab_manager;
