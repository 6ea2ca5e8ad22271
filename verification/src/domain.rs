pub mod bookmark;
pub mod browser_event;
pub mod browser_state;
pub mod download;
pub mod event;
pub mod filter_list;
pub mod history;
pub mod tab;
