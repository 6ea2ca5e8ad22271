pub mod browser;
pub mod clock;
pub mod domain;
pub mod error;
pub mod ffi;
pub mod ids;
pub mod text;
