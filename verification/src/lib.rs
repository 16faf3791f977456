//! Turns the reply of a compilation backend into a page that a browser can
//! load as it stands.

pub mod assembler;
pub mod config;
pub mod job;
pub mod relay;
pub mod response;
pub mod template;
pub mod text;
