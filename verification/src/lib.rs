//! Core of a screen-pinning daemon and of the client that drives it.

pub mod app;
pub mod blocks;
pub mod capture;
pub mod cli;
pub mod clipboard;
pub mod codec;
pub mod config;
pub mod framing;
pub mod handlers;
pub mod image_ops;
pub mod ipc;
pub mod notify;
pub mod order;
pub mod paths;
pub mod pin_id;
pub mod pixels;
pub mod process;
pub mod region_select;
pub mod registry;
pub mod rounding;
pub mod save;
pub mod server;
pub mod text;
pub mod thumbnail;
