//! The decisions behind the parts that talk to Windows.
pub mod clipboard;
pub mod dpapi;
pub mod ipc;
pub mod notification;
pub mod shell;
