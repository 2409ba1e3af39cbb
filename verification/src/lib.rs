//! Verified core of the KeSp keyboard configurator.
pub mod advanced;
pub mod bootloader;
pub mod bytes;
pub mod config;
pub mod context;
pub mod editor;
pub mod entries;
pub mod firmware;
pub mod flash_seq;
pub mod key_selector;
pub mod keys;
pub mod macros;
pub mod md5;
pub mod models;
pub mod ota;
pub mod query;
pub mod slip;
pub mod stats;
pub mod text;
pub mod tools;
