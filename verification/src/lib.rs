//! Core of a collaborative-document server: the session registry and
//! broadcast relay that admit editors into per-document sessions and fan
//! out their update messages, together with the request validation,
//! access decisions, credential handling and compiler-log parsing that
//! the surrounding request handlers lean on.

pub mod access;
pub mod auth;
pub mod compile;
pub mod compiler;
pub mod comments;
pub mod config;
pub mod conn;
pub mod error;
pub mod files;
pub mod models;
pub mod projects;
pub mod storage;
pub mod hub;
pub mod registry;
pub mod session;
pub mod text;
