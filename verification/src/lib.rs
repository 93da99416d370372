//! A small build tool for C and C++ projects: the manifest model, the
//! compiler command lines, the source and dependency-file handling, and the
//! decisions of an incremental build.

pub mod text;
pub mod paths;
pub mod manifest;
pub mod file;
pub mod config;
pub mod command;
pub mod context;
pub mod commands;
