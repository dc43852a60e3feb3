//! The `ulite/android` plugin: compiles a module's Java and Kotlin sources
//! against the Android platform jar, merges its resources, dexes its classes
//! and assembles one APK per variant.

pub mod acceptance;
pub mod build_config;
pub mod commands;
pub mod config;
pub mod described;
pub mod inputs;
pub mod invocations;
pub mod keys;
pub mod laws;
pub mod module;
pub mod names;
pub mod plan;
pub mod variants;
