//! The `ulite/kmp` plugin: compiles the shared and platform source sets of a
//! Kotlin multiplatform module.

pub mod acceptance;
pub mod classpath;
pub mod commands;
pub mod laws;
pub mod plan;
pub mod source_sets;
pub mod variants;
