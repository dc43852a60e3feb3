//! Build logic for JVM, Android and Kotlin multiplatform modules.

pub mod android;
pub mod blocks;
pub mod hello;
pub mod invocations;
pub mod json;
pub mod jvm;
pub mod jvm_acceptance;
pub mod jvm_commands;
pub mod jvm_laws;
pub mod jvm_tasks;
pub mod kmp;
pub mod letter_case;
pub mod meaning;
pub mod number;
pub mod parse;
pub mod path;
pub mod sdk;
pub mod sources;
pub mod task;
pub mod text;
pub mod variants;
