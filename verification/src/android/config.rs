//! The shape of the module configuration that the plugin reads.

use crate::android::module::SigningBlock;
use crate::json::Json;
use vstd::prelude::*;

verus! {

/// Top-level module configuration.
pub struct AndroidPluginConfig {
    /// Project root directory; all relative block paths resolve against it.
    pub project_dir: String,
    /// The module's `android` block.
    pub android: AndroidBlock,
    /// SDK root supplied by the host; overridden by the block's `sdkDir`.
    pub android_sdk_dir: Option<String>,
    /// The module's `signing` block; without it APKs are unsigned.
    pub signing: Option<SigningBlock>,
    /// Blocks by build-type name; `debug` and `release` when absent.
    pub build_types: Option<Json>,
    /// Blocks by flavor name, plus an optional `dimension`.
    pub product_flavors: Option<Json>,
    /// Resolved dependency jars.
    pub classpath: Option<ClasspathBlock>,
}

/// Fields of the `android` block.
pub struct AndroidBlock {
    /// API level to compile against.
    pub compile_sdk: i64,
    /// Java package of the generated classes.
    pub namespace: String,
    /// Whether Jetpack Compose is enabled.
    pub compose: Option<bool>,
    /// Source file paths; at least one.
    pub sources: Vec<String>,
    /// Path to `AndroidManifest.xml`.
    pub manifest: String,
    /// Path to the resources directory.
    pub res_dir: String,
    /// SDK root of this module alone.
    pub sdk_dir: Option<String>,
    /// Lowest API level; flavors may override it.
    pub min_sdk: i64,
    /// Target API level; `compile_sdk` when absent.
    pub target_sdk: Option<i64>,
    /// Version code; 1 when absent.
    pub version_code: Option<i64>,
    /// Version name; empty when absent.
    pub version_name: Option<String>,
    /// Declared `BuildConfig` fields, flat and nested triples.
    pub build_config_field: Option<Vec<Json>>,
}

/// Resolved dependency jars by bucket.
pub struct ClasspathBlock {
    /// Compile-time jars, put behind the platform jar.
    pub compile: Option<Vec<String>>,
}

} // verus!
