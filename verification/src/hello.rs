//! The `ulite/hello` plugin: the smallest plugin there can be. It has no build
//! tasks, declares no tools, and accepts any well-formed configuration.

use crate::json::{Json, JsonModel};
use crate::parse::{json_of_text, json_result, parse_json};
use crate::task::{ManifestModel, PluginManifest};
use crate::text::{concat, no_texts, plain_result};
use vstd::prelude::*;

verus! {

/// The plugin's configuration, which is empty.
pub struct PluginConfig;

/// How the plugin introduces itself.
pub open spec fn hello_manifest(version: Seq<char>, abi_version: Seq<char>) -> ManifestModel {
    ManifestModel {
        name: "ulite/hello"@,
        version,
        abi_version,
        tools: seq![],
        dependencies: seq![],
    }
}

/// A configuration is accepted unless it is no JSON.
pub open spec fn accepted(parsed: Result<JsonModel, Seq<char>>) -> Result<
    (),
    Seq<char>,
> {
    match parsed {
        Err(e) => Err("invalid module config JSON: "@ + e),
        Ok(_) => Ok(()),
    }
}

/// Whatever a configuration holds it is accepted; only a text that is no JSON is
/// refused, with the reader's message.
pub proof fn law_any_configuration_is_accepted(parsed: Result<JsonModel, Seq<char>>)
    ensures
        match parsed {
            Ok(_) => accepted(parsed) is Ok,
            Err(e) => accepted(parsed) == Err::<(), _>("invalid module config JSON: "@ + e),
        },
{
}

/// Accepts a configuration unless reading it failed.
pub fn accept(parsed: Result<Json, String>) -> (r: Result<(), String>)
    ensures
        plain_result(r) == accepted(json_result(parsed)),
{
    match parsed {
        Err(e) => Err(concat("invalid module config JSON: ", e.as_str())),
        Ok(_) => Ok(()),
    }
}

/// The `ulite/hello` plugin.
pub struct HelloPlugin;

impl HelloPlugin {
    /// Introduces the plugin. It registers no tasks, so it declares no tools.
    pub fn manifest(version: &str, abi_version: &str) -> (r: PluginManifest)
        ensures
            r@ == hello_manifest(version@, abi_version@),
    {
        PluginManifest {
            name: "ulite/hello".to_owned(),
            version: version.to_owned(),
            abi_version: abi_version.to_owned(),
            tools: no_texts(),
            dependencies: no_texts(),
        }
    }

    /// Accepts any well-formed configuration.
    pub fn configure(module_config: &str) -> (r: Result<(), String>)
        ensures
            plain_result(r) == accepted(json_of_text(module_config@)),
    {
        accept(parse_json(module_config))
    }

    /// Echoes its input.
    pub fn run(input: String) -> (r: String)
        ensures
            r@ == "hello-plugin says: "@ + input@,
    {
        concat("hello-plugin says: ", input.as_str())
    }
}

} // verus!
