//! What the configuration and the SDK say of an Android module.

use crate::android::build_config::{
    block_fields, field_models, parse_build_config_fields, BuildConfigField, FieldModel,
};
use crate::android::keys::{
    bool_value, flag, int_value, resolve_sdk_root, string_list, string_value,
};
use crate::blocks::{
    classpath_bucket, module_classpath, required_int, required_list, required_string,
};
use crate::json::{Json, JsonModel};
use crate::path::{all_joined, path_join, resolve_path, resolve_paths};
use crate::sdk::{
    android_jar, d8_jar_location, d8_jar_path, highest_build_tools, highest_release, platform_jar,
    sdk_root, SdkModel, SdkProbe,
};
use crate::sources::{checked_sources, reject_unknown_extensions};
use crate::text::{concat3, extend_texts, one_text, text_result, texts, texts_result};
use vstd::prelude::*;

verus! {

/// APK signing. All four fields are required when the block is present.
pub struct SigningBlock {
    /// Path to the keystore, resolved against the project directory when used.
    pub store_file: String,
    /// Keystore password, handed to `apksigner` through a file.
    pub store_password: String,
    /// Key alias within the keystore.
    pub key_alias: String,
    /// Key password, handed to `apksigner` through a file.
    pub key_password: String,
}

/// What the module's block declares.
pub struct DeclaredModule {
    pub compile_sdk: i64,
    pub namespace: String,
    pub compose: bool,
    pub sources: Vec<String>,
    pub manifest: String,
    pub res_dir: String,
    pub version_code: i64,
    pub version_name: String,
    pub fields: Vec<BuildConfigField>,
}

/// The parts of the SDK that a module is built with.
pub struct Toolchain {
    pub platform_jar: String,
    pub build_tools: String,
    pub d8_jar: String,
}

/// A module together with what it is built with.
pub struct AndroidModule {
    pub project_dir: String,
    pub declared: DeclaredModule,
    pub tools: Toolchain,
    /// The platform jar and the module's dependencies.
    pub classpath: Vec<String>,
}

/// The mathematical counterpart of [`SigningBlock`].
pub struct SigningModel {
    pub store_file: Seq<char>,
    pub store_password: Seq<char>,
    pub key_alias: Seq<char>,
    pub key_password: Seq<char>,
}

/// The mathematical counterpart of [`DeclaredModule`].
pub struct DeclaredModel {
    pub compile_sdk: i64,
    pub namespace: Seq<char>,
    pub compose: bool,
    pub sources: Seq<Seq<char>>,
    pub manifest: Seq<char>,
    pub res_dir: Seq<char>,
    pub version_code: i64,
    pub version_name: Seq<char>,
    pub fields: Seq<FieldModel>,
}

/// The mathematical counterpart of [`Toolchain`].
pub struct ToolchainModel {
    pub platform_jar: Seq<char>,
    pub build_tools: Seq<char>,
    pub d8_jar: Seq<char>,
}

/// The mathematical counterpart of [`AndroidModule`].
pub struct AndroidModel {
    pub project_dir: Seq<char>,
    pub declared: DeclaredModel,
    pub tools: ToolchainModel,
    pub classpath: Seq<Seq<char>>,
}

impl View for SigningBlock {
    type V = SigningModel;

    open spec fn view(&self) -> SigningModel {
        SigningModel {
            store_file: self.store_file@,
            store_password: self.store_password@,
            key_alias: self.key_alias@,
            key_password: self.key_password@,
        }
    }
}

impl View for DeclaredModule {
    type V = DeclaredModel;

    open spec fn view(&self) -> DeclaredModel {
        DeclaredModel {
            compile_sdk: self.compile_sdk,
            namespace: self.namespace@,
            compose: self.compose,
            sources: texts(self.sources@),
            manifest: self.manifest@,
            res_dir: self.res_dir@,
            version_code: self.version_code,
            version_name: self.version_name@,
            fields: field_models(self.fields@),
        }
    }
}

impl View for Toolchain {
    type V = ToolchainModel;

    open spec fn view(&self) -> ToolchainModel {
        ToolchainModel {
            platform_jar: self.platform_jar@,
            build_tools: self.build_tools@,
            d8_jar: self.d8_jar@,
        }
    }
}

impl View for AndroidModule {
    type V = AndroidModel;

    open spec fn view(&self) -> AndroidModel {
        AndroidModel {
            project_dir: self.project_dir@,
            declared: self.declared@,
            tools: self.tools@,
            classpath: texts(self.classpath@),
        }
    }
}

/// The sources the block declares, resolved; all must be understood by a
/// compiler.
pub open spec fn declared_sources(android: JsonModel, project_dir: Seq<char>) -> Result<
    Seq<Seq<char>>,
    Seq<char>,
> {
    match required_list(android, "android"@, "sources"@) {
        Err(e) => Err(e),
        Ok(list) => if list.len() == 0 {
            Err("the 'android' block declares no sources"@)
        } else {
            match checked_sources(all_joined(project_dir, list)) {
                Err(e) => Err(e),
                Ok(()) => Ok(all_joined(project_dir, list)),
            }
        },
    }
}

/// The version code, 1 where the block sets none.
pub open spec fn version_code(android: JsonModel) -> i64 {
    match android.i64_at("versionCode"@) {
        Some(n) => n,
        None => 1,
    }
}

/// The version name, empty where the block sets none.
pub open spec fn version_name(android: JsonModel) -> Seq<char> {
    match android.str_at("versionName"@) {
        Some(name) => name,
        None => seq![],
    }
}

/// What a module's block declares.
pub open spec fn declared_module(android: JsonModel, project_dir: Seq<char>) -> Result<
    DeclaredModel,
    Seq<char>,
> {
    match required_int(android, "android"@, "compileSdk"@) {
        Err(e) => Err(e),
        Ok(compile_sdk) => match required_string(android, "android"@, "namespace"@) {
            Err(e) => Err(e),
            Ok(namespace) => match flag(android, "compose"@) {
                Err(e) => Err(e),
                Ok(compose) => match declared_sources(android, project_dir) {
                    Err(e) => Err(e),
                    Ok(sources) => match required_string(android, "android"@, "manifest"@) {
                        Err(e) => Err(e),
                        Ok(manifest) => match required_string(android, "android"@, "resDir"@) {
                            Err(e) => Err(e),
                            Ok(res_dir) => Ok(
                                DeclaredModel {
                                    compile_sdk,
                                    namespace,
                                    compose,
                                    sources,
                                    manifest: path_join(project_dir, manifest),
                                    res_dir: path_join(project_dir, res_dir),
                                    version_code: version_code(android),
                                    version_name: version_name(android),
                                    fields: block_fields(android),
                                },
                            ),
                        },
                    },
                },
            },
        },
    }
}

/// The jar of `d8` is not where it belongs.
pub open spec fn no_d8_jar(build_tools: Seq<char>) -> Seq<char> {
    "no d8.jar under '"@ + build_tools + "'; expected it at '"@ + d8_jar_path(build_tools) + "'"@
}

/// The parts of an SDK that a module is built with.
pub open spec fn toolchain(sdk: Seq<char>, compile_sdk: i64, probe: SdkModel) -> Result<
    ToolchainModel,
    Seq<char>,
> {
    match platform_jar(sdk, compile_sdk, probe.platform_jar) {
        Err(e) => Err(e),
        Ok(platform_jar) => match highest_release(sdk, probe.build_tools) {
            Err(e) => Err(e),
            Ok(build_tools) => if !probe.d8_jar {
                Err(no_d8_jar(build_tools))
            } else {
                Ok(
                    ToolchainModel {
                        platform_jar,
                        build_tools,
                        d8_jar: d8_jar_path(build_tools),
                    },
                )
            },
        },
    }
}

/// A module and what it is built with. The block is checked before the SDK.
pub open spec fn android_module(
    config: JsonModel,
    android: JsonModel,
    project_dir: Seq<char>,
    probe: SdkModel,
) -> Result<AndroidModel, Seq<char>> {
    match declared_module(android, project_dir) {
        Err(e) => Err(e),
        Ok(declared) => match sdk_root(config, android.str_at("sdkDir"@), project_dir) {
            Err(e) => Err(e),
            Ok(sdk) => match toolchain(sdk, declared.compile_sdk, probe) {
                Err(e) => Err(e),
                Ok(tools) => Ok(
                    AndroidModel {
                        project_dir,
                        declared,
                        tools,
                        classpath: seq![tools.platform_jar] + module_classpath(
                            config,
                            "compile"@,
                        ),
                    },
                ),
            },
        },
    }
}

/// A key of the signing block is missing.
pub open spec fn missing_signing_key(key: Seq<char>) -> Seq<char> {
    "the 'signing' block is missing '"@ + key + "'"@
}

/// A required key of the signing block.
pub open spec fn signing_key(block: JsonModel, key: Seq<char>) -> Result<Seq<char>, Seq<char>> {
    match block.str_at(key) {
        Some(value) => Ok(value),
        None => Err(missing_signing_key(key)),
    }
}

/// The module's signing block, if it has one.
pub open spec fn module_signing(config: JsonModel) -> Result<Option<SigningModel>, Seq<char>> {
    match config.get("signing"@) {
        None => Ok(None),
        Some(block) => match signing_key(block, "storeFile"@) {
            Err(e) => Err(e),
            Ok(store_file) => match signing_key(block, "storePassword"@) {
                Err(e) => Err(e),
                Ok(store_password) => match signing_key(block, "keyAlias"@) {
                    Err(e) => Err(e),
                    Ok(key_alias) => match signing_key(block, "keyPassword"@) {
                        Err(e) => Err(e),
                        Ok(key_password) => Ok(
                            Some(
                                SigningModel { store_file, store_password, key_alias, key_password },
                            ),
                        ),
                    },
                },
            },
        },
    }
}

/// Reads the sources of the module.
fn read_sources(android: &Json, project_dir: &str) -> (r: Result<Vec<String>, String>)
    ensures
        texts_result(r) == declared_sources(android@, project_dir@),
{
    let list = match string_list(android, "sources") {
        Ok(list) => list,
        Err(e) => return Err(e),
    };
    if list.len() == 0 {
        return Err("the 'android' block declares no sources".to_owned());
    }
    let sources = resolve_paths(project_dir, &list);
    match reject_unknown_extensions(&sources) {
        Ok(()) => Ok(sources),
        Err(e) => Err(e),
    }
}

/// Reads what the module's block declares.
fn read_declared(android: &Json, project_dir: &str) -> (r: Result<DeclaredModule, String>)
    ensures
        match r {
            Ok(declared) => declared_module(android@, project_dir@) == Ok::<_, Seq<char>>(
                declared@,
            ),
            Err(e) => declared_module(android@, project_dir@) == Err::<DeclaredModel, _>(e@),
        },
{
    let compile_sdk: i64 = match int_value(android, "compileSdk") {
        Ok(n) => n,
        Err(e) => return Err(e),
    };
    let namespace = match string_value(android, "namespace") {
        Ok(s) => s,
        Err(e) => return Err(e),
    };
    let compose = match bool_value(android, "compose") {
        Ok(b) => b,
        Err(e) => return Err(e),
    };
    let sources = match read_sources(android, project_dir) {
        Ok(sources) => sources,
        Err(e) => return Err(e),
    };
    let manifest = match string_value(android, "manifest") {
        Ok(s) => s,
        Err(e) => return Err(e),
    };
    let res_dir = match string_value(android, "resDir") {
        Ok(s) => s,
        Err(e) => return Err(e),
    };
    let version_code: i64 = match android.i64_at("versionCode") {
        Some(n) => n,
        None => 1,
    };
    let version_name = match android.str_at("versionName") {
        Some(name) => name.to_owned(),
        None => String::new(),
    };
    Ok(
        DeclaredModule {
            compile_sdk,
            namespace,
            compose,
            sources,
            manifest: resolve_path(project_dir, manifest.as_str()),
            res_dir: resolve_path(project_dir, res_dir.as_str()),
            version_code,
            version_name,
            fields: parse_build_config_fields(android),
        },
    )
}

/// The jar of `d8` is not where it belongs.
fn no_d8_jar_message(build_tools: &str, d8_jar: &str) -> (r: String)
    requires
        d8_jar@ == d8_jar_path(build_tools@),
    ensures
        r@ == no_d8_jar(build_tools@),
{
    let mut message = "no d8.jar under '".to_owned();
    message.append(build_tools);
    message.append("'; expected it at '");
    message.append(d8_jar);
    message.append("'");
    message
}

/// Finds the parts of the SDK that a module is built with.
fn find_toolchain(sdk: &str, compile_sdk: i64, probe: &SdkProbe) -> (r: Result<Toolchain, String>)
    ensures
        match r {
            Ok(tools) => toolchain(sdk@, compile_sdk, probe@) == Ok::<_, Seq<char>>(tools@),
            Err(e) => toolchain(sdk@, compile_sdk, probe@) == Err::<ToolchainModel, _>(e@),
        },
{
    let platform_jar = match android_jar(sdk, compile_sdk, probe.platform_jar) {
        Ok(jar) => jar,
        Err(e) => return Err(e),
    };
    let build_tools = match highest_build_tools(sdk, &probe.build_tools) {
        Ok(dir) => dir,
        Err(e) => return Err(e),
    };
    let d8_jar = d8_jar_location(build_tools.as_str());
    if !probe.d8_jar {
        return Err(no_d8_jar_message(build_tools.as_str(), d8_jar.as_str()));
    }
    Ok(Toolchain { platform_jar, build_tools, d8_jar })
}

/// Reads a module and finds what it is built with.
pub fn read_module(config: &Json, android: &Json, project_dir: &str, probe: &SdkProbe) -> (r: Result<
    AndroidModule,
    String,
>)
    ensures
        match r {
            Ok(module) => android_module(config@, android@, project_dir@, probe@) == Ok::<
                _,
                Seq<char>,
            >(module@),
            Err(e) => android_module(config@, android@, project_dir@, probe@) == Err::<
                AndroidModel,
                _,
            >(e@),
        },
{
    let declared = match read_declared(android, project_dir) {
        Ok(declared) => declared,
        Err(e) => return Err(e),
    };
    let sdk = match resolve_sdk_root(config, android, project_dir) {
        Ok(sdk) => sdk,
        Err(e) => return Err(e),
    };
    let tools = match find_toolchain(sdk.as_str(), declared.compile_sdk, probe) {
        Ok(tools) => tools,
        Err(e) => return Err(e),
    };
    let mut classpath = one_text(tools.platform_jar.as_str());
    extend_texts(&mut classpath, &classpath_bucket(config, "compile"));
    Ok(AndroidModule { project_dir: project_dir.to_owned(), declared, tools, classpath })
}

/// Reads a required key of the signing block.
pub fn read_signing_key(block: &Json, key: &str) -> (r: Result<String, String>)
    ensures
        text_result(r) == signing_key(block@, key@),
{
    match block.str_at(key) {
        Some(value) => Ok(value.to_owned()),
        None => Err(concat3("the 'signing' block is missing '", key, "'")),
    }
}

/// Reads the module's signing block, if it has one.
pub fn read_signing(config: &Json) -> (r: Result<Option<SigningBlock>, String>)
    ensures
        match r {
            Ok(Some(block)) => module_signing(config@) == Ok::<_, Seq<char>>(Some(block@)),
            Ok(None) => module_signing(config@) == Ok::<Option<SigningModel>, Seq<char>>(None),
            Err(e) => module_signing(config@) == Err::<Option<SigningModel>, _>(e@),
        },
{
    let block = match config.get("signing") {
        Some(block) => block,
        None => return Ok(None),
    };
    let store_file = match read_signing_key(block, "storeFile") {
        Ok(value) => value,
        Err(e) => return Err(e),
    };
    let store_password = match read_signing_key(block, "storePassword") {
        Ok(value) => value,
        Err(e) => return Err(e),
    };
    let key_alias = match read_signing_key(block, "keyAlias") {
        Ok(value) => value,
        Err(e) => return Err(e),
    };
    let key_password = match read_signing_key(block, "keyPassword") {
        Ok(value) => value,
        Err(e) => return Err(e),
    };
    Ok(Some(SigningBlock { store_file, store_password, key_alias, key_password }))
}

} // verus!
