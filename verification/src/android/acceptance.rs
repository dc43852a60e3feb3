//! Which modules the `ulite/android` plugin accepts.

use crate::android::commands::{
    described_sdk, is_nowhere, is_plugin, is_signing_block,
    law_module_is_what_the_configuration_says, lemma_first_is_first,
};
use crate::android::described::{
    law_flavors_are_those_declared, law_sources_of_a_variant, law_variants_of_build_types,
    law_variants_of_build_types_and_flavors,
};
use crate::android::module::{
    android_module, declared_module, declared_sources, module_signing, AndroidModel, SigningModel,
};
use crate::android::plan::{
    android_plan, compose_plugin, parsed_plan, shared_tasks, variant_paths, variant_plan,
    variant_plans,
};
use crate::android::variants::{
    checked_dimensions, flavor_of, matrix_cells, merged_sources, module_flavors, module_variants,
    parsed_flavors, FlavorModels, VariantModel,
};
use crate::json::{ascending, lookup, JsonModel};
use crate::jvm_acceptance::lemma_sources_pass_when_they_are_sources;
use crate::jvm_commands::lemma_required_list_is_listed;
use crate::meaning::{are_sources, at, flavor_blocks, is_string_list, listing, type_names};
use crate::path::{
    all_joined, fixed_front, last_component, lemma_component_starts_early,
    lemma_component_within_path, parent, path_join, trimmed,
};
use crate::sdk::{d8_jar_path, highest_release, platform_jar_path, sdk_of, SdkModel};
use crate::sources::is_compose_compiler;
use crate::text::{distinct, ends_with, law_distinct_keeps_each_text_once};
use crate::variants::{declared_dimension, flavor_dimension, law_table_size, variant_build};
use vstd::prelude::*;

verus! {

/// The block describes a module that the SDK can build: levels, names, sources
/// of which all are Java or Kotlin, and a platform, a build-tools release and
/// its `d8` to build them with.
pub open spec fn is_buildable(
    config: JsonModel,
    android: JsonModel,
    project_dir: Seq<char>,
    probe: SdkModel,
) -> bool {
    let sources = all_joined(project_dir, listing(android.get("sources"@)));
    &&& android.i64_at("compileSdk"@) is Some
    &&& android.str_at("namespace"@) is Some
    &&& android.get("compose"@) matches Some(value) ==> value.as_bool() is Some
    &&& is_string_list(android.get("sources"@))
    &&& sources.len() > 0
    &&& are_sources(sources)
    &&& android.str_at("manifest"@) is Some
    &&& android.str_at("resDir"@) is Some
    &&& android.str_at("sdkDir"@) is Some || config.str_at("androidSdkDir"@) is Some
    &&& probe.platform_jar
    &&& highest_release(described_sdk(config, android, project_dir), probe.build_tools) is Ok
    &&& probe.d8_jar
}

/// The block describes a flavor: it has a dimension, its own or the common one,
/// that is not empty; its level is an integer and its sources are strings where
/// it sets them.
pub open spec fn is_flavor_block(block: JsonModel, common: Option<JsonModel>) -> bool {
    &&& block.as_object() is Some
    &&& match block.str_at("dimension"@) {
        Some(dimension) => dimension.len() > 0,
        None => common matches Some(value) && value.as_str() matches Some(dimension)
            && dimension.len() > 0,
    }
    &&& block.get("minSdk"@) matches Some(value) ==> value.as_i64() is Some
    &&& block.get("sources"@) is Some ==> is_string_list(block.get("sources"@))
}

/// The configuration describes variants: levels, build types and flavors.
pub open spec fn has_variants(config: JsonModel, android: JsonModel) -> bool {
    &&& android.i64_at("minSdk"@) is Some
    &&& android.i64_at("compileSdk"@) is Some
    &&& android.get("targetSdk"@) matches Some(value) ==> value.as_i64() is Some
    &&& config.get("buildTypes"@) matches Some(block) ==> block.as_object() is Some
    &&& config.get("productFlavors"@) matches Some(block) ==> block.as_object() is Some
    &&& forall|j: int|
        0 <= j < flavor_blocks(config).len() ==> is_flavor_block(
            (#[trigger] flavor_blocks(config)[j]).1,
            at(config.get("productFlavors"@), "dimension"@),
        )
}

/// The configuration describes no signing, or all that signing needs.
pub open spec fn is_signable(config: JsonModel) -> bool {
    config.get("signing"@) matches Some(block) ==> {
        &&& block.str_at("storeFile"@) is Some
        &&& block.str_at("storePassword"@) is Some
        &&& block.str_at("keyAlias"@) is Some
        &&& block.str_at("keyPassword"@) is Some
    }
}

/// Every flavor's own sources are Java or Kotlin.
pub open spec fn are_flavors_buildable(config: JsonModel, project_dir: Seq<char>) -> bool {
    forall|j: int|
        0 <= j < flavor_blocks(config).len() ==> are_sources(
            all_joined(
                project_dir,
                listing((#[trigger] flavor_blocks(config)[j]).1.get("sources"@)),
            ),
        )
}

/// The Compose compiler plugin is on the classpath where Compose is on.
pub open spec fn has_compiler_plugin(module: AndroidModel) -> bool {
    module.declared.compose ==> !is_nowhere(module.classpath, |jar: Seq<char>| is_plugin(jar))
}

/// A signing block is read exactly where it has all its keys, and it is what the
/// configuration says.
pub proof fn law_signing_is_what_the_configuration_says(config: JsonModel)
    ensures
        module_signing(config) is Ok <==> is_signable(config),
        module_signing(config) matches Ok(signing) ==> match signing {
            Some(block) => is_signing_block(block, config),
            None => config.get("signing"@) is None,
        },
{
}

/// A module is read exactly where its block and its SDK allow to build it.
pub proof fn law_module_is_read_where_it_is_buildable(
    config: JsonModel,
    android: JsonModel,
    project_dir: Seq<char>,
    probe: SdkModel,
)
    ensures
        android_module(config, android, project_dir, probe) is Ok <==> is_buildable(
            config,
            android,
            project_dir,
            probe,
        ),
{
    let sources = all_joined(project_dir, listing(android.get("sources"@)));
    lemma_required_list_is_listed(android, "android"@, "sources"@);
    lemma_sources_pass_when_they_are_sources(sources);
    assert(declared_sources(android, project_dir) is Ok <==> is_string_list(
        android.get("sources"@),
    ) && sources.len() > 0 && are_sources(sources));
    assert(declared_module(android, project_dir) is Ok <==> {
        &&& android.i64_at("compileSdk"@) is Some
        &&& android.str_at("namespace"@) is Some
        &&& android.get("compose"@) matches Some(value) ==> value.as_bool() is Some
        &&& declared_sources(android, project_dir) is Ok
        &&& android.str_at("manifest"@) is Some
        &&& android.str_at("resDir"@) is Some
    });
}

/// Flavors are read exactly where each can be read.
proof fn lemma_flavors_are_read_where_each_is(
    entries: Seq<(Seq<char>, JsonModel)>,
    declared: Option<Seq<char>>,
)
    ensures
        ({
            let blocks = entries.filter(
                |entry: (Seq<char>, JsonModel)| entry.0 != "dimension"@,
            );
            &&& parsed_flavors(entries, declared) is Ok <==> forall|j: int|
                0 <= j < blocks.len() ==> flavor_of(
                    (#[trigger] blocks[j]).0,
                    blocks[j].1,
                    declared,
                ) is Ok
            &&& parsed_flavors(entries, declared) matches Ok(flavors) ==> flavors.len()
                == blocks.len() && forall|j: int|
                0 <= j < blocks.len() ==> flavor_dimension(
                    (#[trigger] blocks[j]).0,
                    blocks[j].1,
                    declared,
                ) == Ok::<_, Seq<char>>(flavors[j].1.dimension)
        }),
    decreases entries.len(),
{
    reveal(Seq::filter);
    if entries.len() > 0 {
        let keep = |entry: (Seq<char>, JsonModel)| entry.0 != "dimension"@;
        let front = entries.drop_last();
        let earlier = front.filter(keep);
        let blocks = entries.filter(keep);
        lemma_flavors_are_read_where_each_is(front, declared);
        let (name, block) = entries.last();
        if name != "dimension"@ {
            assert(blocks == earlier.push((name, block)));
            assert(blocks[earlier.len() as int] == (name, block));
            assert forall|j: int| 0 <= j < earlier.len() implies #[trigger] blocks[j]
                == earlier[j] by {}
            if parsed_flavors(entries, declared) is Ok {
                assert forall|j: int| 0 <= j < blocks.len() implies flavor_of(
                    (#[trigger] blocks[j]).0,
                    blocks[j].1,
                    declared,
                ) is Ok by {
                    if j < earlier.len() {
                        assert(blocks[j] == earlier[j]);
                    }
                }
            } else if parsed_flavors(front, declared) is Err {
                let j = choose|j: int|
                    0 <= j < earlier.len() && flavor_of(
                        (#[trigger] earlier[j]).0,
                        earlier[j].1,
                        declared,
                    ) is Err;
                assert(blocks[j] == earlier[j]);
            }
        } else {
            assert(blocks == earlier);
        }
    }
}

/// Dimensions pass exactly where none is empty.
proof fn lemma_dimensions_pass_where_none_is_empty(flavors: FlavorModels)
    ensures
        checked_dimensions(flavors) is Ok <==> forall|j: int|
            0 <= j < flavors.len() ==> (#[trigger] flavors[j]).1.dimension.len() > 0,
    decreases flavors.len(),
{
    if flavors.len() > 0 {
        let rest = flavors.drop_first();
        lemma_dimensions_pass_where_none_is_empty(rest);
        if checked_dimensions(flavors) is Ok {
            assert forall|j: int| 0 <= j < flavors.len() implies (
            #[trigger] flavors[j]).1.dimension.len() > 0 by {
                if j > 0 {
                    assert(rest[j - 1] == flavors[j]);
                }
            }
        } else if flavors[0].1.dimension.len() > 0 {
            let j = choose|j: int|
                0 <= j < rest.len() && (#[trigger] rest[j]).1.dimension.len() == 0;
            assert(flavors[j + 1] == rest[j]);
        }
    }
}

/// The variants of a module are computed exactly where the configuration
/// describes them.
pub proof fn law_variants_are_computed_where_they_are_described(
    config: JsonModel,
    android: JsonModel,
)
    requires
        config.get("android"@) == Some(android),
    ensures
        module_variants(config) is Ok <==> has_variants(config, android),
{
    let common = at(config.get("productFlavors"@), "dimension"@);
    if let Some(block) = config.get("productFlavors"@) {
        if let Some(entries) = block.as_object() {
            let declared = declared_dimension(entries);
            let blocks = flavor_blocks(config);
            assert(common == lookup(entries, "dimension"@));
            lemma_flavors_are_read_where_each_is(entries, declared);
            if let Ok(flavors) = parsed_flavors(entries, declared) {
                lemma_dimensions_pass_where_none_is_empty(flavors);
                if checked_dimensions(flavors) is Ok {
                    assert forall|j: int| 0 <= j < blocks.len() implies is_flavor_block(
                        (#[trigger] blocks[j]).1,
                        common,
                    ) by {
                        assert(flavor_of(blocks[j].0, blocks[j].1, declared) is Ok);
                        assert(flavors[j].1.dimension.len() > 0);
                    }
                } else {
                    let j = choose|j: int|
                        0 <= j < flavors.len() && (#[trigger] flavors[j]).1.dimension.len() == 0;
                    assert(!is_flavor_block(blocks[j].1, common));
                }
            } else {
                let j = choose|j: int|
                    0 <= j < blocks.len() && flavor_of(
                        (#[trigger] blocks[j]).0,
                        blocks[j].1,
                        declared,
                    ) is Err;
                assert(!is_flavor_block(blocks[j].1, common));
            }
        }
    }
}

/// A path that ends in more than a dot lies in a directory.
proof fn lemma_named_path_lies_in_a_directory(path: Seq<char>, n: nat)
    requires
        2 <= n,
        n < path.len(),
        forall|i: int| path.len() - n <= i < path.len() ==> #[trigger] path[i] != '/',
    ensures
        parent(path) is Some,
{
    let front = fixed_front(path);
    lemma_component_within_path(path, front);
    lemma_component_starts_early(path, front, n);
    assert(path.skip(last_component(path, front) as int).len() >= n);
    assert(trimmed(path, front) == path);
}

/// The characters behind a front are those of the suffix.
proof fn lemma_suffix_holds_no_slash(front: Seq<char>)
    ensures
        (front + ".apk"@).len() == front.len() + 4,
        forall|i: int|
            front.len() <= i < front.len() + 4 ==> #[trigger] (front + ".apk"@)[i] != '/',
{
    reveal_strlit(".apk");
    assert(".apk"@.len() == 4);
}

/// An APK below a directory lies in a directory.
proof fn lemma_apk_lies_in_a_directory(base: Seq<char>, front: Seq<char>)
    requires
        front.len() > 0,
    ensures
        parent(path_join(base, front + ".apk"@)) is Some,
{
    let name = front + ".apk"@;
    let path = path_join(base, name);
    lemma_suffix_holds_no_slash(front);
    assert(name.subrange(0, name.len() as int) =~= name);
    lemma_joined_path_ends_as_its_part(base, name, name);
    let at = path.len() - name.len();
    assert forall|i: int| path.len() - 4 <= i < path.len() implies #[trigger] path[i] != '/' by {
        assert(path[i] == path.subrange(at, path.len() as int)[i - at]);
        assert(path[i] == name[i - at]);
    }
    lemma_named_path_lies_in_a_directory(path, 4);
}

/// Plans of variants succeed exactly where each does.
proof fn lemma_plans_succeed_where_each_does(
    module: AndroidModel,
    flavors: FlavorModels,
    signing: Option<SigningModel>,
    variants: Seq<VariantModel>,
)
    ensures
        variant_plans(module, flavors, signing, variants).outcome is Ok <==> forall|k: int|
            0 <= k < variants.len() ==> variant_plan(
                module,
                flavors,
                signing,
                #[trigger] variants[k],
            ).outcome is Ok,
    decreases variants.len(),
{
    if variants.len() > 0 {
        let rest = variants.drop_first();
        lemma_plans_succeed_where_each_does(module, flavors, signing, rest);
        let first = variant_plan(module, flavors, signing, variants[0]);
        if variant_plans(module, flavors, signing, variants).outcome is Ok {
            assert forall|k: int| 0 <= k < variants.len() implies variant_plan(
                module,
                flavors,
                signing,
                #[trigger] variants[k],
            ).outcome is Ok by {
                if k > 0 {
                    assert(rest[k - 1] == variants[k]);
                }
            }
        } else if first.outcome is Ok {
            let k = choose|k: int|
                0 <= k < rest.len() && variant_plan(
                    module,
                    flavors,
                    signing,
                    #[trigger] rest[k],
                ).outcome is Err;
            assert(variants[k + 1] == rest[k]);
        }
    }
}

/// Two lists of sources pass together exactly where each passes, each source
/// resolved and once.
proof fn lemma_merged_sources_pass(
    project_dir: Seq<char>,
    base: Seq<Seq<char>>,
    own: Seq<Seq<char>>,
)
    requires
        are_sources(all_joined(project_dir, base)),
    ensures
        are_sources(distinct(all_joined(project_dir, base + own))) <==> are_sources(
            all_joined(project_dir, own),
        ),
{
    let all = all_joined(project_dir, base + own);
    let first = all_joined(project_dir, base);
    let second = all_joined(project_dir, own);
    let once = distinct(all);
    assert(all =~= first + second);
    law_distinct_keeps_each_text_once(all);
    if are_sources(once) {
        assert forall|i: int| 0 <= i < second.len() implies ends_with(
            #[trigger] second[i],
            ".java"@,
        ) || ends_with(second[i], ".kt"@) by {
            assert(all[first.len() + i] == second[i]);
            assert(all.contains(second[i]));
            let k = once.index_of(second[i]);
            assert(once[k] == second[i]);
        }
    }
    if are_sources(second) {
        assert forall|k: int| 0 <= k < once.len() implies ends_with(
            #[trigger] once[k],
            ".java"@,
        ) || ends_with(once[k], ".kt"@) by {
            assert(once.contains(once[k]));
            assert(all.contains(once[k]));
            let i = choose|i: int| 0 <= i < all.len() && all[i] == once[k];
            if i < first.len() {
                assert(first[i] == once[k]);
            } else {
                assert(second[i - first.len()] == once[k]);
            }
        }
    }
}

/// A variant is planned exactly where its sources can be compiled and the
/// Compose compiler plugin is there where it is needed.
proof fn lemma_variant_is_planned(
    module: AndroidModel,
    flavors: FlavorModels,
    signing: Option<SigningModel>,
    variant: VariantModel,
)
    requires
        variant.apk_filename == "app-"@ + variant.variant_dir + ".apk"@,
    ensures
        variant_plan(module, flavors, signing, variant).outcome is Ok <==> merged_sources(
            module.declared.sources,
            module.project_dir,
            variant.flavors,
            flavors,
        ) is Ok && has_compiler_plugin(module),
{
    reveal(variant_plan);
    assert(("app-"@ + variant.variant_dir).len() > 0) by {
        reveal_strlit("app-");
    }
    lemma_apk_lies_in_a_directory(
        variant_build(module.project_dir, variant.variant_dir),
        "app-"@ + variant.variant_dir,
    );
    let paths = variant_paths(module.project_dir, module.declared.namespace, variant);
    assert(parent(paths.apk) is Some);
    assert((|jar: Seq<char>| is_compose_compiler(jar)) =~= (|jar: Seq<char>| is_plugin(jar)));
    lemma_first_is_first(module.classpath, |jar: Seq<char>| is_plugin(jar));
    let plugin = compose_plugin(module.declared.compose, module.classpath);
    if module.declared.compose && plugin is Ok {
        let test = |jar: Seq<char>| is_plugin(jar);
        assert(test(plugin->Ok_0->0));
        assert(!is_nowhere(module.classpath, test));
    }
}

/// A path ends as the part that was joined last.
proof fn lemma_joined_path_ends_as_its_part(base: Seq<char>, part: Seq<char>, suffix: Seq<char>)
    requires
        ends_with(part, suffix),
    ensures
        ends_with(path_join(base, part), suffix),
{
    let path = path_join(base, part);
    let from = path.len() - suffix.len();
    assert(path.subrange(from, path.len() as int) =~= part.subrange(
        part.len() - suffix.len(),
        part.len() as int,
    ));
    assert(path.len() >= part.len());
}

/// Sources that pass still do once they are resolved again.
proof fn lemma_sources_pass_below_a_base(base: Seq<char>, paths: Seq<Seq<char>>)
    requires
        are_sources(paths),
    ensures
        are_sources(all_joined(base, paths)),
{
    let all = all_joined(base, paths);
    assert forall|i: int| 0 <= i < all.len() implies ends_with(#[trigger] all[i], ".java"@)
        || ends_with(all[i], ".kt"@) by {
        if ends_with(paths[i], ".java"@) {
            lemma_joined_path_ends_as_its_part(base, paths[i], ".java"@);
        } else {
            lemma_joined_path_ends_as_its_part(base, paths[i], ".kt"@);
        }
    }
}

/// The variant of a build type and, where there are flavors, a flavor is planned
/// exactly where the flavor's sources can be compiled and the Compose compiler
/// plugin is there where it is needed.
proof fn lemma_described_variant_is_planned(
    config: JsonModel,
    android: JsonModel,
    project_dir: Seq<char>,
    probe: SdkModel,
    signing: Option<SigningModel>,
    variant: VariantModel,
    j: int,
)
    requires
        android_module(config, android, project_dir, probe) is Ok,
        module_flavors(config) is Ok,
        config.get("productFlavors"@) matches Some(block) ==> ascending(block.as_object()->0),
        variant.apk_filename == "app-"@ + variant.variant_dir + ".apk"@,
        variant.flavors.len() == 0 || 0 <= j < flavor_blocks(config).len() && variant.flavors
            == seq![flavor_blocks(config)[j].0],
    ensures
        ({
            let module = android_module(config, android, project_dir, probe)->Ok_0;
            let flavors = module_flavors(config)->Ok_0;
            variant_plan(module, flavors, signing, variant).outcome is Ok <==> (
            variant.flavors.len() > 0 ==> are_sources(
                all_joined(project_dir, listing(flavor_blocks(config)[j].1.get("sources"@))),
            )) && has_compiler_plugin(module)
        }),
{
    let module = android_module(config, android, project_dir, probe)->Ok_0;
    let flavors = module_flavors(config)->Ok_0;
    let listed = listing(android.get("sources"@));
    let base = module.declared.sources;
    let own = if variant.flavors.len() == 0 {
        seq![]
    } else {
        listing(flavor_blocks(config)[j].1.get("sources"@))
    };
    law_module_is_what_the_configuration_says(config, android, project_dir, probe);
    law_module_is_read_where_it_is_buildable(config, android, project_dir, probe);
    lemma_sources_pass_below_a_base(project_dir, base);
    law_sources_of_a_variant(config, module, flavors, variant, listed, j);
    lemma_merged_sources_pass(project_dir, base, own);
    lemma_sources_pass_when_they_are_sources(distinct(all_joined(project_dir, base + own)));
    lemma_variant_is_planned(module, flavors, signing, variant);
}

/// A place in a table is in one of its rows and one of its columns.
proof fn lemma_place_in_a_table(rows: nat, columns: nat, k: int) -> (cell: (int, int))
    requires
        0 <= k < rows * columns,
    ensures
        0 <= cell.0 < rows,
        0 <= cell.1 < columns,
        k == cell.0 * columns + cell.1,
    decreases rows,
{
    assert(rows > 0) by (nonlinear_arith)
        requires
            0 < rows * columns,
    ;
    let above = (rows - 1) as nat;
    assert(rows * columns == above * columns + columns) by (nonlinear_arith)
        requires
            rows == above + 1,
    ;
    if k < above * columns {
        lemma_place_in_a_table(above, columns, k)
    } else {
        (above as int, k - above * columns)
    }
}

/// A plan has tasks exactly where the module can be built, and it succeeds
/// exactly where, besides, the configuration describes variants, describes no
/// signing or all of it, and has for every variant sources that can be compiled
/// and the Compose compiler plugin where Compose is on.
pub proof fn law_plan_succeeds_for_what_is_described(
    config: JsonModel,
    android: JsonModel,
    project_dir: Seq<char>,
    probe: SdkModel,
)
    requires
        config.str_at("projectDir"@) == Some(project_dir),
        config.get("android"@) == Some(android),
        config.get("productFlavors"@) matches Some(block) && block.as_object() matches Some(entries)
            ==> ascending(entries),
    ensures
        ({
            let plan = android_plan(config, probe);
            let module = android_module(config, android, project_dir, probe)->Ok_0;
            &&& plan.tasks.len() > 0 <==> is_buildable(config, android, project_dir, probe)
            &&& plan.outcome is Ok <==> {
                &&& is_buildable(config, android, project_dir, probe)
                &&& has_variants(config, android)
                &&& is_signable(config)
                &&& type_names(config).len() > 0 ==> are_flavors_buildable(config, project_dir)
                    && has_compiler_plugin(module)
            }
        }),
{
    law_module_is_read_where_it_is_buildable(config, android, project_dir, probe);
    law_variants_are_computed_where_they_are_described(config, android);
    law_signing_is_what_the_configuration_says(config);
    if let Ok(module) = android_module(config, android, project_dir, probe) {
        assert(shared_tasks(module).len() == 2);
        if module_variants(config) is Ok && module_signing(config) is Ok {
            let (variants, flavors) = module_variants(config)->Ok_0;
            let signing = module_signing(config)->Ok_0;
            let plans = variant_plans(module, flavors, signing, variants);
            let fits = are_flavors_buildable(config, project_dir) && has_compiler_plugin(module);
            lemma_variants_are_planned(config, android, project_dir, probe, signing);
            assert(plans.outcome is Ok <==> (type_names(config).len() > 0 ==> fits));
        }
    }
}

/// All variants are planned exactly where there are none or all can be built.
proof fn lemma_variants_are_planned(
    config: JsonModel,
    android: JsonModel,
    project_dir: Seq<char>,
    probe: SdkModel,
    signing: Option<SigningModel>,
)
    requires
        config.get("android"@) == Some(android),
        android_module(config, android, project_dir, probe) is Ok,
        module_variants(config) is Ok,
        config.get("productFlavors"@) matches Some(block) ==> ascending(block.as_object()->0),
    ensures
        ({
            let module = android_module(config, android, project_dir, probe)->Ok_0;
            let (variants, flavors) = module_variants(config)->Ok_0;
            variant_plans(module, flavors, signing, variants).outcome is Ok <==> (type_names(
                config,
            ).len() > 0 ==> are_flavors_buildable(config, project_dir) && has_compiler_plugin(
                module,
            ))
        }),
{
    let module = android_module(config, android, project_dir, probe)->Ok_0;
    let (variants, flavors) = module_variants(config)->Ok_0;
    let types = type_names(config);
    let blocks = flavor_blocks(config);
    law_flavors_are_those_declared(config);
    lemma_plans_succeed_where_each_does(module, flavors, signing, variants);
    if types.len() == 0 {
        assert(variants.len() == 0) by {
            law_table_size(
                0,
                flavors.len(),
                matrix_cells(types, flavors, 0, 0),
            );
        }
    } else if blocks.len() == 0 {
        law_variants_of_build_types(config, android, 0);
        assert forall|k: int| 0 <= k < variants.len() implies (variant_plan(
            module,
            flavors,
            signing,
            #[trigger] variants[k],
        ).outcome is Ok <==> has_compiler_plugin(module)) by {
            law_variants_of_build_types(config, android, k);
            lemma_described_variant_is_planned(
                config,
                android,
                project_dir,
                probe,
                signing,
                variants[k],
                0,
            );
        }
        assert(variant_plan(module, flavors, signing, variants[0]).outcome is Ok
            <==> has_compiler_plugin(module));
    } else {
        law_variants_of_build_types_and_flavors(config, android, 0, 0);
        assert forall|i: int, j: int|
            0 <= i < types.len() && 0 <= j < blocks.len() implies 0 <= i * blocks.len() + j
            < variants.len() && (variant_plan(
            module,
            flavors,
            signing,
            #[trigger] variants[i * blocks.len() + j],
        ).outcome is Ok <==> are_sources(
            all_joined(project_dir, listing(blocks[j].1.get("sources"@))),
        ) && has_compiler_plugin(module)) by {
            law_variants_of_build_types_and_flavors(config, android, i, j);
            lemma_described_variant_is_planned(
                config,
                android,
                project_dir,
                probe,
                signing,
                variants[i * blocks.len() + j],
                j,
            );
        }
        if variant_plans(module, flavors, signing, variants).outcome is Ok {
            assert forall|j: int| 0 <= j < blocks.len() implies are_sources(
                all_joined(project_dir, listing((#[trigger] blocks[j]).1.get("sources"@))),
            ) && has_compiler_plugin(module) by {
                assert(variant_plan(
                    module,
                    flavors,
                    signing,
                    variants[0int * blocks.len() + j],
                ).outcome is Ok);
            }
            assert(has_compiler_plugin(module)) by {
                assert(variant_plan(
                    module,
                    flavors,
                    signing,
                    variants[0int * blocks.len() + 0int],
                ).outcome is Ok);
            }
        } else {
            let k = choose|k: int|
                0 <= k < variants.len() && variant_plan(
                    module,
                    flavors,
                    signing,
                    #[trigger] variants[k],
                ).outcome is Err;
            let (i, j) = lemma_place_in_a_table(types.len(), blocks.len(), k);
            assert(variant_plan(
                module,
                flavors,
                signing,
                variants[i * blocks.len() + j],
            ).outcome is Err);
            assert(!(are_sources(all_joined(project_dir, listing(blocks[j].1.get("sources"@))))
                && has_compiler_plugin(module)));
        }
    }
}

/// A configuration without a project directory, or without a block, is refused,
/// and nothing is planned.
pub proof fn law_incomplete_configuration_is_refused(config: JsonModel, probe: SdkModel)
    requires
        config.str_at("projectDir"@) is None || config.get("android"@) is None,
    ensures
        android_plan(config, probe).outcome is Err,
        android_plan(config, probe).tasks.len() == 0,
{
}

/// A text that is no JSON is refused with the reader's message, and nothing is
/// planned; any other is planned as the configuration it spells.
pub proof fn law_unreadable_configuration_is_refused(
    parsed: Result<JsonModel, Seq<char>>,
    probe: SdkModel,
)
    ensures
        match parsed {
            Ok(config) => parsed_plan(parsed, probe) == android_plan(config, probe),
            Err(e) => {
                &&& parsed_plan(parsed, probe).tasks.len() == 0
                &&& parsed_plan(parsed, probe).outcome == Err::<(), _>(
                    "invalid module config JSON: "@ + e,
                )
            },
        },
{
}

/// The SDK is looked at where the module is then built with it: at the module's
/// root, for the API level that it compiles against.
pub proof fn law_sdk_is_looked_at_where_it_is_used(
    config: JsonModel,
    android: JsonModel,
    project_dir: Seq<char>,
    probe: SdkModel,
)
    requires
        config.str_at("projectDir"@) == Some(project_dir),
        config.get("android"@) == Some(android),
    ensures
        sdk_of(config) is Some <==> android.i64_at("compileSdk"@) is Some && (android.str_at(
            "sdkDir"@,
        ) is Some || config.str_at("androidSdkDir"@) is Some),
        sdk_of(config) matches Some((sdk, level)) ==> sdk == described_sdk(
            config,
            android,
            project_dir,
        ) && android.i64_at("compileSdk"@) == Some(level),
        android_module(config, android, project_dir, probe) matches Ok(module) ==> {
            &&& sdk_of(config) matches Some((sdk, level))
            &&& module.tools.platform_jar == platform_jar_path(sdk, level)
            &&& module.tools.d8_jar == d8_jar_path(module.tools.build_tools)
        },
{
}

} // verus!
