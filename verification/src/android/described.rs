//! The variants of the `ulite/android` plugin and what each is made of, in terms
//! of the configuration.

use crate::android::build_config::{
    buildconfig_source, constant, field_constants, quoted, truth, ParamsModel,
};
use crate::android::laws::law_build_type_is_recovered;
use crate::android::module::AndroidModel;
use crate::android::plan::buildconfig_params;
use crate::android::variants::{
    flavor_of, flavored_variant, layered_sources, matrix_cells, merged_sources, module_flavors,
    module_variants, parsed_flavors, sdk_levels, FlavorModel, FlavorModels, VariantModel,
};
use crate::json::{ascending, law_each_entry_is_found, JsonModel};
use crate::letter_case::{lowercase, pascal_case};
use crate::meaning::{flavor_blocks, lemma_strings_are_listed, listing, type_names};
use crate::number::decimal;
use crate::path::all_joined;
use crate::sources::checked_sources;
use crate::text::{before, concatenated, contains_text, distinct, occurs_at};
use crate::variants::{declared_dimension, law_table_has_every_cell, law_table_size};
use vstd::prelude::*;

verus! {

/// A flavor is what its block says.
pub open spec fn is_flavor(
    flavor: (Seq<char>, FlavorModel),
    entry: (Seq<char>, JsonModel),
) -> bool {
    &&& flavor.0 == entry.0
    &&& flavor.1.min_sdk == entry.1.i64_at("minSdk"@)
    &&& flavor.1.application_id_suffix == (if entry.1.str_at("applicationIdSuffix"@) is Some {
        entry.1.str_at("applicationIdSuffix"@)->0
    } else {
        seq![]
    })
    &&& flavor.1.sources == listing(entry.1.get("sources"@))
}

/// A variant is that of a build type and, where there is one, a flavor: named
/// after both, for the flavor's lowest API level where it sets one and for the
/// module's otherwise, for the module's target level, and with the flavor's
/// suffix.
pub open spec fn is_variant_of(
    variant: VariantModel,
    android: JsonModel,
    build_type: Seq<char>,
    flavor: Option<(Seq<char>, JsonModel)>,
) -> bool {
    let lowest = android.i64_at("minSdk"@)->0;
    &&& variant.target_sdk == (if android.get("targetSdk"@) is Some {
        android.i64_at("targetSdk"@)->0
    } else {
        android.i64_at("compileSdk"@)->0
    })
    &&& variant.apk_filename == "app-"@ + variant.variant_dir + ".apk"@
    &&& match flavor {
        None => {
            &&& variant.name == pascal_case(build_type)
            &&& variant.variant_dir == lowercase(pascal_case(build_type))
            &&& variant.min_sdk == lowest
            &&& variant.application_id_suffix.len() == 0
            &&& variant.flavors.len() == 0
        },
        Some((name, block)) => {
            &&& variant.name == pascal_case(build_type) + pascal_case(name)
            &&& variant.variant_dir == lowercase(pascal_case(build_type)) + pascal_case(name)
            &&& variant.min_sdk == (if block.i64_at("minSdk"@) is Some {
                block.i64_at("minSdk"@)->0
            } else {
                lowest
            })
            &&& variant.application_id_suffix == (if block.str_at("applicationIdSuffix"@) is Some {
                block.str_at("applicationIdSuffix"@)->0
            } else {
                seq![]
            })
            &&& variant.flavors == seq![name]
        },
    }
}

/// A flavor that is read is what its block says.
proof fn lemma_flavor_is_read(name: Seq<char>, block: JsonModel, declared: Option<Seq<char>>)
    requires
        flavor_of(name, block, declared) is Ok,
    ensures
        is_flavor((name, flavor_of(name, block, declared)->Ok_0), (name, block)),
{
    if let Some(value) = block.get("sources"@) {
        lemma_strings_are_listed(value.as_array()->0);
    }
}

/// The flavors that are read are those declared, one for each and in order.
proof fn lemma_flavors_are_read(
    entries: Seq<(Seq<char>, JsonModel)>,
    declared: Option<Seq<char>>,
)
    requires
        parsed_flavors(entries, declared) is Ok,
    ensures
        ({
            let flavors = parsed_flavors(entries, declared)->Ok_0;
            let blocks = entries.filter(
                |entry: (Seq<char>, JsonModel)| entry.0 != "dimension"@,
            );
            &&& flavors.len() == blocks.len()
            &&& forall|j: int|
                0 <= j < flavors.len() ==> is_flavor(#[trigger] flavors[j], blocks[j])
        }),
    decreases entries.len(),
{
    reveal(Seq::filter);
    if entries.len() > 0 {
        lemma_flavors_are_read(entries.drop_last(), declared);
        let (name, block) = entries.last();
        if name != "dimension"@ {
            lemma_flavor_is_read(name, block, declared);
        }
    }
}

/// The flavors of a module are those it declares.
pub proof fn law_flavors_are_those_declared(config: JsonModel)
    requires
        module_flavors(config) is Ok,
    ensures
        module_flavors(config)->Ok_0.len() == flavor_blocks(config).len(),
        forall|j: int|
            0 <= j < flavor_blocks(config).len() ==> is_flavor(
                #[trigger] module_flavors(config)->Ok_0[j],
                flavor_blocks(config)[j],
            ),
{
    if let Some(block) = config.get("productFlavors"@) {
        let entries = block.as_object()->0;
        lemma_flavors_are_read(entries, declared_dimension(entries));
    }
}

/// Without flavors a module has one variant per build type, in order.
pub proof fn law_variants_of_build_types(config: JsonModel, android: JsonModel, i: int)
    requires
        config.get("android"@) == Some(android),
        module_variants(config) is Ok,
        flavor_blocks(config).len() == 0,
        0 <= i < type_names(config).len(),
    ensures
        module_variants(config)->Ok_0.0.len() == type_names(config).len(),
        is_variant_of(
            module_variants(config)->Ok_0.0[i],
            android,
            type_names(config)[i],
            None,
        ),
{
    law_flavors_are_those_declared(config);
}

/// With flavors a module has one variant per build type and flavor, build type by
/// build type.
pub proof fn law_variants_of_build_types_and_flavors(
    config: JsonModel,
    android: JsonModel,
    i: int,
    j: int,
)
    requires
        config.get("android"@) == Some(android),
        module_variants(config) is Ok,
        0 <= i < type_names(config).len(),
        0 <= j < flavor_blocks(config).len(),
    ensures
        module_variants(config)->Ok_0.0.len() == type_names(config).len() * flavor_blocks(
            config,
        ).len(),
        0 <= i * flavor_blocks(config).len() + j < type_names(config).len() * flavor_blocks(
            config,
        ).len(),
        is_variant_of(
            module_variants(config)->Ok_0.0[i * flavor_blocks(config).len() + j],
            android,
            type_names(config)[i],
            Some(flavor_blocks(config)[j]),
        ),
{
    law_flavors_are_those_declared(config);
    let names = type_names(config);
    let flavors = module_flavors(config)->Ok_0;
    let (min_sdk, target_sdk) = sdk_levels(android)->Ok_0;
    let cells = matrix_cells(names, flavors, min_sdk, target_sdk);
    law_table_size(names.len(), flavors.len(), cells);
    law_table_has_every_cell(names.len(), flavors.len(), cells, i, j);
    assert(is_flavor(flavors[j], flavor_blocks(config)[j]));
    let variant = flavored_variant(names[i], flavors[j], min_sdk, target_sdk);
    assert(cells(i, j) == variant);
    assert(variant.flavors =~= seq![flavor_blocks(config)[j].0]);
}

/// The names of flavors in order stay in order.
proof fn lemma_flavor_names_ascend(config: JsonModel)
    requires
        module_flavors(config) is Ok,
        config.get("productFlavors"@) matches Some(block) ==> ascending(block.as_object()->0),
    ensures
        ascending(module_flavors(config)->Ok_0),
{
    if let Some(block) = config.get("productFlavors"@) {
        let entries = block.as_object()->0;
        lemma_parsed_flavors_ascend(entries, declared_dimension(entries));
    }
}

/// The flavors read from entries in order are in order.
proof fn lemma_parsed_flavors_ascend(
    entries: Seq<(Seq<char>, JsonModel)>,
    declared: Option<Seq<char>>,
)
    requires
        parsed_flavors(entries, declared) is Ok,
        ascending(entries),
    ensures
        ascending(parsed_flavors(entries, declared)->Ok_0),
        forall|j: int|
            0 <= j < parsed_flavors(entries, declared)->Ok_0.len() ==> exists|i: int|
                0 <= i < entries.len() && #[trigger] entries[i].0 == (
                #[trigger] parsed_flavors(entries, declared)->Ok_0[j]).0,
    decreases entries.len(),
{
    if entries.len() > 0 {
        let front = entries.drop_last();
        let flavors = parsed_flavors(entries, declared)->Ok_0;
        assert forall|a: int, b: int| 0 <= a < b < front.len() implies before(
            #[trigger] front[a].0,
            #[trigger] front[b].0,
        ) by {
            assert(before(entries[a].0, entries[b].0));
        }
        lemma_parsed_flavors_ascend(front, declared);
        let earlier = parsed_flavors(front, declared)->Ok_0;
        assert forall|j: int| 0 <= j < flavors.len() implies exists|i: int|
            0 <= i < entries.len() && #[trigger] entries[i].0 == (#[trigger] flavors[j]).0 by {
            if j < earlier.len() {
                let i = choose|i: int|
                    0 <= i < front.len() && #[trigger] front[i].0 == earlier[j].0;
                assert(entries[i].0 == flavors[j].0);
            } else {
                assert(entries[entries.len() - 1].0 == flavors[j].0);
            }
        }
        assert forall|a: int, b: int| 0 <= a < b < flavors.len() implies before(
            #[trigger] flavors[a].0,
            #[trigger] flavors[b].0,
        ) by {
            if b < earlier.len() {
                assert(before(earlier[a].0, earlier[b].0));
            } else {
                let i = choose|i: int|
                    0 <= i < front.len() && #[trigger] front[i].0 == earlier[a].0;
                assert(before(entries[i].0, entries[entries.len() - 1].0));
            }
        }
    }
}

/// The sources of a variant are the module's own and those of its flavor,
/// resolved, each once and in this order, and all of them are understood.
pub proof fn law_sources_of_a_variant(
    config: JsonModel,
    module: AndroidModel,
    flavors: FlavorModels,
    variant: VariantModel,
    base: Seq<Seq<char>>,
    j: int,
)
    requires
        module_flavors(config) == Ok::<_, Seq<char>>(flavors),
        config.get("productFlavors"@) matches Some(block) ==> ascending(block.as_object()->0),
        module.declared.sources == all_joined(module.project_dir, base),
        variant.flavors.len() == 0 || 0 <= j < flavor_blocks(config).len() && variant.flavors
            == seq![flavor_blocks(config)[j].0],
    ensures
        ({
            let own = if variant.flavors.len() == 0 {
                seq![]
            } else {
                listing(flavor_blocks(config)[j].1.get("sources"@))
            };
            let all = distinct(all_joined(module.project_dir, module.declared.sources + own));
            merged_sources(
                module.declared.sources,
                module.project_dir,
                variant.flavors,
                flavors,
            ) == (match checked_sources(all) {
                Ok(()) => Ok::<_, Seq<char>>(all),
                Err(e) => Err(e),
            })
        }),
{
    reveal_with_fuel(layered_sources, 2);
    if variant.flavors.len() > 0 {
        law_flavors_are_those_declared(config);
        lemma_flavor_names_ascend(config);
        law_each_entry_is_found(flavors, j);
        assert(is_flavor(flavors[j], flavor_blocks(config)[j]));
        let none: Seq<Seq<char>> = seq![];
        assert(variant.flavors.drop_last() =~= none);
        assert(variant.flavors.last() == flavors[j].0);
        assert(none + flavors[j].1.sources =~= flavors[j].1.sources);
    }
}

/// The source declares a constant of the class.
pub open spec fn declares(
    source: Seq<char>,
    java_type: Seq<char>,
    name: Seq<char>,
    value: Seq<char>,
) -> bool {
    contains_text(
        source,
        "  public static final "@ + java_type + " "@ + name + " = "@ + value + ";\n"@,
    )
}

/// What stands in a part stands in the whole.
proof fn lemma_part_of_a_part_stands(
    front: Seq<char>,
    part: Seq<char>,
    back: Seq<char>,
    s: Seq<char>,
)
    requires
        contains_text(part, s),
    ensures
        contains_text(front + part + back, s),
{
    let at = choose|at: int| occurs_at(part, s, at);
    let whole = front + part + back;
    assert(whole.subrange(front.len() + at, front.len() + at + s.len()) =~= part.subrange(
        at,
        at + s.len(),
    ));
    assert(occurs_at(whole, s, front.len() + at));
}

/// Each part stands in the parts one after another.
proof fn lemma_each_part_stands(parts: Seq<Seq<char>>, k: int)
    requires
        0 <= k < parts.len(),
    ensures
        contains_text(concatenated(parts), parts[k]),
{
    let part = parts[k];
    assert(part.subrange(0, part.len() as int) =~= part);
    assert(occurs_at(part, part, 0));
    lemma_each_part_holds(parts, k, part);
}

/// The generated class declares what its parameters say, and every field of the
/// module.
#[verifier::spinoff_prover]
proof fn lemma_source_declares_the_parameters(p: ParamsModel)
    ensures
        ("package "@ + p.namespace + ";\n\n"@ + "public final class BuildConfig {\n"@).is_prefix_of(
            buildconfig_source(p),
        ),
        declares(buildconfig_source(p), "String"@, "APPLICATION_ID"@, quoted(p.application_id)),
        declares(buildconfig_source(p), "String"@, "BUILD_TYPE"@, quoted(p.build_type)),
        declares(buildconfig_source(p), "boolean"@, "DEBUG"@, truth(p.debug)),
        declares(buildconfig_source(p), "String"@, "FLAVOR"@, quoted(p.flavor)),
        declares(
            buildconfig_source(p),
            "int"@,
            "VERSION_CODE"@,
            decimal(p.version_code as int),
        ),
        declares(buildconfig_source(p), "String"@, "VERSION_NAME"@, quoted(p.version_name)),
        declares(buildconfig_source(p), "int"@, "MIN_SDK_VERSION"@, decimal(p.min_sdk as int)),
        declares(
            buildconfig_source(p),
            "int"@,
            "TARGET_SDK_VERSION"@,
            decimal(p.target_sdk as int),
        ),
        declares(
            buildconfig_source(p),
            "int"@,
            "COMPILE_SDK_VERSION"@,
            decimal(p.compile_sdk as int),
        ),
        forall|k: int|
            0 <= k < p.user_fields.len() ==> declares(
                buildconfig_source(p),
                (#[trigger] p.user_fields[k]).java_type,
                p.user_fields[k].name,
                p.user_fields[k].initializer,
            ),
{
    let head = "package "@ + p.namespace + ";\n\n"@ + "public final class BuildConfig {\n"@;
    let id = constant("String"@, "APPLICATION_ID"@, quoted(p.application_id));
    let kind = constant("String"@, "BUILD_TYPE"@, quoted(p.build_type));
    let debug = constant("boolean"@, "DEBUG"@, truth(p.debug));
    let flavor = constant("String"@, "FLAVOR"@, quoted(p.flavor));
    let code = constant("int"@, "VERSION_CODE"@, decimal(p.version_code as int));
    let name = constant("String"@, "VERSION_NAME"@, quoted(p.version_name));
    let least = constant("int"@, "MIN_SDK_VERSION"@, decimal(p.min_sdk as int));
    let target = constant("int"@, "TARGET_SDK_VERSION"@, decimal(p.target_sdk as int));
    let level = constant("int"@, "COMPILE_SDK_VERSION"@, decimal(p.compile_sdk as int));
    let constants = field_constants(p.user_fields);
    let fields = concatenated(constants);
    let end = "}\n"@;
    let whole = buildconfig_source(p);
    let parts = lemma_parts(
        head,
        id,
        kind,
        debug,
        flavor,
        code,
        name,
        least,
        target,
        level,
        fields,
        end,
    );
    lemma_each_part_stands(parts, 1);
    lemma_each_part_stands(parts, 2);
    lemma_each_part_stands(parts, 3);
    lemma_each_part_stands(parts, 4);
    lemma_each_part_stands(parts, 5);
    lemma_each_part_stands(parts, 6);
    lemma_each_part_stands(parts, 7);
    lemma_each_part_stands(parts, 8);
    lemma_each_part_stands(parts, 9);
    assert forall|k: int| 0 <= k < p.user_fields.len() implies declares(
        whole,
        (#[trigger] p.user_fields[k]).java_type,
        p.user_fields[k].name,
        p.user_fields[k].initializer,
    ) by {
        lemma_each_part_stands(constants, k);
        lemma_each_part_holds(parts, 10, constants[k]);
    }
}

/// Twelve parts, and what they are one after another.
proof fn lemma_parts(
    a: Seq<char>,
    b: Seq<char>,
    c: Seq<char>,
    d: Seq<char>,
    e: Seq<char>,
    f: Seq<char>,
    g: Seq<char>,
    h: Seq<char>,
    i: Seq<char>,
    j: Seq<char>,
    k: Seq<char>,
    l: Seq<char>,
) -> (parts: Seq<Seq<char>>)
    ensures
        parts == seq![a, b, c, d, e, f, g, h, i, j, k, l],
        concatenated(parts) == a + b + c + d + e + f + g + h + i + j + k + l,
        a.is_prefix_of(concatenated(parts)),
{
    let none: Seq<Seq<char>> = seq![];
    let p1 = lemma_one_more(none, a);
    assert(concatenated(none) + a =~= a);
    let p2 = lemma_one_more(p1, b);
    let p3 = lemma_one_more(p2, c);
    let p4 = lemma_one_more(p3, d);
    let p5 = lemma_one_more(p4, e);
    let p6 = lemma_one_more(p5, f);
    let p7 = lemma_one_more(p6, g);
    let p8 = lemma_one_more(p7, h);
    let p9 = lemma_one_more(p8, i);
    let p10 = lemma_one_more(p9, j);
    let p11 = lemma_one_more(p10, k);
    let p12 = lemma_one_more(p11, l);
    assert(p12 =~= seq![a, b, c, d, e, f, g, h, i, j, k, l]);
    assert(concatenated(p12).take(a.len() as int) =~= a);
    p12
}

/// The parts one after another, with one more behind.
proof fn lemma_one_more(parts: Seq<Seq<char>>, part: Seq<char>) -> (more: Seq<Seq<char>>)
    ensures
        more == parts.push(part),
        concatenated(more) == concatenated(parts) + part,
{
    assert(parts.push(part).drop_last() =~= parts);
    parts.push(part)
}

/// What stands in one of the parts stands in the parts one after another.
proof fn lemma_each_part_holds(parts: Seq<Seq<char>>, k: int, s: Seq<char>)
    requires
        0 <= k < parts.len(),
        contains_text(parts[k], s),
    ensures
        contains_text(concatenated(parts), s),
    decreases parts.len(),
{
    let front = concatenated(parts.drop_last());
    let none: Seq<char> = seq![];
    if k < parts.len() - 1 {
        lemma_each_part_holds(parts.drop_last(), k, s);
        lemma_part_of_a_part_stands(none, front, parts.last(), s);
        assert(none + front + parts.last() =~= concatenated(parts));
    } else {
        lemma_part_of_a_part_stands(front, parts.last(), none, s);
        assert(front + parts.last() + none =~= concatenated(parts));
    }
}

/// The generated `BuildConfig` of a variant declares the variant's application
/// id, build type, flavor and API levels, the module's version, and every field
/// that the module declares.
pub proof fn law_buildconfig_declares_the_variant(
    module: AndroidModel,
    variant: VariantModel,
    android: JsonModel,
    build_type: Seq<char>,
    flavor: Option<(Seq<char>, JsonModel)>,
)
    requires
        is_variant_of(variant, android, build_type, flavor),
    ensures
        ({
            let source = buildconfig_source(buildconfig_params(module, variant));
            let kind = lowercase(pascal_case(build_type));
            &&& ("package "@ + module.declared.namespace + ";\n\n"@
                + "public final class BuildConfig {\n"@).is_prefix_of(source)
            &&& declares(
                source,
                "String"@,
                "APPLICATION_ID"@,
                quoted(module.declared.namespace + variant.application_id_suffix),
            )
            &&& declares(source, "String"@, "BUILD_TYPE"@, quoted(kind))
            &&& declares(
                source,
                "boolean"@,
                "DEBUG"@,
                if kind == "debug"@ {
                    "true"@
                } else {
                    "false"@
                },
            )
            &&& declares(
                source,
                "String"@,
                "FLAVOR"@,
                quoted(
                    match flavor {
                        Some((name, _)) => name,
                        None => seq![],
                    },
                ),
            )
            &&& declares(
                source,
                "int"@,
                "VERSION_CODE"@,
                decimal(module.declared.version_code as int),
            )
            &&& declares(
                source,
                "String"@,
                "VERSION_NAME"@,
                quoted(module.declared.version_name),
            )
            &&& declares(source, "int"@, "MIN_SDK_VERSION"@, decimal(variant.min_sdk as int))
            &&& declares(source, "int"@, "TARGET_SDK_VERSION"@, decimal(variant.target_sdk as int))
            &&& declares(
                source,
                "int"@,
                "COMPILE_SDK_VERSION"@,
                decimal(module.declared.compile_sdk as int),
            )
            &&& forall|k: int|
                0 <= k < module.declared.fields.len() ==> declares(
                    source,
                    (#[trigger] module.declared.fields[k]).java_type,
                    module.declared.fields[k].name,
                    module.declared.fields[k].initializer,
                )
        }),
{
    let some = FlavorModel {
        dimension: seq![],
        min_sdk: None,
        application_id_suffix: seq![],
        sources: seq![],
    };
    match flavor {
        None => {
            law_build_type_is_recovered(build_type, (seq![], some), 0, 0);
            assert(variant.flavors =~= seq![]);
        },
        Some((name, _)) => {
            law_build_type_is_recovered(build_type, (name, some), 0, 0);
        },
    }
    lemma_source_declares_the_parameters(buildconfig_params(module, variant));
}

} // verus!
