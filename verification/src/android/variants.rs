//! The variants of an Android module.

use crate::android::keys::{int_value, optional_int, optional_integer};
use crate::blocks::{read_strings, required_int, strings_of};
use crate::json::{ascending, lemma_inserted_at_the_end, lookup, Json, JsonModel, SortedMap};
use crate::letter_case::{ascii_upper, capitalized, lemma_pascal_case_of_one_word};
use crate::path::{
    all_joined, is_absolute, law_join_below_an_absolute_base_is_absolute, path_join, resolve_path,
};
use crate::sources::{
    checked_sources, is_accepted, law_sources_pass_when_each_is_accepted, reject_unknown_extensions,
};
use crate::text::{
    before, distinct, law_distinct_keeps_each_text_once, law_distinct_keeps_the_front, no_texts,
    one_text, optional_text, plain_result, push_distinct, same_text, texts, texts_result,
};
use crate::variants::{
    about_flavor, apk_name, build_types, crossed, declared_dimension, flavor_dimension,
    flavor_entries, flavor_message, law_table_has_every_cell, law_table_size, name_apk,
    name_directory, name_variant, read_build_types, read_declared_dimension, read_flavor_dimension,
    read_flavor_entries, row, variant_directory, variant_name,
};
use vstd::prelude::*;

verus! {

/// One entry of `productFlavors`.
#[derive(Debug)]
pub struct FlavorInfo {
    pub dimension: String,
    /// Overrides the module's `minSdk`.
    pub min_sdk: Option<i64>,
    /// Appended to the application id.
    pub application_id_suffix: String,
    /// Source paths as declared, not yet resolved.
    pub sources: Vec<String>,
}

/// One cell of the variant matrix.
#[derive(Debug)]
pub struct Variant {
    /// PascalCase name that task names end in.
    pub name: String,
    /// The lowest API level the variant runs on.
    pub min_sdk: i64,
    /// The API level the variant targets.
    pub target_sdk: i64,
    /// Appended to the application id; empty when there is none.
    pub application_id_suffix: String,
    /// Directory name of the variant's build products.
    pub variant_dir: String,
    /// File name of the variant's APK.
    pub apk_filename: String,
    /// The flavors selected into the variant.
    pub flavors: Vec<String>,
}

/// The mathematical counterpart of [`FlavorInfo`].
pub struct FlavorModel {
    pub dimension: Seq<char>,
    pub min_sdk: Option<i64>,
    pub application_id_suffix: Seq<char>,
    pub sources: Seq<Seq<char>>,
}

/// The mathematical counterpart of [`Variant`].
pub struct VariantModel {
    pub name: Seq<char>,
    pub min_sdk: i64,
    pub target_sdk: i64,
    pub application_id_suffix: Seq<char>,
    pub variant_dir: Seq<char>,
    pub apk_filename: Seq<char>,
    pub flavors: Seq<Seq<char>>,
}

impl View for FlavorInfo {
    type V = FlavorModel;

    open spec fn view(&self) -> FlavorModel {
        FlavorModel {
            dimension: self.dimension@,
            min_sdk: self.min_sdk,
            application_id_suffix: self.application_id_suffix@,
            sources: texts(self.sources@),
        }
    }
}

impl View for Variant {
    type V = VariantModel;

    open spec fn view(&self) -> VariantModel {
        VariantModel {
            name: self.name@,
            min_sdk: self.min_sdk,
            target_sdk: self.target_sdk,
            application_id_suffix: self.application_id_suffix@,
            variant_dir: self.variant_dir@,
            apk_filename: self.apk_filename@,
            flavors: texts(self.flavors@),
        }
    }
}

/// The flavors of a module, by their models.
pub type FlavorModels = Seq<(Seq<char>, FlavorModel)>;

/// The variants of a list, by their models.
pub open spec fn variant_models(variants: Seq<Variant>) -> Seq<VariantModel> {
    variants.map_values(|variant: Variant| variant@)
}

/// What the variant matrix computation gives, by its models.
pub open spec fn matrix_result(
    r: Result<(Vec<Variant>, SortedMap<FlavorInfo>), String>,
) -> Result<(Seq<VariantModel>, FlavorModels), Seq<char>> {
    match r {
        Ok((variants, flavors)) => Ok((variant_models(variants@), flavors@)),
        Err(e) => Err(e@),
    }
}

/// A flavor's own `minSdk`.
pub open spec fn flavor_min_sdk(name: Seq<char>, block: JsonModel) -> Result<
    Option<i64>,
    Seq<char>,
> {
    match block.get("minSdk"@) {
        None => Ok(None),
        Some(value) => match value.as_i64() {
            Some(n) => Ok(Some(n)),
            None => Err(about_flavor(name, "' minSdk must be an integer"@)),
        },
    }
}

/// A flavor's own sources.
pub open spec fn flavor_sources(name: Seq<char>, block: JsonModel) -> Result<
    Seq<Seq<char>>,
    Seq<char>,
> {
    match block.get("sources"@) {
        None => Ok(seq![]),
        Some(value) => match value.as_array() {
            None => Err(about_flavor(name, "' sources must be a list of strings"@)),
            Some(items) => match strings_of(items) {
                None => Err(about_flavor(name, "' sources must be strings"@)),
                Some(list) => Ok(list),
            },
        },
    }
}

/// The suffix a flavor appends to the application id.
pub open spec fn flavor_suffix(block: JsonModel) -> Seq<char> {
    match block.str_at("applicationIdSuffix"@) {
        Some(suffix) => suffix,
        None => seq![],
    }
}

/// One flavor, from its block.
pub open spec fn flavor_of(
    name: Seq<char>,
    block: JsonModel,
    declared: Option<Seq<char>>,
) -> Result<FlavorModel, Seq<char>> {
    match flavor_dimension(name, block, declared) {
        Err(e) => Err(e),
        Ok(dimension) => match flavor_min_sdk(name, block) {
            Err(e) => Err(e),
            Ok(min_sdk) => match flavor_sources(name, block) {
                Err(e) => Err(e),
                Ok(sources) => Ok(
                    FlavorModel {
                        dimension,
                        min_sdk,
                        application_id_suffix: flavor_suffix(block),
                        sources,
                    },
                ),
            },
        },
    }
}

/// The flavors among the entries of a `productFlavors` block: all but the entry
/// that declares the dimension. The first one that is wrong is reported.
pub open spec fn parsed_flavors(
    entries: Seq<(Seq<char>, JsonModel)>,
    declared: Option<Seq<char>>,
) -> Result<FlavorModels, Seq<char>>
    decreases entries.len(),
{
    if entries.len() == 0 {
        Ok(seq![])
    } else {
        match parsed_flavors(entries.drop_last(), declared) {
            Err(e) => Err(e),
            Ok(flavors) => {
                let (name, block) = entries.last();
                if name == "dimension"@ {
                    Ok(flavors)
                } else {
                    match flavor_of(name, block, declared) {
                        Err(e) => Err(e),
                        Ok(flavor) => Ok(flavors.push((name, flavor))),
                    }
                }
            },
        }
    }
}

/// Every flavor has a dimension that is not empty; the first without is
/// reported.
pub open spec fn checked_dimensions(flavors: FlavorModels) -> Result<(), Seq<char>>
    decreases flavors.len(),
{
    if flavors.len() == 0 {
        Ok(())
    } else if flavors[0].1.dimension.len() == 0 {
        Err(about_flavor(flavors[0].0, "' has an empty 'dimension'"@))
    } else {
        checked_dimensions(flavors.drop_first())
    }
}

/// The flavors of a module.
pub open spec fn module_flavors(config: JsonModel) -> Result<FlavorModels, Seq<char>> {
    match flavor_entries(config) {
        Err(e) => Err(e),
        Ok(None) => Ok(seq![]),
        Ok(Some(entries)) => match parsed_flavors(entries, declared_dimension(entries)) {
            Err(e) => Err(e),
            Ok(flavors) => match checked_dimensions(flavors) {
                Err(e) => Err(e),
                Ok(()) => Ok(flavors),
            },
        },
    }
}

/// The variant of a build type on its own.
pub open spec fn plain_variant(build_type: Seq<char>, min_sdk: i64, target_sdk: i64) -> VariantModel {
    let directory = variant_directory(build_type, None);
    VariantModel {
        name: variant_name(build_type, None),
        min_sdk,
        target_sdk,
        application_id_suffix: seq![],
        variant_dir: directory,
        apk_filename: apk_name(directory),
        flavors: seq![],
    }
}

/// The variant of a build type with a flavor.
pub open spec fn flavored_variant(
    build_type: Seq<char>,
    flavor: (Seq<char>, FlavorModel),
    min_sdk: i64,
    target_sdk: i64,
) -> VariantModel {
    let directory = variant_directory(build_type, Some(flavor.0));
    VariantModel {
        name: variant_name(build_type, Some(flavor.0)),
        min_sdk: match flavor.1.min_sdk {
            Some(own) => own,
            None => min_sdk,
        },
        target_sdk,
        application_id_suffix: flavor.1.application_id_suffix,
        variant_dir: directory,
        apk_filename: apk_name(directory),
        flavors: seq![flavor.0],
    }
}

/// The cells of the matrix of build types and flavors.
pub open spec fn matrix_cells(
    build_types: Seq<Seq<char>>,
    flavors: FlavorModels,
    min_sdk: i64,
    target_sdk: i64,
) -> spec_fn(int, int) -> VariantModel {
    |i: int, j: int| flavored_variant(build_types[i], flavors[j], min_sdk, target_sdk)
}

/// Every build type on its own, or crossed with every flavor where there are
/// flavors.
pub open spec fn variant_matrix(
    build_types: Seq<Seq<char>>,
    flavors: FlavorModels,
    min_sdk: i64,
    target_sdk: i64,
) -> Seq<VariantModel> {
    if flavors.len() == 0 {
        build_types.map_values(
            |build_type: Seq<char>| plain_variant(build_type, min_sdk, target_sdk),
        )
    } else {
        crossed(
            build_types.len(),
            flavors.len(),
            matrix_cells(build_types, flavors, min_sdk, target_sdk),
        )
    }
}

/// The default minimum and target API levels of a module.
pub open spec fn sdk_levels(android: JsonModel) -> Result<(i64, i64), Seq<char>> {
    match required_int(android, "android"@, "minSdk"@) {
        Err(e) => Err(e),
        Ok(min_sdk) => match required_int(android, "android"@, "compileSdk"@) {
            Err(e) => Err(e),
            Ok(compile_sdk) => match optional_integer(android, "targetSdk"@) {
                Err(e) => Err(e),
                Ok(None) => Ok((min_sdk, compile_sdk)),
                Ok(Some(target_sdk)) => Ok((min_sdk, target_sdk)),
            },
        },
    }
}

/// The variants and the flavors of a module.
pub open spec fn module_variants(config: JsonModel) -> Result<
    (Seq<VariantModel>, FlavorModels),
    Seq<char>,
> {
    match config.get("android"@) {
        None => Err("module config has no 'android' block"@),
        Some(android) => match sdk_levels(android) {
            Err(e) => Err(e),
            Ok((min_sdk, target_sdk)) => match build_types(config) {
                Err(e) => Err(e),
                Ok(names) => match module_flavors(config) {
                    Err(e) => Err(e),
                    Ok(flavors) => Ok(
                        (variant_matrix(names, flavors, min_sdk, target_sdk), flavors),
                    ),
                },
            },
        },
    }
}

/// The sources the selected flavors add, in order, not yet resolved.
pub open spec fn layered_sources(selected: Seq<Seq<char>>, flavors: FlavorModels) -> Seq<Seq<char>>
    decreases selected.len(),
{
    if selected.len() == 0 {
        seq![]
    } else {
        let earlier = layered_sources(selected.drop_last(), flavors);
        match lookup(flavors, selected.last()) {
            Some(flavor) => earlier + flavor.sources,
            None => earlier,
        }
    }
}

/// The sources of a variant: the module's own and those of its flavors, each
/// resolved and each once.
pub open spec fn effective_sources(
    base: Seq<Seq<char>>,
    project_dir: Seq<char>,
    selected: Seq<Seq<char>>,
    flavors: FlavorModels,
) -> Seq<Seq<char>> {
    distinct(all_joined(project_dir, base + layered_sources(selected, flavors)))
}

/// The sources of a variant, all of which a compiler must understand.
pub open spec fn merged_sources(
    base: Seq<Seq<char>>,
    project_dir: Seq<char>,
    selected: Seq<Seq<char>>,
    flavors: FlavorModels,
) -> Result<Seq<Seq<char>>, Seq<char>> {
    let merged = effective_sources(base, project_dir, selected, flavors);
    match checked_sources(merged) {
        Err(e) => Err(e),
        Ok(()) => Ok(merged),
    }
}

/// Every build type is crossed with every flavor: the matrix has one variant
/// per pair, build type by build type.
pub proof fn law_matrix_crosses_build_types_with_flavors(
    build_types: Seq<Seq<char>>,
    flavors: FlavorModels,
    min_sdk: i64,
    target_sdk: i64,
    i: int,
    j: int,
)
    requires
        0 <= i < build_types.len(),
        0 <= j < flavors.len(),
    ensures
        variant_matrix(build_types, flavors, min_sdk, target_sdk).len() == build_types.len()
            * flavors.len(),
        0 <= i * flavors.len() + j < build_types.len() * flavors.len(),
        variant_matrix(build_types, flavors, min_sdk, target_sdk)[i * flavors.len() + j]
            == flavored_variant(build_types[i], flavors[j], min_sdk, target_sdk),
{
    let cells = matrix_cells(build_types, flavors, min_sdk, target_sdk);
    law_table_size(build_types.len(), flavors.len(), cells);
    law_table_has_every_cell(build_types.len(), flavors.len(), cells, i, j);
}

/// Without flavors the matrix has one variant per build type.
pub proof fn law_build_types_alone_are_the_variants(
    build_types: Seq<Seq<char>>,
    min_sdk: i64,
    target_sdk: i64,
    i: int,
)
    requires
        0 <= i < build_types.len(),
    ensures
        variant_matrix(build_types, seq![], min_sdk, target_sdk).len() == build_types.len(),
        variant_matrix(build_types, seq![], min_sdk, target_sdk)[i] == plain_variant(
            build_types[i],
            min_sdk,
            target_sdk,
        ),
{
}

/// The variant of the build type `debug` is `Debug`.
proof fn lemma_debug_variant()
    ensures
        variant_name("debug"@, None) == "Debug"@,
{
    reveal_strlit("debug");
    reveal_strlit("Debug");
    lemma_pascal_case_of_one_word("debug"@);
    assert(ascii_upper('d') == 'D');
    assert(capitalized("debug"@) =~= "Debug"@);
}

/// The variant of the build type `release` is `Release`.
proof fn lemma_release_variant()
    ensures
        variant_name("release"@, None) == "Release"@,
{
    reveal_strlit("release");
    reveal_strlit("Release");
    lemma_pascal_case_of_one_word("release"@);
    assert(ascii_upper('r') == 'R');
    assert(capitalized("release"@) =~= "Release"@);
}

/// Without build types and flavors a module has the variants `Debug` and
/// `Release`.
#[verifier::spinoff_prover]
pub proof fn law_default_variants(config: JsonModel)
    requires
        config.get("buildTypes"@) is None,
        config.get("productFlavors"@) is None,
        module_variants(config) is Ok,
    ensures
        module_variants(config)->Ok_0.0.len() == 2,
        module_variants(config)->Ok_0.0[0].name == "Debug"@,
        module_variants(config)->Ok_0.0[1].name == "Release"@,
{
    lemma_debug_variant();
    lemma_release_variant();
}

/// The sources of a variant are all understood, no source comes twice, they
/// start with the module's own, and below an absolute project directory all
/// are absolute.
pub proof fn law_merged_sources_are_sound(
    base: Seq<Seq<char>>,
    project_dir: Seq<char>,
    selected: Seq<Seq<char>>,
    flavors: FlavorModels,
)
    requires
        merged_sources(base, project_dir, selected, flavors) is Ok,
    ensures
        merged_sources(base, project_dir, selected, flavors)->Ok_0.no_duplicates(),
        distinct(all_joined(project_dir, base)).is_prefix_of(
            merged_sources(base, project_dir, selected, flavors)->Ok_0,
        ),
        forall|i: int|
            0 <= i < merged_sources(base, project_dir, selected, flavors)->Ok_0.len()
                ==> is_accepted(
                #[trigger] merged_sources(base, project_dir, selected, flavors)->Ok_0[i],
            ),
        is_absolute(project_dir) ==> forall|i: int|
            0 <= i < merged_sources(base, project_dir, selected, flavors)->Ok_0.len()
                ==> is_absolute(
                #[trigger] merged_sources(base, project_dir, selected, flavors)->Ok_0[i],
            ),
{
    let paths = base + layered_sources(selected, flavors);
    let all = all_joined(project_dir, paths);
    let merged = distinct(all);
    law_distinct_keeps_each_text_once(all);
    law_distinct_keeps_the_front(
        all_joined(project_dir, base),
        all_joined(project_dir, layered_sources(selected, flavors)),
    );
    assert(all =~= all_joined(project_dir, base) + all_joined(
        project_dir,
        layered_sources(selected, flavors),
    ));
    law_sources_pass_when_each_is_accepted(merged);
    if is_absolute(project_dir) {
        assert forall|i: int| 0 <= i < merged.len() implies is_absolute(#[trigger] merged[i]) by {
            assert(merged.contains(merged[i]));
            assert(all.contains(merged[i]));
            let k = choose|k: int| 0 <= k < all.len() && all[k] == merged[i];
            law_join_below_an_absolute_base_is_absolute(project_dir, paths[k]);
        }
    }
}

/// A source that a selected flavor declares is among the variant's sources.
pub proof fn law_flavor_sources_are_merged(
    base: Seq<Seq<char>>,
    project_dir: Seq<char>,
    selected: Seq<Seq<char>>,
    flavors: FlavorModels,
    i: int,
    k: int,
)
    requires
        0 <= i < selected.len(),
        lookup(flavors, selected[i]) is Some,
        0 <= k < lookup(flavors, selected[i])->0.sources.len(),
    ensures
        effective_sources(base, project_dir, selected, flavors).contains(
            path_join(project_dir, lookup(flavors, selected[i])->0.sources[k]),
        ),
{
    let source = lookup(flavors, selected[i])->0.sources[k];
    let added = layered_sources(selected, flavors);
    lemma_layered_sources_hold(selected, flavors, i, k);
    let at = choose|at: int| 0 <= at < added.len() && added[at] == source;
    let all = all_joined(project_dir, base + added);
    assert(all[base.len() + at] == path_join(project_dir, source));
    assert(all.contains(path_join(project_dir, source)));
    law_distinct_keeps_each_text_once(all);
}

/// What a selected flavor declares is among what the flavors add.
proof fn lemma_layered_sources_hold(
    selected: Seq<Seq<char>>,
    flavors: FlavorModels,
    i: int,
    k: int,
)
    requires
        0 <= i < selected.len(),
        lookup(flavors, selected[i]) is Some,
        0 <= k < lookup(flavors, selected[i])->0.sources.len(),
    ensures
        layered_sources(selected, flavors).contains(
            lookup(flavors, selected[i])->0.sources[k],
        ),
    decreases selected.len(),
{
    let rest = selected.drop_last();
    let earlier = layered_sources(rest, flavors);
    let added = layered_sources(selected, flavors);
    let source = lookup(flavors, selected[i])->0.sources[k];
    if i < rest.len() {
        lemma_layered_sources_hold(rest, flavors, i, k);
        assert(rest[i] == selected[i]);
        let at = choose|at: int| 0 <= at < earlier.len() && earlier[at] == source;
        assert(added[at] == source);
    } else {
        assert(added[earlier.len() + k] == source);
    }
}

/// The keys of the flavors are keys of the block they were read from, in the
/// same order.
proof fn lemma_flavors_keep_the_order(
    entries: Seq<(Seq<char>, JsonModel)>,
    declared: Option<Seq<char>>,
)
    requires
        ascending(entries),
        parsed_flavors(entries, declared) is Ok,
    ensures
        ascending(parsed_flavors(entries, declared)->Ok_0),
        forall|k: int|
            0 <= k < parsed_flavors(entries, declared)->Ok_0.len() ==> exists|i: int|
                0 <= i < entries.len() && #[trigger] entries[i].0
                    == #[trigger] parsed_flavors(entries, declared)->Ok_0[k].0,
    decreases entries.len(),
{
    if entries.len() > 0 {
        let rest = entries.drop_last();
        lemma_flavors_keep_the_order(rest, declared);
        let earlier = parsed_flavors(rest, declared)->Ok_0;
        let flavors = parsed_flavors(entries, declared)->Ok_0;
        assert forall|k: int| 0 <= k < flavors.len() implies exists|i: int|
            0 <= i < entries.len() && #[trigger] entries[i].0 == #[trigger] flavors[k].0 by {
            if k < earlier.len() {
                let i = choose|i: int|
                    0 <= i < rest.len() && #[trigger] rest[i].0 == #[trigger] earlier[k].0;
                assert(entries[i].0 == flavors[k].0);
            } else {
                assert(entries[entries.len() - 1].0 == flavors[k].0);
            }
        }
        assert forall|a: int, b: int| 0 <= a < b < flavors.len() implies before(
            #[trigger] flavors[a].0,
            #[trigger] flavors[b].0,
        ) by {
            if b < earlier.len() {
                assert(before(earlier[a].0, earlier[b].0));
            } else {
                let i = choose|i: int|
                    0 <= i < rest.len() && #[trigger] rest[i].0 == #[trigger] earlier[a].0;
                assert(before(entries[i].0, entries[entries.len() - 1].0));
            }
        }
    }
}

/// Reads a flavor's own `minSdk`.
fn read_flavor_min_sdk(name: &str, block: &Json) -> (r: Result<Option<i64>, String>)
    ensures
        plain_result(r) == flavor_min_sdk(name@, block@),
{
    match block.get("minSdk") {
        None => Ok(None),
        Some(value) => match value.as_i64() {
            Some(n) => Ok(Some(n)),
            None => Err(flavor_message(name, "' minSdk must be an integer")),
        },
    }
}

/// Reads a flavor's own sources.
fn read_flavor_sources(name: &str, block: &Json) -> (r: Result<Vec<String>, String>)
    ensures
        texts_result(r) == flavor_sources(name@, block@),
{
    match block.get("sources") {
        None => Ok(no_texts()),
        Some(value) => match value.as_array() {
            None => Err(flavor_message(name, "' sources must be a list of strings")),
            Some(items) => match read_strings(items) {
                None => Err(flavor_message(name, "' sources must be strings")),
                Some(list) => Ok(list),
            },
        },
    }
}

/// Reads the suffix a flavor appends to the application id.
fn read_flavor_suffix(block: &Json) -> (r: String)
    ensures
        r@ == flavor_suffix(block@),
{
    match block.str_at("applicationIdSuffix") {
        Some(suffix) => suffix.to_owned(),
        None => String::new(),
    }
}

/// Reads one flavor from its block.
fn read_flavor(name: &str, block: &Json, declared: Option<&str>) -> (r: Result<FlavorInfo, String>)
    ensures
        match r {
            Ok(flavor) => flavor_of(name@, block@, optional_text(declared)) == Ok::<_, Seq<char>>(
                flavor@,
            ),
            Err(e) => flavor_of(name@, block@, optional_text(declared)) == Err::<FlavorModel, _>(
                e@,
            ),
        },
{
    let dimension = match read_flavor_dimension(name, block, declared) {
        Ok(dimension) => dimension,
        Err(e) => return Err(e),
    };
    let min_sdk = match read_flavor_min_sdk(name, block) {
        Ok(min_sdk) => min_sdk,
        Err(e) => return Err(e),
    };
    let sources = match read_flavor_sources(name, block) {
        Ok(sources) => sources,
        Err(e) => return Err(e),
    };
    Ok(
        FlavorInfo {
            dimension,
            min_sdk,
            application_id_suffix: read_flavor_suffix(block),
            sources,
        },
    )
}

/// A fallible map of flavors, by its model.
pub open spec fn flavors_result(r: Result<SortedMap<FlavorInfo>, String>) -> Result<
    FlavorModels,
    Seq<char>,
> {
    match r {
        Ok(flavors) => Ok(flavors@),
        Err(e) => Err(e@),
    }
}

/// Reads the flavors among the entries of a `productFlavors` block.
fn parse_flavors(entries: &SortedMap<Json>, declared: Option<&str>) -> (r: Result<
    SortedMap<FlavorInfo>,
    String,
>)
    ensures
        flavors_result(r) == parsed_flavors(entries@, optional_text(declared)),
{
    let ghost all = entries@;
    let ghost dimension = optional_text(declared);
    let mut flavors: SortedMap<FlavorInfo> = SortedMap::new();
    let count: usize = entries.len();
    let mut i: usize = 0;
    while i < count
        invariant
            i <= count,
            all == entries@,
            count == all.len(),
            ascending(all),
            dimension == optional_text(declared),
            parsed_flavors(all.take(i as int), dimension) == Ok::<_, Seq<char>>(flavors@),
        decreases count - i,
    {
        let ghost front = all.take(i as int);
        let ghost next = all.take(i + 1);
        assert(next.drop_last() == front);
        assert(next.last() == all[i as int]);
        let name = entries.key_at(i);
        if !same_text(name.as_str(), "dimension") {
            match read_flavor(name.as_str(), entries.value_at(i), declared) {
                Ok(flavor) => {
                    proof {
                        lemma_flavors_keep_the_order(front, dimension);
                        assert forall|k: int| 0 <= k < flavors@.len() implies before(
                            #[trigger] flavors@[k].0,
                            name@,
                        ) by {
                            let j = choose|j: int|
                                0 <= j < front.len() && #[trigger] front[j].0
                                    == #[trigger] flavors@[k].0;
                            assert(before(all[j].0, all[i as int].0));
                        }
                        lemma_inserted_at_the_end(flavors@, name@, flavor@);
                    }
                    flavors.insert(name.clone(), flavor);
                },
                Err(e) => {
                    proof {
                        lemma_fault_stays(all, dimension, i + 1);
                    }
                    return Err(e);
                },
            }
        }
        i = i + 1;
    }
    assert(all.take(i as int) == all);
    Ok(flavors)
}

/// What is wrong with the front of a block is what is wrong with the block.
proof fn lemma_fault_stays(
    entries: Seq<(Seq<char>, JsonModel)>,
    declared: Option<Seq<char>>,
    n: int,
)
    requires
        0 <= n <= entries.len(),
        parsed_flavors(entries.take(n), declared) is Err,
    ensures
        parsed_flavors(entries, declared) == parsed_flavors(entries.take(n), declared),
    decreases entries.len() - n,
{
    if n < entries.len() {
        assert(entries.take(n + 1).drop_last() == entries.take(n));
        lemma_fault_stays(entries, declared, n + 1);
    } else {
        assert(entries.take(n) == entries);
    }
}

/// Rejects a flavor whose dimension is empty.
fn reject_empty_dimensions(flavors: &SortedMap<FlavorInfo>) -> (r: Result<(), String>)
    ensures
        plain_result(r) == checked_dimensions(flavors@),
{
    let ghost all = flavors@;
    let count: usize = flavors.len();
    let mut i: usize = 0;
    assert(all.skip(0) == all);
    while i < count
        invariant
            i <= count,
            all == flavors@,
            count == all.len(),
            checked_dimensions(all) == checked_dimensions(all.skip(i as int)),
        decreases count - i,
    {
        assert(all.skip(i as int)[0] == all[i as int]);
        if flavors.value_at(i).dimension.as_str().unicode_len() == 0 {
            return Err(
                flavor_message(flavors.key_at(i).as_str(), "' has an empty 'dimension'"),
            );
        }
        assert(all.skip(i as int).drop_first() == all.skip(i + 1));
        i = i + 1;
    }
    Ok(())
}

/// Reads the flavors of a module.
fn read_flavors(config: &Json) -> (r: Result<SortedMap<FlavorInfo>, String>)
    ensures
        flavors_result(r) == module_flavors(config@),
{
    match read_flavor_entries(config) {
        Err(e) => Err(e),
        Ok(None) => Ok(SortedMap::new()),
        Ok(Some(entries)) => match parse_flavors(entries, read_declared_dimension(entries)) {
            Err(e) => Err(e),
            Ok(flavors) => match reject_empty_dimensions(&flavors) {
                Err(e) => Err(e),
                Ok(()) => Ok(flavors),
            },
        },
    }
}

/// Every build type as a variant of its own.
fn plain_variants(build_types: &[String], min_sdk: i64, target_sdk: i64) -> (r: Vec<Variant>)
    ensures
        variant_models(r@) == texts(build_types@).map_values(
            |build_type: Seq<char>| plain_variant(build_type, min_sdk, target_sdk),
        ),
{
    let ghost wanted = texts(build_types@).map_values(
        |build_type: Seq<char>| plain_variant(build_type, min_sdk, target_sdk),
    );
    let mut variants: Vec<Variant> = Vec::new();
    let mut i: usize = 0;
    while i < build_types.len()
        invariant
            i <= build_types@.len(),
            wanted == texts(build_types@).map_values(
                |build_type: Seq<char>| plain_variant(build_type, min_sdk, target_sdk),
            ),
            variant_models(variants@) == wanted.take(i as int),
        decreases build_types@.len() - i,
    {
        let build_type = build_types[i].as_str();
        let variant_dir = name_directory(build_type, None);
        let variant = Variant {
            name: name_variant(build_type, None),
            min_sdk,
            target_sdk,
            application_id_suffix: String::new(),
            apk_filename: name_apk(variant_dir.as_str()),
            variant_dir,
            flavors: no_texts(),
        };
        assert(variant@ == wanted[i as int]);
        let ghost earlier = variants@;
        variants.push(variant);
        i = i + 1;
        assert(variant_models(variants@) =~= variant_models(earlier).push(wanted[i - 1]));
        assert(wanted.take(i as int) =~= wanted.take(i - 1).push(wanted[i - 1]));
    }
    assert(wanted.take(i as int) == wanted);
    variants
}

/// One build type with one flavor.
fn flavor_variant(
    build_type: &str,
    flavor_name: &str,
    flavor: &FlavorInfo,
    min_sdk: i64,
    target_sdk: i64,
) -> (r: Variant)
    ensures
        r@ == flavored_variant(build_type@, (flavor_name@, flavor@), min_sdk, target_sdk),
{
    let variant_dir = name_directory(build_type, Some(flavor_name));
    Variant {
        name: name_variant(build_type, Some(flavor_name)),
        min_sdk: match flavor.min_sdk {
            Some(own) => own,
            None => min_sdk,
        },
        target_sdk,
        application_id_suffix: flavor.application_id_suffix.clone(),
        apk_filename: name_apk(variant_dir.as_str()),
        variant_dir,
        flavors: one_text(flavor_name),
    }
}

/// Every build type crossed with every flavor.
fn crossed_variants(
    build_types: &[String],
    flavors: &SortedMap<FlavorInfo>,
    min_sdk: i64,
    target_sdk: i64,
) -> (r: Vec<Variant>)
    ensures
        variant_models(r@) == crossed(
            texts(build_types@).len(),
            flavors@.len(),
            matrix_cells(texts(build_types@), flavors@, min_sdk, target_sdk),
        ),
{
    let ghost names = texts(build_types@);
    let ghost cells = matrix_cells(names, flavors@, min_sdk, target_sdk);
    let count: usize = flavors.len();
    let mut variants: Vec<Variant> = Vec::new();
    let mut i: usize = 0;
    assert(variant_models(variants@) =~= crossed(0, count as nat, cells));
    while i < build_types.len()
        invariant
            i <= build_types@.len(),
            count == flavors@.len(),
            names == texts(build_types@),
            cells == matrix_cells(names, flavors@, min_sdk, target_sdk),
            variant_models(variants@) == crossed(i as nat, count as nat, cells),
        decreases build_types@.len() - i,
    {
        let ghost above = crossed(i as nat, count as nat, cells);
        let mut j: usize = 0;
        assert(above + row(0, i as int, cells) =~= above);
        while j < count
            invariant
                i < build_types@.len(),
                j <= count,
                count == flavors@.len(),
                names == texts(build_types@),
                cells == matrix_cells(names, flavors@, min_sdk, target_sdk),
                variant_models(variants@) == above + row(j as nat, i as int, cells),
            decreases count - j,
        {
            let variant = flavor_variant(
                build_types[i].as_str(),
                flavors.key_at(j).as_str(),
                flavors.value_at(j),
                min_sdk,
                target_sdk,
            );
            assert(variant@ == cells(i as int, j as int));
            let ghost earlier = variants@;
            variants.push(variant);
            j = j + 1;
            assert(variant_models(variants@) =~= variant_models(earlier).push(variant@));
            assert(above + row(j as nat, i as int, cells) =~= (above + row(
                (j - 1) as nat,
                i as int,
                cells,
            )).push(cells(i as int, j - 1)));
        }
        i = i + 1;
    }
    variants
}

/// Adds to a list of resolved paths those of `paths` that it does not hold.
/// `earlier` is the list of paths that were added before.
fn merge_resolved(
    merged: &mut Vec<String>,
    paths: &[String],
    project_dir: &str,
    Ghost(earlier): Ghost<Seq<Seq<char>>>,
)
    requires
        texts(old(merged)@) == distinct(all_joined(project_dir@, earlier)),
    ensures
        texts(final(merged)@) == distinct(all_joined(project_dir@, earlier + texts(paths@))),
{
    let ghost added = texts(paths@);
    let mut i: usize = 0;
    assert(earlier + added.take(0) =~= earlier);
    while i < paths.len()
        invariant
            i <= paths@.len(),
            added == texts(paths@),
            texts(merged@) == distinct(
                all_joined(project_dir@, earlier + added.take(i as int)),
            ),
        decreases paths@.len() - i,
    {
        let path = resolve_path(project_dir, paths[i].as_str());
        push_distinct(merged, path.as_str());
        i = i + 1;
        let ghost longer = all_joined(project_dir@, earlier + added.take(i as int));
        assert(longer.drop_last() =~= all_joined(project_dir@, earlier + added.take(i - 1)));
        assert(longer.last() == path@);
    }
    assert(added.take(i as int) == added);
}

/// Computes the variant matrix: build types crossed with product flavors.
///
/// Without `buildTypes` the build types are `debug` and `release`; without
/// flavors each build type stands alone. A flavor's `minSdk` overrides the
/// module's. The flavors are returned along with the variants.
pub fn compute_variants(config: &Json) -> (r: Result<
    (Vec<Variant>, SortedMap<FlavorInfo>),
    String,
>)
    ensures
        matrix_result(r) == module_variants(config@),
{
    let android = match config.get("android") {
        Some(android) => android,
        None => return Err("module config has no 'android' block".to_owned()),
    };
    let min_sdk: i64 = match int_value(android, "minSdk") {
        Ok(n) => n,
        Err(e) => return Err(e),
    };
    let compile_sdk: i64 = match int_value(android, "compileSdk") {
        Ok(n) => n,
        Err(e) => return Err(e),
    };
    let target_sdk: i64 = match optional_int(android, "targetSdk") {
        Ok(Some(n)) => n,
        Ok(None) => compile_sdk,
        Err(e) => return Err(e),
    };
    let names = match read_build_types(config) {
        Ok(names) => names,
        Err(e) => return Err(e),
    };
    let flavors = match read_flavors(config) {
        Ok(flavors) => flavors,
        Err(e) => return Err(e),
    };
    let variants = if flavors.len() == 0 {
        plain_variants(&names, min_sdk, target_sdk)
    } else {
        crossed_variants(&names, &flavors, min_sdk, target_sdk)
    };
    Ok((variants, flavors))
}

/// Merges a variant's effective sources: the module's own followed by those of
/// every selected flavor, resolved against the project directory, each once
/// where it comes first. The extensions are checked on the merged list, so a
/// flavor cannot bring in a file no compiler understands.
pub fn merge_variant_sources(
    base: &[String],
    project_dir: &str,
    selected_flavors: &[String],
    flavor_infos: &SortedMap<FlavorInfo>,
) -> (r: Result<Vec<String>, String>)
    ensures
        texts_result(r) == merged_sources(
            texts(base@),
            project_dir@,
            texts(selected_flavors@),
            flavor_infos@,
        ),
{
    let ghost selected = texts(selected_flavors@);
    let ghost flavors = flavor_infos@;
    let mut merged = no_texts();
    merge_resolved(&mut merged, base, project_dir, Ghost(Seq::empty()));
    assert(Seq::<Seq<char>>::empty() + texts(base@) =~= texts(base@));
    assert(texts(base@) + layered_sources(seq![], flavors) =~= texts(base@));
    let mut i: usize = 0;
    while i < selected_flavors.len()
        invariant
            i <= selected_flavors@.len(),
            selected == texts(selected_flavors@),
            flavors == flavor_infos@,
            texts(merged@) == effective_sources(
                texts(base@),
                project_dir@,
                selected.take(i as int),
                flavors,
            ),
        decreases selected_flavors@.len() - i,
    {
        let ghost earlier = texts(base@) + layered_sources(selected.take(i as int), flavors);
        assert(selected.take(i + 1).drop_last() == selected.take(i as int));
        match flavor_infos.get(selected_flavors[i].as_str()) {
            Some(info) => {
                merge_resolved(&mut merged, &info.sources, project_dir, Ghost(earlier));
                assert(earlier + texts(info.sources@) =~= texts(base@) + layered_sources(
                    selected.take(i + 1),
                    flavors,
                ));
            },
            None => {},
        }
        i = i + 1;
    }
    assert(selected.take(i as int) == selected);
    match reject_unknown_extensions(&merged) {
        Err(e) => Err(e),
        Ok(()) => Ok(merged),
    }
}

} // verus!
