//! The variants of a module's Android target.

use crate::blocks::{read_int, required_int};
use crate::json::{Json, JsonModel, SortedMap};
use crate::text::{no_texts, optional_text, push_text, same_text, texts, texts_result};
use crate::variants::{
    apk_name, build_types, crossed, declared_dimension, flavor_dimension, flavor_entries, name_apk,
    name_directory, name_variant, read_build_types, read_declared_dimension, read_flavor_dimension,
    read_flavor_entries, row, variant_directory, variant_name,
};
use vstd::prelude::*;

verus! {

/// One cell of the variant matrix.
#[derive(Debug)]
pub struct Variant {
    /// PascalCase name that task names end in.
    pub name: String,
    /// Directory name of the variant's build products.
    pub variant_dir: String,
    /// The lowest API level the variant runs on.
    pub min_sdk: i64,
    /// File name of the variant's APK.
    pub apk_filename: String,
}

/// The mathematical counterpart of [`Variant`].
pub struct VariantModel {
    pub name: Seq<char>,
    pub variant_dir: Seq<char>,
    pub min_sdk: i64,
    pub apk_filename: Seq<char>,
}

impl View for Variant {
    type V = VariantModel;

    open spec fn view(&self) -> VariantModel {
        VariantModel {
            name: self.name@,
            variant_dir: self.variant_dir@,
            min_sdk: self.min_sdk,
            apk_filename: self.apk_filename@,
        }
    }
}

/// The variants of a list, by their models.
pub open spec fn variant_models(variants: Seq<Variant>) -> Seq<VariantModel> {
    variants.map_values(|variant: Variant| variant@)
}

/// A fallible list of variants, by their models.
pub open spec fn variants_result(r: Result<Vec<Variant>, String>) -> Result<
    Seq<VariantModel>,
    Seq<char>,
> {
    match r {
        Ok(variants) => Ok(variant_models(variants@)),
        Err(e) => Err(e@),
    }
}

/// The names of the flavors among the entries of a `productFlavors` block: all
/// but the entry that declares the dimension. The first one that is wrong is
/// reported.
pub open spec fn flavor_names(
    entries: Seq<(Seq<char>, JsonModel)>,
    declared: Option<Seq<char>>,
) -> Result<Seq<Seq<char>>, Seq<char>>
    decreases entries.len(),
{
    if entries.len() == 0 {
        Ok(seq![])
    } else {
        match flavor_names(entries.drop_last(), declared) {
            Err(e) => Err(e),
            Ok(names) => {
                let (name, block) = entries.last();
                if name == "dimension"@ {
                    Ok(names)
                } else {
                    match flavor_dimension(name, block, declared) {
                        Err(e) => Err(e),
                        Ok(_) => Ok(names.push(name)),
                    }
                }
            },
        }
    }
}

/// The names of a module's flavors.
pub open spec fn module_flavors(config: JsonModel) -> Result<Seq<Seq<char>>, Seq<char>> {
    match flavor_entries(config) {
        Err(e) => Err(e),
        Ok(None) => Ok(seq![]),
        Ok(Some(entries)) => flavor_names(entries, declared_dimension(entries)),
    }
}

/// The `minSdk` that one entry of a block of blocks sets.
pub open spec fn own_min_sdk(config: JsonModel, block: Seq<char>, name: Seq<char>) -> Option<i64> {
    match config.get(block) {
        None => None,
        Some(entries) => match entries.get(name) {
            None => None,
            Some(entry) => entry.i64_at("minSdk"@),
        },
    }
}

/// The lowest API level of a build type without a flavor.
pub open spec fn plain_min_sdk(config: JsonModel, build_type: Seq<char>, base: i64) -> i64 {
    match own_min_sdk(config, "buildTypes"@, build_type) {
        Some(n) => n,
        None => base,
    }
}

/// The lowest API level of a build type with a flavor: the flavor's own, or that
/// of the build type.
pub open spec fn flavored_min_sdk(
    config: JsonModel,
    build_type: Seq<char>,
    flavor: Seq<char>,
    base: i64,
) -> i64 {
    match own_min_sdk(config, "productFlavors"@, flavor) {
        Some(n) => n,
        None => plain_min_sdk(config, build_type, base),
    }
}

/// The variant of a build type on its own.
pub open spec fn plain_variant(config: JsonModel, build_type: Seq<char>, base: i64) -> VariantModel {
    let directory = variant_directory(build_type, None);
    VariantModel {
        name: variant_name(build_type, None),
        variant_dir: directory,
        min_sdk: plain_min_sdk(config, build_type, base),
        apk_filename: apk_name(directory),
    }
}

/// The variant of a build type with a flavor.
pub open spec fn flavored_variant(
    config: JsonModel,
    build_type: Seq<char>,
    flavor: Seq<char>,
    base: i64,
) -> VariantModel {
    let directory = variant_directory(build_type, Some(flavor));
    VariantModel {
        name: variant_name(build_type, Some(flavor)),
        variant_dir: directory,
        min_sdk: flavored_min_sdk(config, build_type, flavor, base),
        apk_filename: apk_name(directory),
    }
}

/// The cells of the matrix of build types and flavors.
pub open spec fn matrix_cells(
    config: JsonModel,
    build_types: Seq<Seq<char>>,
    flavors: Seq<Seq<char>>,
    base: i64,
) -> spec_fn(int, int) -> VariantModel {
    |i: int, j: int| flavored_variant(config, build_types[i], flavors[j], base)
}

/// Every build type on its own, or crossed with every flavor where there are
/// flavors.
pub open spec fn variant_matrix(
    config: JsonModel,
    build_types: Seq<Seq<char>>,
    flavors: Seq<Seq<char>>,
    base: i64,
) -> Seq<VariantModel> {
    if flavors.len() == 0 {
        build_types.map_values(|build_type: Seq<char>| plain_variant(config, build_type, base))
    } else {
        crossed(
            build_types.len(),
            flavors.len(),
            matrix_cells(config, build_types, flavors, base),
        )
    }
}

/// The variants of a module.
pub open spec fn module_variants(config: JsonModel) -> Result<Seq<VariantModel>, Seq<char>> {
    match config.get("android"@) {
        None => Err("module config has no 'android' block"@),
        Some(android) => match required_int(android, "android"@, "minSdk"@) {
            Err(e) => Err(e),
            Ok(base) => match build_types(config) {
                Err(e) => Err(e),
                Ok(names) => match module_flavors(config) {
                    Err(e) => Err(e),
                    Ok(flavors) => Ok(variant_matrix(config, names, flavors, base)),
                },
            },
        },
    }
}

/// What is wrong with the front of a block is what is wrong with the block.
proof fn lemma_fault_stays(
    entries: Seq<(Seq<char>, JsonModel)>,
    declared: Option<Seq<char>>,
    n: int,
)
    requires
        0 <= n <= entries.len(),
        flavor_names(entries.take(n), declared) is Err,
    ensures
        flavor_names(entries, declared) == flavor_names(entries.take(n), declared),
    decreases entries.len() - n,
{
    if n < entries.len() {
        assert(entries.take(n + 1).drop_last() == entries.take(n));
        lemma_fault_stays(entries, declared, n + 1);
    } else {
        assert(entries.take(n) == entries);
    }
}

/// Reads the names of the flavors among the entries of a `productFlavors` block.
fn read_names(entries: &SortedMap<Json>, declared: Option<&str>) -> (r: Result<
    Vec<String>,
    String,
>)
    ensures
        texts_result(r) == flavor_names(entries@, optional_text(declared)),
{
    let ghost all = entries@;
    let ghost dimension = optional_text(declared);
    let mut names = no_texts();
    let count: usize = entries.len();
    let mut i: usize = 0;
    while i < count
        invariant
            i <= count,
            all == entries@,
            count == all.len(),
            dimension == optional_text(declared),
            flavor_names(all.take(i as int), dimension) == Ok::<_, Seq<char>>(texts(names@)),
        decreases count - i,
    {
        assert(all.take(i + 1).drop_last() == all.take(i as int));
        assert(all.take(i + 1).last() == all[i as int]);
        let name = entries.key_at(i);
        if !same_text(name.as_str(), "dimension") {
            match read_flavor_dimension(name.as_str(), entries.value_at(i), declared) {
                Ok(_) => push_text(&mut names, name.as_str()),
                Err(e) => {
                    proof {
                        lemma_fault_stays(all, dimension, i + 1);
                    }
                    return Err(e);
                },
            }
        }
        i = i + 1;
    }
    assert(all.take(i as int) == all);
    Ok(names)
}

/// Reads the names of a module's flavors.
fn read_flavors(config: &Json) -> (r: Result<Vec<String>, String>)
    ensures
        texts_result(r) == module_flavors(config@),
{
    match read_flavor_entries(config) {
        Err(e) => Err(e),
        Ok(None) => Ok(no_texts()),
        Ok(Some(entries)) => read_names(entries, read_declared_dimension(entries)),
    }
}

/// Reads the `minSdk` that one entry of a block of blocks sets.
fn read_own_min_sdk(config: &Json, block: &str, name: &str) -> (r: Option<i64>)
    ensures
        r == own_min_sdk(config@, block@, name@),
{
    match config.get(block) {
        None => None,
        Some(entries) => match entries.get(name) {
            None => None,
            Some(entry) => entry.i64_at("minSdk"),
        },
    }
}

/// One build type, with or without a flavor.
fn make_variant(build_type: &str, flavor: Option<&str>, min_sdk: i64) -> (r: Variant)
    ensures
        r@ == (VariantModel {
            name: variant_name(build_type@, optional_text(flavor)),
            variant_dir: variant_directory(build_type@, optional_text(flavor)),
            min_sdk,
            apk_filename: apk_name(variant_directory(build_type@, optional_text(flavor))),
        }),
{
    let variant_dir = name_directory(build_type, flavor);
    Variant {
        name: name_variant(build_type, flavor),
        min_sdk,
        apk_filename: name_apk(variant_dir.as_str()),
        variant_dir,
    }
}

/// The lowest API level of a build type without a flavor.
fn read_plain_min_sdk(config: &Json, build_type: &str, base: i64) -> (r: i64)
    ensures
        r == plain_min_sdk(config@, build_type@, base),
{
    match read_own_min_sdk(config, "buildTypes", build_type) {
        Some(n) => n,
        None => base,
    }
}

/// Every build type as a variant of its own.
fn plain_variants(config: &Json, build_types: &[String], base: i64) -> (r: Vec<Variant>)
    ensures
        variant_models(r@) == texts(build_types@).map_values(
            |build_type: Seq<char>| plain_variant(config@, build_type, base),
        ),
{
    let ghost wanted = texts(build_types@).map_values(
        |build_type: Seq<char>| plain_variant(config@, build_type, base),
    );
    let mut variants: Vec<Variant> = Vec::new();
    let mut i: usize = 0;
    while i < build_types.len()
        invariant
            i <= build_types@.len(),
            wanted == texts(build_types@).map_values(
                |build_type: Seq<char>| plain_variant(config@, build_type, base),
            ),
            variant_models(variants@) == wanted.take(i as int),
        decreases build_types@.len() - i,
    {
        let build_type = build_types[i].as_str();
        let min_sdk: i64 = read_plain_min_sdk(config, build_type, base);
        let variant = make_variant(build_type, None, min_sdk);
        assert(variant@ == wanted[i as int]);
        let ghost earlier = variants@;
        variants.push(variant);
        i = i + 1;
        assert(variant_models(variants@) =~= variant_models(earlier).push(wanted[i - 1]));
        assert(wanted.take(i as int) =~= wanted.take(i - 1).push(wanted[i - 1]));
    }
    assert(wanted.take(i as int) == wanted);
    variants
}

/// Every build type crossed with every flavor.
fn crossed_variants(
    config: &Json,
    build_types: &[String],
    flavors: &[String],
    base: i64,
) -> (r: Vec<Variant>)
    ensures
        variant_models(r@) == crossed(
            texts(build_types@).len(),
            texts(flavors@).len(),
            matrix_cells(config@, texts(build_types@), texts(flavors@), base),
        ),
{
    let ghost rows = texts(build_types@);
    let ghost columns = texts(flavors@);
    let ghost cells = matrix_cells(config@, rows, columns, base);
    let mut variants: Vec<Variant> = Vec::new();
    let mut i: usize = 0;
    assert(variant_models(variants@) =~= crossed(0, columns.len(), cells));
    while i < build_types.len()
        invariant
            i <= build_types@.len(),
            rows == texts(build_types@),
            columns == texts(flavors@),
            cells == matrix_cells(config@, rows, columns, base),
            variant_models(variants@) == crossed(i as nat, columns.len(), cells),
        decreases build_types@.len() - i,
    {
        let ghost above = crossed(i as nat, columns.len(), cells);
        let build_type = build_types[i].as_str();
        let mut j: usize = 0;
        assert(above + row(0, i as int, cells) =~= above);
        while j < flavors.len()
            invariant
                i < build_types@.len(),
                j <= flavors@.len(),
                build_type@ == rows[i as int],
                columns == texts(flavors@),
                cells == matrix_cells(config@, rows, columns, base),
                variant_models(variants@) == above + row(j as nat, i as int, cells),
            decreases flavors@.len() - j,
        {
            let flavor = flavors[j].as_str();
            let min_sdk: i64 = match read_own_min_sdk(config, "productFlavors", flavor) {
                Some(n) => n,
                None => read_plain_min_sdk(config, build_type, base),
            };
            let variant = make_variant(build_type, Some(flavor), min_sdk);
            assert(variant@ == cells(i as int, j as int));
            let ghost earlier = variants@;
            variants.push(variant);
            j = j + 1;
            assert(variant_models(variants@) =~= variant_models(earlier).push(variant@));
            assert(above + row(j as nat, i as int, cells) =~= (above + row(
                (j - 1) as nat,
                i as int,
                cells,
            )).push(cells(i as int, j - 1)));
        }
        i = i + 1;
    }
    variants
}

/// Computes the variant matrix of the Android target: build types crossed with
/// product flavors. A flavor's `minSdk` overrides that of the build type, which
/// overrides that of the module.
pub fn compute_variants(config: &Json) -> (r: Result<Vec<Variant>, String>)
    ensures
        variants_result(r) == module_variants(config@),
{
    let android = match config.get("android") {
        Some(android) => android,
        None => return Err("module config has no 'android' block".to_owned()),
    };
    let base: i64 = match read_int(android, "android", "minSdk") {
        Ok(n) => n,
        Err(e) => return Err(e),
    };
    let names = match read_build_types(config) {
        Ok(names) => names,
        Err(e) => return Err(e),
    };
    let flavors = match read_flavors(config) {
        Ok(flavors) => flavors,
        Err(e) => return Err(e),
    };
    let variants = if flavors.len() == 0 {
        plain_variants(config, &names, base)
    } else {
        crossed_variants(config, &names, &flavors, base)
    };
    Ok(variants)
}

} // verus!
