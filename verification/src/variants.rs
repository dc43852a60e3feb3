//! Build variants: build types crossed with product flavors, and how each
//! variant is named.

use crate::json::{keys_of, lookup, Json, JsonModel, SortedMap};
use crate::letter_case::{lowercase, lowercase_text, pascal_case, to_pascal_case};
use crate::path::{join_path, path_join};
use crate::text::{
    concat, concat3, no_texts, optional_text, push_text, text_result, texts, texts_result,
    two_texts,
};
use vstd::prelude::*;

verus! {

/// The name of a variant, as task names end in it.
pub open spec fn variant_name(build_type: Seq<char>, flavor: Option<Seq<char>>) -> Seq<char> {
    match flavor {
        None => pascal_case(build_type),
        Some(flavor) => pascal_case(build_type) + pascal_case(flavor),
    }
}

/// The directory name of a variant's build products.
pub open spec fn variant_directory(
    build_type: Seq<char>,
    flavor: Option<Seq<char>>,
) -> Seq<char> {
    match flavor {
        None => lowercase(pascal_case(build_type)),
        Some(flavor) => lowercase(pascal_case(build_type)) + pascal_case(flavor),
    }
}

/// The file name of the APK built in a variant's directory.
pub open spec fn apk_name(directory: Seq<char>) -> Seq<char> {
    "app-"@ + directory + ".apk"@
}

/// The directory of the products that all variants share.
pub open spec fn shared_build(project_dir: Seq<char>) -> Seq<char> {
    path_join(project_dir, "build/android"@)
}

/// The directory of a variant's build products.
pub open spec fn variant_build(project_dir: Seq<char>, directory: Seq<char>) -> Seq<char> {
    path_join(path_join(project_dir, "build"@), directory)
}

/// The file the keystore password is written to.
pub open spec fn ks_password_path(project_dir: Seq<char>) -> Seq<char> {
    path_join(shared_build(project_dir), "ks-password.txt"@)
}

/// The file the key password is written to.
pub open spec fn key_password_path(project_dir: Seq<char>) -> Seq<char> {
    path_join(shared_build(project_dir), "key-password.txt"@)
}

/// The cells of a table, row by row.
pub open spec fn crossed<V>(rows: nat, columns: nat, cell: spec_fn(int, int) -> V) -> Seq<V>
    decreases rows,
{
    if rows == 0 {
        seq![]
    } else {
        crossed((rows - 1) as nat, columns, cell) + row(columns, rows - 1, cell)
    }
}

/// The first cells of one row of a table.
pub open spec fn row<V>(columns: nat, i: int, cell: spec_fn(int, int) -> V) -> Seq<V> {
    Seq::new(columns, |j: int| cell(i, j))
}

/// A table has as many cells as rows times columns.
pub proof fn law_table_size<V>(rows: nat, columns: nat, cell: spec_fn(int, int) -> V)
    ensures
        crossed(rows, columns, cell).len() == rows * columns,
    decreases rows,
{
    if rows > 0 {
        let above = (rows - 1) as nat;
        law_table_size(above, columns, cell);
        assert(rows * columns == above * columns + columns) by (nonlinear_arith)
            requires
                rows == above + 1,
        ;
    } else {
        assert(rows * columns == 0) by (nonlinear_arith)
            requires
                rows == 0,
        ;
    }
}

/// Each row and column of a table has its cell, row by row.
pub proof fn law_table_has_every_cell<V>(
    rows: nat,
    columns: nat,
    cell: spec_fn(int, int) -> V,
    i: int,
    j: int,
)
    requires
        0 <= i < rows,
        0 <= j < columns,
    ensures
        0 <= i * columns + j < rows * columns,
        crossed(rows, columns, cell)[i * columns + j] == cell(i, j),
    decreases rows,
{
    let above = (rows - 1) as nat;
    law_table_size(above, columns, cell);
    assert(rows * columns == above * columns + columns) by (nonlinear_arith)
        requires
            rows == above + 1,
    ;
    if i < above {
        law_table_has_every_cell(above, columns, cell, i, j);
    } else {
        assert(0 <= above * columns) by (nonlinear_arith);
    }
}

/// Each entry of a table is the cell of some row and column.
pub proof fn lemma_every_cell_of_a_table<V>(
    rows: nat,
    columns: nat,
    cell: spec_fn(int, int) -> V,
    k: int,
)
    requires
        0 <= k < crossed(rows, columns, cell).len(),
    ensures
        exists|i: int, j: int|
            0 <= i < rows && 0 <= j < columns && crossed(rows, columns, cell)[k]
                == #[trigger] cell(i, j),
    decreases rows,
{
    let above = crossed((rows - 1) as nat, columns, cell);
    if k < above.len() {
        lemma_every_cell_of_a_table((rows - 1) as nat, columns, cell, k);
    } else {
        assert(crossed(rows, columns, cell)[k] == cell(rows - 1, k - above.len()));
    }
}

/// The names of the module's build types: the keys of `buildTypes`, or `debug`
/// and `release` where there is no such block.
pub open spec fn build_types(config: JsonModel) -> Result<Seq<Seq<char>>, Seq<char>> {
    match config.get("buildTypes"@) {
        None => Ok(seq!["debug"@, "release"@]),
        Some(block) => match block.as_object() {
            None => Err("'buildTypes' must be a block"@),
            Some(entries) => Ok(keys_of(entries)),
        },
    }
}

/// The module's `productFlavors` block; nothing where there is none.
pub open spec fn flavor_entries(config: JsonModel) -> Result<
    Option<Seq<(Seq<char>, JsonModel)>>,
    Seq<char>,
> {
    match config.get("productFlavors"@) {
        None => Ok(None),
        Some(block) => match block.as_object() {
            None => Err("'productFlavors' must be a block"@),
            Some(entries) => Ok(Some(entries)),
        },
    }
}

/// The dimension declared for all flavors together.
pub open spec fn declared_dimension(entries: Seq<(Seq<char>, JsonModel)>) -> Option<Seq<char>> {
    match lookup(entries, "dimension"@) {
        None => None,
        Some(value) => value.as_str(),
    }
}

/// A sentence about one flavor.
pub open spec fn about_flavor(name: Seq<char>, rest: Seq<char>) -> Seq<char> {
    "flavor '"@ + name + rest
}

/// A flavor's own dimension, or the one declared for all.
pub open spec fn flavor_dimension(
    name: Seq<char>,
    block: JsonModel,
    declared: Option<Seq<char>>,
) -> Result<Seq<char>, Seq<char>> {
    if block.as_object() is None {
        Err(about_flavor(name, "' must be a block"@))
    } else {
        match block.str_at("dimension"@) {
            Some(dimension) => Ok(dimension),
            None => match declared {
                Some(dimension) => Ok(dimension),
                None => Err(about_flavor(name, "' is missing a 'dimension' key"@)),
            },
        }
    }
}

/// The name of a variant.
pub fn name_variant(build_type: &str, flavor: Option<&str>) -> (r: String)
    ensures
        r@ == variant_name(build_type@, optional_text(flavor)),
{
    let base = to_pascal_case(build_type);
    match flavor {
        None => base,
        Some(flavor) => concat(base.as_str(), to_pascal_case(flavor).as_str()),
    }
}

/// The directory name of a variant.
pub fn name_directory(build_type: &str, flavor: Option<&str>) -> (r: String)
    ensures
        r@ == variant_directory(build_type@, optional_text(flavor)),
{
    let base = lowercase_text(to_pascal_case(build_type).as_str());
    match flavor {
        None => base,
        Some(flavor) => concat(base.as_str(), to_pascal_case(flavor).as_str()),
    }
}

/// The file name of a variant's APK.
pub fn name_apk(directory: &str) -> (r: String)
    ensures
        r@ == apk_name(directory@),
{
    concat3("app-", directory, ".apk")
}

/// The directory of the products that all variants share.
pub fn shared_build_dir(project_dir: &str) -> (r: String)
    ensures
        r@ == shared_build(project_dir@),
{
    join_path(project_dir, "build/android")
}

/// The directory of a variant's build products.
pub fn variant_build_dir(project_dir: &str, directory: &str) -> (r: String)
    ensures
        r@ == variant_build(project_dir@, directory@),
{
    join_path(join_path(project_dir, "build").as_str(), directory)
}

/// The files the keystore password and the key password are written to.
pub fn password_files(project_dir: &str) -> (r: (String, String))
    ensures
        r.0@ == ks_password_path(project_dir@),
        r.1@ == key_password_path(project_dir@),
{
    let dir = shared_build_dir(project_dir);
    (join_path(dir.as_str(), "ks-password.txt"), join_path(dir.as_str(), "key-password.txt"))
}

/// The keys of a map, in order.
fn key_list(map: &SortedMap<Json>) -> (r: Vec<String>)
    ensures
        texts(r@) == keys_of(map@),
{
    let ghost keys = keys_of(map@);
    let mut r = no_texts();
    let count: usize = map.len();
    let mut i: usize = 0;
    while i < count
        invariant
            i <= count,
            count == map@.len(),
            keys == keys_of(map@),
            texts(r@) == keys.take(i as int),
        decreases count - i,
    {
        push_text(&mut r, map.key_at(i).as_str());
        i = i + 1;
        assert(keys.take(i as int) =~= keys.take(i - 1).push(keys[i - 1]));
    }
    assert(keys.take(i as int) == keys);
    r
}

/// Reads the names of the module's build types.
pub fn read_build_types(config: &Json) -> (r: Result<Vec<String>, String>)
    ensures
        texts_result(r) == build_types(config@),
{
    match config.get("buildTypes") {
        None => Ok(two_texts("debug", "release")),
        Some(block) => match block.as_object() {
            None => Err("'buildTypes' must be a block".to_owned()),
            Some(map) => Ok(key_list(map)),
        },
    }
}

/// The module's `productFlavors` block.
pub fn read_flavor_entries(config: &Json) -> (r: Result<Option<&SortedMap<Json>>, String>)
    ensures
        match r {
            Ok(Some(map)) => flavor_entries(config@) == Ok::<_, Seq<char>>(Some(map@)),
            Ok(None) => flavor_entries(config@) == Ok::<
                Option<Seq<(Seq<char>, JsonModel)>>,
                Seq<char>,
            >(None),
            Err(e) => flavor_entries(config@) == Err::<
                Option<Seq<(Seq<char>, JsonModel)>>,
                _,
            >(e@),
        },
{
    match config.get("productFlavors") {
        None => Ok(None),
        Some(block) => match block.as_object() {
            None => Err("'productFlavors' must be a block".to_owned()),
            Some(map) => Ok(Some(map)),
        },
    }
}

/// The dimension declared for all flavors together.
pub fn read_declared_dimension(entries: &SortedMap<Json>) -> (r: Option<&str>)
    ensures
        optional_text(r) == declared_dimension(entries@),
{
    match entries.get("dimension") {
        None => None,
        Some(value) => value.as_str(),
    }
}

/// A sentence about one flavor.
pub fn flavor_message(name: &str, rest: &str) -> (r: String)
    ensures
        r@ == about_flavor(name@, rest@),
{
    concat3("flavor '", name, rest)
}

/// A flavor's own dimension, or the one declared for all.
pub fn read_flavor_dimension(name: &str, block: &Json, declared: Option<&str>) -> (r: Result<
    String,
    String,
>)
    ensures
        text_result(r) == flavor_dimension(name@, block@, optional_text(declared)),
{
    match block.as_object() {
        None => Err(flavor_message(name, "' must be a block")),
        Some(_) => match block.str_at("dimension") {
            Some(dimension) => Ok(dimension.to_owned()),
            None => match declared {
                Some(dimension) => Ok(dimension.to_owned()),
                None => Err(flavor_message(name, "' is missing a 'dimension' key")),
            },
        },
    }
}

} // verus!
