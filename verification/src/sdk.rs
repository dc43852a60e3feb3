//! The Android SDK: where its parts are, and which build-tools release to use.
//!
//! The state of the file system comes in as plain values; what is looked at,
//! and what follows from what was found, is decided here.

use crate::json::{Json, JsonModel};
use crate::number::{
    decimal, decimal_text, law_decimal_reads_back, parse_u64, parsed_u64, unsigned_part,
};
use crate::path::{join_path, path_join, resolve_path};
use crate::text::{
    concat, joined, law_joined_parts_are_split_back, lemma_character_is_in_a_piece, optional_text,
    split, split_text, text_result, texts,
};
use vstd::prelude::*;

verus! {

/// One entry of the `build-tools` directory of an SDK.
pub struct ToolsEntry {
    /// The entry's file name.
    pub name: String,
    /// The entry is a directory.
    pub is_dir: bool,
    /// The directory holds `aapt2`.
    pub has_aapt2: bool,
    /// The directory holds `lib/d8.jar`.
    pub has_d8: bool,
}

/// What listing the `build-tools` directory gave.
pub enum Listing {
    /// The directory could not be opened, for this reason.
    CannotList(String),
    /// An entry could not be read, for this reason.
    CannotRead(String),
    /// The entries, in the order they were listed.
    Entries(Vec<ToolsEntry>),
}

/// What was found of an SDK.
pub struct SdkProbe {
    /// The platform jar exists.
    pub platform_jar: bool,
    /// The content of the `build-tools` directory.
    pub build_tools: Listing,
    /// `lib/d8.jar` of the selected build-tools release exists.
    pub d8_jar: bool,
}

/// The places of an SDK that a build depends on.
pub struct SdkPlaces {
    /// The SDK root.
    pub sdk: String,
    /// The platform jar, which must exist.
    pub platform_jar: String,
    /// The directory whose entries are the build-tools releases.
    pub build_tools: String,
}

/// The mathematical counterpart of [`ToolsEntry`].
pub struct ToolsEntryModel {
    pub name: Seq<char>,
    pub is_dir: bool,
    pub has_aapt2: bool,
    pub has_d8: bool,
}

/// The mathematical counterpart of [`Listing`].
pub enum ListingModel {
    CannotList(Seq<char>),
    CannotRead(Seq<char>),
    Entries(Seq<ToolsEntryModel>),
}

/// The mathematical counterpart of [`SdkProbe`].
pub struct SdkModel {
    pub platform_jar: bool,
    pub build_tools: ListingModel,
    pub d8_jar: bool,
}

impl View for ToolsEntry {
    type V = ToolsEntryModel;

    open spec fn view(&self) -> ToolsEntryModel {
        ToolsEntryModel {
            name: self.name@,
            is_dir: self.is_dir,
            has_aapt2: self.has_aapt2,
            has_d8: self.has_d8,
        }
    }
}

impl View for Listing {
    type V = ListingModel;

    open spec fn view(&self) -> ListingModel {
        match self {
            Listing::CannotList(reason) => ListingModel::CannotList(reason@),
            Listing::CannotRead(reason) => ListingModel::CannotRead(reason@),
            Listing::Entries(entries) => ListingModel::Entries(
                entries@.map_values(|entry: ToolsEntry| entry@),
            ),
        }
    }
}

impl View for SdkProbe {
    type V = SdkModel;

    open spec fn view(&self) -> SdkModel {
        SdkModel {
            platform_jar: self.platform_jar,
            build_tools: self.build_tools@,
            d8_jar: self.d8_jar,
        }
    }
}

/// An optional rank, by its numbers.
pub open spec fn rank_model(rank: Option<Vec<u64>>) -> Option<Seq<u64>> {
    match rank {
        Some(numbers) => Some(numbers@),
        None => None,
    }
}

/// The ranks of a list, by their numbers.
pub open spec fn rank_models(ranks: Seq<Option<Vec<u64>>>) -> Seq<Option<Seq<u64>>> {
    ranks.map_values(|rank: Option<Vec<u64>>| rank_model(rank))
}

/// The numbers of a dotted version; nothing where a component is no number.
pub open spec fn version_numbers(name: Seq<char>) -> Option<Seq<u64>> {
    let parts = split(name, '.');
    if forall|i: int| 0 <= i < parts.len() ==> parsed_u64(#[trigger] parts[i]) is Some {
        Some(parts.map_values(|part: Seq<char>| parsed_u64(part)->0))
    } else {
        None
    }
}

/// The numbers among the given parts, in order.
pub open spec fn kept_numbers(parts: Seq<Seq<char>>) -> Seq<u64>
    decreases parts.len(),
{
    if parts.len() == 0 {
        seq![]
    } else {
        let kept = kept_numbers(parts.drop_last());
        match parsed_u64(parts.last()) {
            Some(n) => kept.push(n),
            None => kept,
        }
    }
}

/// The rank of a name among whose dotted parts exactly three are numbers.
pub open spec fn three_numbers(name: Seq<char>) -> Option<Seq<u64>> {
    let kept = kept_numbers(split(name, '.'));
    if kept.len() == 3 {
        Some(kept)
    } else {
        None
    }
}

/// The ranks agree up to position `at`, where `a` ends or holds the lesser
/// number.
pub open spec fn rank_diverges_at(a: Seq<u64>, b: Seq<u64>, at: int) -> bool {
    &&& 0 <= at <= a.len()
    &&& at < b.len()
    &&& forall|i: int| 0 <= i < at ==> a[i] == b[i]
    &&& at == a.len() || a[at] < b[at]
}

/// Rank `a` is below rank `b`, number by number.
pub open spec fn lower(a: Seq<u64>, b: Seq<u64>) -> bool {
    exists|at: int| rank_diverges_at(a, b, at)
}

/// The position of the highest rank; of equal ones the last.
pub open spec fn highest(ranks: Seq<Option<Seq<u64>>>) -> Option<int>
    decreases ranks.len(),
{
    if ranks.len() == 0 {
        None
    } else {
        let best = highest(ranks.drop_last());
        match ranks.last() {
            None => best,
            Some(rank) => match best {
                Some(i) if lower(rank, ranks[i]->0) => best,
                _ => Some(ranks.len() - 1),
            },
        }
    }
}

/// The rank by which a build-tools release competes: its version, if it is a
/// complete release directory.
pub open spec fn release_rank(entry: ToolsEntryModel) -> Option<Seq<u64>> {
    if entry.is_dir && entry.has_aapt2 && entry.has_d8 {
        version_numbers(entry.name)
    } else {
        None
    }
}

/// The path of the platform jar for an API level.
pub open spec fn platform_jar_path(sdk: Seq<char>, compile_sdk: i64) -> Seq<char> {
    path_join(
        path_join(path_join(sdk, "platforms"@), "android-"@ + decimal(compile_sdk as int)),
        "android.jar"@,
    )
}

/// The directory of the build-tools releases.
pub open spec fn build_tools_path(sdk: Seq<char>) -> Seq<char> {
    path_join(sdk, "build-tools"@)
}

/// The jar of `d8` in a build-tools release.
pub open spec fn d8_jar_path(build_tools: Seq<char>) -> Seq<char> {
    path_join(path_join(build_tools, "lib"@), "d8.jar"@)
}

/// The platform jar, which must exist.
pub open spec fn platform_jar(sdk: Seq<char>, compile_sdk: i64, present: bool) -> Result<
    Seq<char>,
    Seq<char>,
> {
    if present {
        Ok(platform_jar_path(sdk, compile_sdk))
    } else {
        Err(
            "no android.jar for compileSdk "@ + decimal(compile_sdk as int) + " under '"@ + sdk
                + "'"@,
        )
    }
}

/// A directory could not be listed.
pub open spec fn cannot_list(dir: Seq<char>, reason: Seq<char>) -> Seq<char> {
    "cannot list '"@ + dir + "': "@ + reason
}

/// An entry of a directory could not be read.
pub open spec fn cannot_read(dir: Seq<char>, reason: Seq<char>) -> Seq<char> {
    "cannot read '"@ + dir + "': "@ + reason
}

/// The directory of the highest complete build-tools release.
pub open spec fn highest_release(sdk: Seq<char>, listing: ListingModel) -> Result<
    Seq<char>,
    Seq<char>,
> {
    let dir = build_tools_path(sdk);
    match listing {
        ListingModel::CannotList(reason) => Err(cannot_list(dir, reason)),
        ListingModel::CannotRead(reason) => Err(cannot_read(dir, reason)),
        ListingModel::Entries(entries) => match highest(
            entries.map_values(|entry: ToolsEntryModel| release_rank(entry)),
        ) {
            Some(i) => Ok(path_join(dir, entries[i].name)),
            None => Err(
                "no build-tools release with aapt2 and lib/d8.jar under '"@ + dir + "'"@,
            ),
        },
    }
}

/// The name of the entry with the highest version of three numbers.
pub open spec fn highest_version(sdk: Seq<char>, listing: ListingModel) -> Result<
    Seq<char>,
    Seq<char>,
> {
    let dir = build_tools_path(sdk);
    match listing {
        ListingModel::CannotList(reason) => Err(cannot_list(dir, reason)),
        ListingModel::CannotRead(reason) => Err(cannot_read(dir, reason)),
        ListingModel::Entries(entries) => match highest(
            entries.map_values(|entry: ToolsEntryModel| three_numbers(entry.name)),
        ) {
            Some(i) => Ok(entries[i].name),
            None => Err(
                "no build-tools version found under '"@ + dir
                    + "'; install the Android SDK build-tools"@,
            ),
        },
    }
}

/// No SDK was configured.
pub open spec fn no_sdk_root() -> Seq<char> {
    "no Android SDK root: set 'sdkDir' in the 'android' block, or pass --android-sdk / ANDROID_HOME / ANDROID_SDK_ROOT to the host"@
}

/// The SDK root: the module's own directory when set, resolved against the
/// project, otherwise the root the host supplies.
pub open spec fn sdk_root(
    config: JsonModel,
    own_dir: Option<Seq<char>>,
    project_dir: Seq<char>,
) -> Result<Seq<char>, Seq<char>> {
    match own_dir {
        Some(dir) => Ok(path_join(project_dir, dir)),
        None => match config.str_at("androidSdkDir"@) {
            Some(dir) => Ok(dir),
            None => Err(no_sdk_root()),
        },
    }
}

/// Where the SDK of a module is, and which API level it compiles against;
/// nothing where the configuration does not say.
pub open spec fn sdk_of(config: JsonModel) -> Option<(Seq<char>, i64)> {
    match (config.str_at("projectDir"@), config.get("android"@)) {
        (Some(project_dir), Some(android)) => match (
            android.i64_at("compileSdk"@),
            sdk_root(config, android.str_at("sdkDir"@), project_dir),
        ) {
            (Some(compile_sdk), Ok(sdk)) => Some((sdk, compile_sdk)),
            _ => None,
        },
        _ => None,
    }
}

/// No rank is below itself, and of two ranks at most one is below the other.
pub proof fn lemma_lower_is_strict(a: Seq<u64>, b: Seq<u64>)
    ensures
        !(lower(a, b) && lower(b, a)),
        !lower(a, a),
{
    if lower(a, b) && lower(b, a) {
        let i = choose|at: int| rank_diverges_at(a, b, at);
        let j = choose|at: int| rank_diverges_at(b, a, at);
        if i < j {
            assert(b[i] == a[i]);
        } else if j < i {
            assert(a[j] == b[j]);
        }
        assert(false);
    }
    if lower(a, a) {
        let i = choose|at: int| rank_diverges_at(a, a, at);
        assert(false);
    }
}

/// Being below is transitive.
pub proof fn lemma_lower_is_transitive(a: Seq<u64>, b: Seq<u64>, c: Seq<u64>)
    requires
        lower(a, b),
        lower(b, c),
    ensures
        lower(a, c),
{
    let i = choose|at: int| rank_diverges_at(a, b, at);
    let j = choose|at: int| rank_diverges_at(b, c, at);
    let k = if i < j {
        i
    } else {
        j
    };
    assert(rank_diverges_at(a, c, k));
}

/// Of two different ranks one is below the other.
proof fn lemma_ranks_are_ordered(a: Seq<u64>, b: Seq<u64>, at: int)
    requires
        0 <= at <= a.len(),
        at <= b.len(),
        forall|i: int| 0 <= i < at ==> a[i] == b[i],
    ensures
        a == b || lower(a, b) || lower(b, a),
    decreases a.len() - at,
{
    if at == a.len() {
        if at == b.len() {
            assert(a =~= b);
        } else {
            assert(rank_diverges_at(a, b, at));
        }
    } else if at == b.len() {
        assert(rank_diverges_at(b, a, at));
    } else if a[at] == b[at] {
        lemma_ranks_are_ordered(a, b, at + 1);
    } else if a[at] < b[at] {
        assert(rank_diverges_at(a, b, at));
    } else {
        assert(rank_diverges_at(b, a, at));
    }
}

/// The selected rank is no lower than any other, nothing behind it equals it,
/// and nothing is selected only where there is no rank at all.
pub proof fn law_highest_is_the_last_maximum(ranks: Seq<Option<Seq<u64>>>)
    ensures
        match highest(ranks) {
            Some(i) => {
                &&& 0 <= i < ranks.len()
                &&& ranks[i] is Some
                &&& forall|j: int|
                    0 <= j < ranks.len() && (#[trigger] ranks[j]) is Some ==> !lower(
                        ranks[i]->0,
                        ranks[j]->0,
                    )
                &&& forall|j: int|
                    i < j < ranks.len() && (#[trigger] ranks[j]) is Some ==> lower(
                        ranks[j]->0,
                        ranks[i]->0,
                    )
            },
            None => forall|j: int| 0 <= j < ranks.len() ==> (#[trigger] ranks[j]) is None,
        },
    decreases ranks.len(),
{
    if ranks.len() > 0 {
        let rest = ranks.drop_last();
        law_highest_is_the_last_maximum(rest);
        assert forall|j: int| 0 <= j < rest.len() implies rest[j] == #[trigger] ranks[j] by {}
        if ranks.last() is Some {
            let rank = ranks.last()->0;
            lemma_lower_is_strict(rank, rank);
            if highest(rest) is Some {
                let best = ranks[highest(rest)->0]->0;
                lemma_lower_is_strict(rank, best);
                if !lower(rank, best) {
                    assert forall|j: int|
                        0 <= j < ranks.len() && (#[trigger] ranks[j]) is Some implies !lower(
                        rank,
                        ranks[j]->0,
                    ) by {
                        if j < rest.len() && lower(rank, ranks[j]->0) {
                            lemma_ranks_are_ordered(best, rank, 0);
                            if lower(best, rank) {
                                lemma_lower_is_transitive(best, rank, ranks[j]->0);
                            }
                            assert(rest[j] == ranks[j]);
                            assert(false);
                        }
                    }
                }
            }
        }
    }
}

/// The release that is selected is a directory with both tools and a numeric
/// dotted name, and no other such release has a higher version.
pub proof fn law_selected_release_is_complete_and_highest(
    sdk: Seq<char>,
    entries: Seq<ToolsEntryModel>,
)
    ensures
        highest_release(sdk, ListingModel::Entries(entries)) matches Ok(path) ==> exists|i: int|
            {
                &&& 0 <= i < entries.len()
                &&& path == path_join(build_tools_path(sdk), (#[trigger] entries[i]).name)
                &&& entries[i].is_dir
                &&& entries[i].has_aapt2
                &&& entries[i].has_d8
                &&& version_numbers(entries[i].name) is Some
                &&& forall|j: int|
                    0 <= j < entries.len() && (#[trigger] entries[j]).is_dir
                        && entries[j].has_aapt2 && entries[j].has_d8 && version_numbers(
                        entries[j].name,
                    ) is Some ==> !lower(
                        version_numbers(entries[i].name)->0,
                        version_numbers(entries[j].name)->0,
                    )
            },
        highest_release(sdk, ListingModel::Entries(entries)) is Err <==> forall|j: int|
            0 <= j < entries.len() ==> !((#[trigger] entries[j]).is_dir && entries[j].has_aapt2
                && entries[j].has_d8 && version_numbers(entries[j].name) is Some),
{
    let ranks = entries.map_values(|entry: ToolsEntryModel| release_rank(entry));
    law_highest_is_the_last_maximum(ranks);
    if highest(ranks) is Some {
        let i = highest(ranks)->0;
        assert forall|j: int|
            0 <= j < entries.len() && release_rank(#[trigger] entries[j]) is Some implies !lower(
            version_numbers(entries[i].name)->0,
            version_numbers(entries[j].name)->0,
        ) by {
            assert(ranks[j] is Some);
        }
        assert(entries[i].is_dir);
        assert(release_rank(entries[i]) is Some);
    } else {
        assert forall|j: int| 0 <= j < entries.len() implies release_rank(
            #[trigger] entries[j],
        ) is None by {
            assert(ranks[j] is None);
        }
    }
}

/// The version that is selected has three numbers, and no other such entry has
/// a higher one.
pub proof fn law_selected_version_is_highest(sdk: Seq<char>, entries: Seq<ToolsEntryModel>)
    ensures
        highest_version(sdk, ListingModel::Entries(entries)) matches Ok(name) ==> exists|i: int|
            {
                &&& 0 <= i < entries.len()
                &&& name == (#[trigger] entries[i]).name
                &&& three_numbers(name) is Some
                &&& forall|j: int|
                    0 <= j < entries.len() && three_numbers((#[trigger] entries[j]).name) is Some
                        ==> !lower(three_numbers(name)->0, three_numbers(entries[j].name)->0)
            },
        highest_version(sdk, ListingModel::Entries(entries)) is Err <==> forall|j: int|
            0 <= j < entries.len() ==> three_numbers((#[trigger] entries[j]).name) is None,
{
    let ranks = entries.map_values(|entry: ToolsEntryModel| three_numbers(entry.name));
    law_highest_is_the_last_maximum(ranks);
    if highest(ranks) is Some {
        let i = highest(ranks)->0;
        assert(three_numbers(entries[i].name) is Some);
        assert forall|j: int|
            0 <= j < entries.len() && three_numbers((#[trigger] entries[j]).name) is Some implies
            !lower(three_numbers(entries[i].name)->0, three_numbers(entries[j].name)->0) by {
            assert(ranks[j] is Some);
        }
    } else {
        assert forall|j: int| 0 <= j < entries.len() implies three_numbers(
            (#[trigger] entries[j]).name,
        ) is None by {
            assert(ranks[j] is None);
        }
    }
}

/// The first number in which two ranks differ decides, and of two ranks that do
/// not differ where both have numbers the shorter is below.
pub proof fn law_first_difference_decides(
    front: Seq<u64>,
    x: u64,
    y: u64,
    a: Seq<u64>,
    b: Seq<u64>,
)
    requires
        x < y,
    ensures
        lower(front.push(x) + a, front.push(y) + b),
        !lower(front.push(y) + b, front.push(x) + a),
        lower(front, front.push(x) + a),
        !lower(front.push(x) + a, front),
{
    let less = front.push(x) + a;
    let more = front.push(y) + b;
    assert(rank_diverges_at(less, more, front.len() as int));
    assert(rank_diverges_at(front, less, front.len() as int));
    lemma_lower_is_strict(less, more);
    lemma_lower_is_strict(front, less);
}

/// A version written as decimal numbers with dots between them is read as these
/// numbers.
pub proof fn law_dotted_version_is_read_back(numbers: Seq<u64>)
    requires
        numbers.len() > 0,
    ensures
        ({
            let name = joined(numbers.map_values(|n: u64| decimal(n as int)), "."@);
            &&& version_numbers(name) == Some(numbers)
            &&& numbers.len() == 3 ==> three_numbers(name) == Some(numbers)
            &&& numbers.len() != 3 ==> three_numbers(name) is None
        }),
{
    let parts = numbers.map_values(|n: u64| decimal(n as int));
    let name = joined(parts, "."@);
    reveal_strlit(".");
    assert("."@ =~= seq!['.']);
    assert forall|i: int| 0 <= i < parts.len() implies !(#[trigger] parts[i]).contains('.')
        && parsed_u64(parts[i]) == Some(numbers[i]) by {
        law_decimal_reads_back(numbers[i]);
        lemma_decimal_holds_no_dot(numbers[i]);
    }
    law_joined_parts_are_split_back(parts, '.');
    assert(version_numbers(name)->0 =~= numbers);
    lemma_all_numbers_are_kept(parts, numbers);
}

/// A number in decimal holds no dot.
proof fn lemma_decimal_holds_no_dot(n: u64)
    ensures
        !decimal(n as int).contains('.'),
{
    law_decimal_reads_back(n);
    let row = decimal(n as int);
    if row.contains('.') {
        let i = choose|i: int| 0 <= i < row.len() && row[i] == '.';
        let rest = unsigned_part(row);
        if rest == row {
            assert('0' <= rest[i]);
        } else {
            assert(i > 0);
            assert('0' <= rest[i - 1]);
        }
    }
}

/// Where every part is a number all are kept.
proof fn lemma_all_numbers_are_kept(parts: Seq<Seq<char>>, numbers: Seq<u64>)
    requires
        parts.len() == numbers.len(),
        forall|i: int| 0 <= i < parts.len() ==> parsed_u64(#[trigger] parts[i]) == Some(numbers[i]),
    ensures
        kept_numbers(parts) == numbers,
    decreases parts.len(),
{
    if parts.len() > 0 {
        let front = parts.drop_last();
        assert forall|i: int| 0 <= i < front.len() implies parsed_u64(#[trigger] front[i]) == Some(
            numbers.drop_last()[i],
        ) by {
            assert(front[i] == parts[i]);
        }
        lemma_all_numbers_are_kept(front, numbers.drop_last());
        assert(parts.last() == parts[parts.len() - 1]);
        assert(numbers.drop_last().push(numbers.last()) =~= numbers);
    } else {
        assert(kept_numbers(parts) =~= numbers);
    }
}

/// A version is made of digits, dots and plus signs alone: whatever else stands
/// in a name makes it no version.
pub proof fn law_version_holds_numbers_alone(name: Seq<char>, i: int)
    requires
        version_numbers(name) is Some,
        0 <= i < name.len(),
    ensures
        '0' <= name[i] && name[i] <= '9' || name[i] == '.' || name[i] == '+',
{
    let parts = split(name, '.');
    if name[i] != '.' {
        let k = lemma_character_is_in_a_piece(name, '.', i);
        assert(parsed_u64(parts[k]) is Some);
        let part = parts[k];
        let at = choose|at: int| 0 <= at < part.len() && part[at] == name[i];
        let row = unsigned_part(part);
        if row == part {
            assert('0' <= row[at]);
        } else if at > 0 {
            assert('0' <= row[at - 1]);
        }
    }
}

/// Whether rank `a` is below rank `b`.
fn is_lower(a: &[u64], b: &[u64]) -> (r: bool)
    ensures
        r == lower(a@, b@),
{
    let mut i: usize = 0;
    while i < a.len() && i < b.len() && a[i] == b[i]
        invariant
            i <= a@.len(),
            i <= b@.len(),
            forall|k: int| 0 <= k < i ==> a@[k] == b@[k],
        decreases a@.len() - i,
    {
        i = i + 1;
    }
    proof {
        lemma_lower_is_strict(a@, b@);
    }
    if i < b.len() && (i == a.len() || a[i] < b[i]) {
        assert(rank_diverges_at(a@, b@, i as int));
        true
    } else {
        if i < a.len() {
            assert(rank_diverges_at(b@, a@, i as int));
        } else {
            assert(a@ =~= b@);
        }
        false
    }
}

/// The position of the highest rank; of equal ones the last.
fn pick_highest(ranks: &[Option<Vec<u64>>]) -> (r: Option<usize>)
    ensures
        match r {
            Some(i) => highest(rank_models(ranks@)) == Some(i as int) && i < ranks@.len(),
            None => highest(rank_models(ranks@)) is None,
        },
{
    let ghost all = rank_models(ranks@);
    let mut best: Option<usize> = None;
    let mut i: usize = 0;
    while i < ranks.len()
        invariant
            i <= ranks@.len(),
            all == rank_models(ranks@),
            match best {
                Some(b) => {
                    &&& highest(all.take(i as int)) == Some(b as int)
                    &&& b < i
                    &&& ranks@[b as int] is Some
                },
                None => highest(all.take(i as int)) is None,
            },
        decreases ranks@.len() - i,
    {
        assert(all.take(i + 1).drop_last() == all.take(i as int));
        assert(all[i as int] == rank_model(ranks@[i as int]));
        match &ranks[i] {
            None => {},
            Some(rank) => match best {
                None => {
                    best = Some(i);
                },
                Some(b) => {
                    assert(all[b as int] == rank_model(ranks@[b as int]));
                    match &ranks[b] {
                        None => {},
                        Some(known) => {
                            if !is_lower(rank, known) {
                                best = Some(i);
                            }
                        },
                    }
                },
            },
        }
        i = i + 1;
    }
    assert(all.take(i as int) == all);
    best
}

/// The numeric rank of a version directory name; nothing when a component is
/// not a number, so that a malformed name is never selected.
pub fn version_rank(name: &str) -> (r: Option<Vec<u64>>)
    ensures
        rank_model(r) == version_numbers(name@),
{
    let parts = split_text(name, '.');
    let ghost all = split(name@, '.');
    let mut rank: Vec<u64> = Vec::new();
    let mut i: usize = 0;
    while i < parts.len()
        invariant
            i <= parts@.len(),
            all == split(name@, '.'),
            all == texts(parts@),
            forall|k: int| 0 <= k < i ==> parsed_u64(#[trigger] all[k]) is Some,
            rank@ == all.take(i as int).map_values(|part: Seq<char>| parsed_u64(part)->0),
        decreases parts@.len() - i,
    {
        assert(all[i as int] == parts@[i as int]@);
        match parse_u64(parts[i].as_str()) {
            Some(n) => {
                rank.push(n);
            },
            None => {
                return None;
            },
        }
        i = i + 1;
        assert(rank@ =~= all.take(i as int).map_values(|part: Seq<char>| parsed_u64(part)->0));
    }
    assert(all.take(i as int) == all);
    Some(rank)
}

/// The rank of a name among whose dotted parts exactly three are numbers.
fn three_number_rank(name: &str) -> (r: Option<Vec<u64>>)
    ensures
        rank_model(r) == three_numbers(name@),
{
    let parts = split_text(name, '.');
    let ghost all = split(name@, '.');
    let mut rank: Vec<u64> = Vec::new();
    let mut i: usize = 0;
    while i < parts.len()
        invariant
            i <= parts@.len(),
            all == texts(parts@),
            rank@ == kept_numbers(all.take(i as int)),
        decreases parts@.len() - i,
    {
        assert(all[i as int] == parts@[i as int]@);
        match parse_u64(parts[i].as_str()) {
            Some(n) => {
                rank.push(n);
            },
            None => {},
        }
        i = i + 1;
        assert(all.take(i as int).drop_last() == all.take(i - 1));
    }
    assert(all.take(i as int) == all);
    if rank.len() == 3 {
        Some(rank)
    } else {
        None
    }
}

/// Where the platform jar for `compile_sdk` is:
/// `<sdk>/platforms/android-<N>/android.jar`.
pub fn android_jar_location(sdk: &str, compile_sdk: i64) -> (r: String)
    ensures
        r@ == platform_jar_path(sdk@, compile_sdk),
{
    let platforms = join_path(sdk, "platforms");
    let level = concat("android-", decimal_text(compile_sdk).as_str());
    let platform = join_path(platforms.as_str(), level.as_str());
    join_path(platform.as_str(), "android.jar")
}

/// The platform jar for `compile_sdk`. A missing jar is an error: the module
/// cannot compile against a level the SDK does not have.
pub fn android_jar(sdk: &str, compile_sdk: i64, jar_exists: bool) -> (r: Result<String, String>)
    ensures
        text_result(r) == platform_jar(sdk@, compile_sdk, jar_exists),
{
    if jar_exists {
        Ok(android_jar_location(sdk, compile_sdk))
    } else {
        let mut message = "no android.jar for compileSdk ".to_owned();
        message.append(decimal_text(compile_sdk).as_str());
        message.append(" under '");
        message.append(sdk);
        message.append("'");
        Err(message)
    }
}

/// Where the build-tools releases are.
pub fn build_tools_location(sdk: &str) -> (r: String)
    ensures
        r@ == build_tools_path(sdk@),
{
    join_path(sdk, "build-tools")
}

/// Where the jar of `d8` is in a build-tools release.
pub fn d8_jar_location(build_tools: &str) -> (r: String)
    ensures
        r@ == d8_jar_path(build_tools@),
{
    let lib = join_path(build_tools, "lib");
    join_path(lib.as_str(), "d8.jar")
}

/// The reason a listing failed, in a sentence.
fn listing_failure(start: &str, dir: &str, reason: &str) -> (r: String)
    ensures
        r@ == start@ + dir@ + "': "@ + reason@,
{
    let mut message = start.to_owned();
    message.append(dir);
    message.append("': ");
    message.append(reason);
    message
}

/// The directory of the highest `build-tools` release that carries both
/// `aapt2` and `lib/d8.jar`. A partially installed release does not count, and
/// a directory whose name is not a numeric dotted version is skipped.
pub fn highest_build_tools(sdk: &str, listing: &Listing) -> (r: Result<String, String>)
    ensures
        text_result(r) == highest_release(sdk@, listing@),
{
    let dir = build_tools_location(sdk);
    match listing {
        Listing::CannotList(reason) => Err(
            listing_failure("cannot list '", dir.as_str(), reason.as_str()),
        ),
        Listing::CannotRead(reason) => Err(
            listing_failure("cannot read '", dir.as_str(), reason.as_str()),
        ),
        Listing::Entries(entries) => {
            let ghost models = entries@.map_values(|entry: ToolsEntry| entry@);
            let ghost wanted = models.map_values(|entry: ToolsEntryModel| release_rank(entry));
            let mut ranks: Vec<Option<Vec<u64>>> = Vec::new();
            let mut i: usize = 0;
            while i < entries.len()
                invariant
                    i <= entries@.len(),
                    models == entries@.map_values(|entry: ToolsEntry| entry@),
                    wanted == models.map_values(|entry: ToolsEntryModel| release_rank(entry)),
                    rank_models(ranks@) == wanted.take(i as int),
                decreases entries@.len() - i,
            {
                let entry = &entries[i];
                let rank = if entry.is_dir && entry.has_aapt2 && entry.has_d8 {
                    version_rank(entry.name.as_str())
                } else {
                    None
                };
                assert(wanted[i as int] == rank_model(rank));
                let ghost earlier = rank_models(ranks@);
                ranks.push(rank);
                i = i + 1;
                assert(rank_models(ranks@) =~= earlier.push(wanted[i - 1]));
                assert(wanted.take(i as int) =~= wanted.take(i - 1).push(wanted[i - 1]));
            }
            assert(wanted.take(i as int) == wanted);
            match pick_highest(&ranks) {
                Some(at) => Ok(join_path(dir.as_str(), entries[at].name.as_str())),
                None => {
                    let mut message =
                        "no build-tools release with aapt2 and lib/d8.jar under '".to_owned();
                    message.append(dir.as_str());
                    message.append("'");
                    Err(message)
                },
            }
        },
    }
}

/// The name of the entry of the `build-tools` directory with the highest
/// version of three numbers.
pub fn find_build_tools_version(sdk_root: &str, listing: &Listing) -> (r: Result<String, String>)
    ensures
        text_result(r) == highest_version(sdk_root@, listing@),
{
    let dir = build_tools_location(sdk_root);
    match listing {
        Listing::CannotList(reason) => Err(
            listing_failure("cannot list '", dir.as_str(), reason.as_str()),
        ),
        Listing::CannotRead(reason) => Err(
            listing_failure("cannot read '", dir.as_str(), reason.as_str()),
        ),
        Listing::Entries(entries) => {
            let ghost models = entries@.map_values(|entry: ToolsEntry| entry@);
            let ghost wanted = models.map_values(
                |entry: ToolsEntryModel| three_numbers(entry.name),
            );
            let mut ranks: Vec<Option<Vec<u64>>> = Vec::new();
            let mut i: usize = 0;
            while i < entries.len()
                invariant
                    i <= entries@.len(),
                    models == entries@.map_values(|entry: ToolsEntry| entry@),
                    wanted == models.map_values(
                        |entry: ToolsEntryModel| three_numbers(entry.name),
                    ),
                    rank_models(ranks@) == wanted.take(i as int),
                decreases entries@.len() - i,
            {
                let rank = three_number_rank(entries[i].name.as_str());
                assert(wanted[i as int] == rank_model(rank));
                let ghost earlier = rank_models(ranks@);
                ranks.push(rank);
                i = i + 1;
                assert(rank_models(ranks@) =~= earlier.push(wanted[i - 1]));
                assert(wanted.take(i as int) =~= wanted.take(i - 1).push(wanted[i - 1]));
            }
            assert(wanted.take(i as int) == wanted);
            match pick_highest(&ranks) {
                Some(at) => Ok(entries[at].name.clone()),
                None => {
                    let mut message = "no build-tools version found under '".to_owned();
                    message.append(dir.as_str());
                    message.append("'; install the Android SDK build-tools");
                    Err(message)
                },
            }
        },
    }
}

/// The SDK root: the module's own directory when set, otherwise the root the
/// host supplies. Neither is an error: an SDK cannot be invented.
pub fn choose_sdk_root(config: &Json, own_dir: Option<&str>, project_dir: &str) -> (r: Result<
    String,
    String,
>)
    ensures
        text_result(r) == sdk_root(
            config@,
            optional_text(own_dir),
            project_dir@,
        ),
{
    match own_dir {
        Some(dir) => Ok(resolve_path(project_dir, dir)),
        None => match config.str_at("androidSdkDir") {
            Some(dir) => Ok(dir.to_owned()),
            None => Err(
                "no Android SDK root: set 'sdkDir' in the 'android' block, or pass --android-sdk / ANDROID_HOME / ANDROID_SDK_ROOT to the host".to_owned(),
            ),
        },
    }
}

/// The places to look at before a module is planned; none where planning fails
/// before it looks at the SDK.
pub fn sdk_places(config: &Json) -> (r: Option<SdkPlaces>)
    ensures
        match r {
            Some(places) => {
                &&& sdk_of(config@) matches Some((sdk, compile_sdk))
                &&& places.sdk@ == sdk
                &&& places.platform_jar@ == platform_jar_path(sdk, compile_sdk)
                &&& places.build_tools@ == build_tools_path(sdk)
            },
            None => sdk_of(config@) is None,
        },
{
    let project_dir = match config.str_at("projectDir") {
        Some(dir) => dir,
        None => return None,
    };
    let android = match config.get("android") {
        Some(android) => android,
        None => return None,
    };
    let compile_sdk: i64 = match android.i64_at("compileSdk") {
        Some(n) => n,
        None => return None,
    };
    match choose_sdk_root(config, android.str_at("sdkDir"), project_dir) {
        Ok(sdk) => Some(
            SdkPlaces {
                platform_jar: android_jar_location(sdk.as_str(), compile_sdk),
                build_tools: build_tools_location(sdk.as_str()),
                sdk,
            },
        ),
        Err(_) => None,
    }
}

} // verus!
