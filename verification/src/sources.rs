//! Source files and jars: which are accepted, and how they are divided.

use crate::path::{file_name, file_name_of};
use crate::text::{
    contains_text, ends_with, first_where, has_suffix, has_text, no_texts, plain_result, push_text,
    texts,
};
use vstd::prelude::*;

verus! {

/// The file is a Java source.
pub open spec fn is_java(source: Seq<char>) -> bool {
    ends_with(source, ".java"@)
}

/// The file is a source that the compilers understand.
pub open spec fn is_accepted(source: Seq<char>) -> bool {
    is_java(source) || ends_with(source, ".kt"@)
}

/// A source is neither Java nor Kotlin.
pub open spec fn unknown_extension(source: Seq<char>) -> Seq<char> {
    "source '"@ + source + "' is neither a .java nor a .kt file"@
}

/// Whether all sources are accepted; the first that is not is reported.
pub open spec fn checked_sources(sources: Seq<Seq<char>>) -> Result<(), Seq<char>>
    decreases sources.len(),
{
    if sources.len() == 0 {
        Ok(())
    } else if is_accepted(sources[0]) {
        checked_sources(sources.drop_first())
    } else {
        Err(unknown_extension(sources[0]))
    }
}

/// The Java sources, in order.
pub open spec fn java_sources(sources: Seq<Seq<char>>) -> Seq<Seq<char>> {
    sources.filter(|source: Seq<char>| is_java(source))
}

/// The sources that are not Java, in order.
pub open spec fn other_sources(sources: Seq<Seq<char>>) -> Seq<Seq<char>> {
    sources.filter(|source: Seq<char>| !is_java(source))
}

/// The jar is the Compose compiler plugin: its file name says so, whatever
/// directories it lies in.
pub open spec fn is_compose_compiler(jar: Seq<char>) -> bool {
    contains_text(file_name(jar), "compose-compiler-plugin"@) && ends_with(
        file_name(jar),
        ".jar"@,
    )
}

/// The first jar of a classpath that is the Compose compiler plugin.
pub open spec fn compose_compiler(classpath: Seq<Seq<char>>) -> Option<Seq<char>> {
    first_where(classpath, |jar: Seq<char>| is_compose_compiler(jar))
}

/// The sources pass exactly when each of them is accepted.
pub proof fn law_sources_pass_when_each_is_accepted(sources: Seq<Seq<char>>)
    ensures
        checked_sources(sources) is Ok <==> forall|i: int|
            0 <= i < sources.len() ==> is_accepted(#[trigger] sources[i]),
    decreases sources.len(),
{
    if sources.len() > 0 {
        let rest = sources.drop_first();
        law_sources_pass_when_each_is_accepted(rest);
        if checked_sources(sources) is Ok {
            assert forall|i: int| 0 <= i < sources.len() implies is_accepted(
                #[trigger] sources[i],
            ) by {
                if i > 0 {
                    assert(rest[i - 1] == sources[i]);
                }
            }
        } else if is_accepted(sources[0]) {
            let i = choose|i: int| 0 <= i < rest.len() && !is_accepted(#[trigger] rest[i]);
            assert(sources[i + 1] == rest[i]);
        }
    }
}

/// The first source that is neither Java nor Kotlin is reported.
pub proof fn law_first_unknown_source_is_reported(sources: Seq<Seq<char>>, k: int)
    requires
        0 <= k < sources.len(),
        !ends_with(sources[k], ".java"@),
        !ends_with(sources[k], ".kt"@),
        forall|i: int|
            0 <= i < k ==> ends_with(#[trigger] sources[i], ".java"@) || ends_with(
                sources[i],
                ".kt"@,
            ),
    ensures
        checked_sources(sources) == Err::<(), _>(
            "source '"@ + sources[k] + "' is neither a .java nor a .kt file"@,
        ),
    decreases k,
{
    if k > 0 {
        let rest = sources.drop_first();
        assert forall|i: int| 0 <= i < k - 1 implies ends_with(#[trigger] rest[i], ".java"@)
            || ends_with(rest[i], ".kt"@) by {
            assert(rest[i] == sources[i + 1]);
        }
        assert(ends_with(sources[0], ".java"@) || ends_with(sources[0], ".kt"@));
        law_first_unknown_source_is_reported(rest, k - 1);
    }
}

/// Dividing the sources loses none, adds none and moves none to the wrong
/// half.
pub proof fn law_each_source_goes_to_one_half(sources: Seq<Seq<char>>)
    ensures
        java_sources(sources).len() + other_sources(sources).len() == sources.len(),
        java_sources(sources).to_multiset().add(other_sources(sources).to_multiset())
            =~= sources.to_multiset(),
        forall|i: int|
            0 <= i < java_sources(sources).len() ==> is_java(#[trigger] java_sources(sources)[i]),
        forall|i: int|
            0 <= i < other_sources(sources).len() ==> !is_java(
                #[trigger] other_sources(sources)[i],
            ),
    decreases sources.len(),
{
    broadcast use vstd::seq_lib::group_to_multiset_ensures;

    reveal(Seq::filter);
    if sources.len() > 0 {
        let rest = sources.drop_last();
        law_each_source_goes_to_one_half(rest);
        assert(rest.push(sources.last()) == sources);
        assert(sources.to_multiset() =~= rest.to_multiset().insert(sources.last()));
    } else {
        assert(java_sources(sources) =~= sources);
        assert(other_sources(sources) =~= sources);
    }
}

/// Each half of a list of sources holds only sources of the list.
pub proof fn lemma_halves_are_part(sources: Seq<Seq<char>>)
    ensures
        forall|i: int|
            0 <= i < java_sources(sources).len() ==> sources.contains(
                #[trigger] java_sources(sources)[i],
            ),
        forall|i: int|
            0 <= i < other_sources(sources).len() ==> sources.contains(
                #[trigger] other_sources(sources)[i],
            ),
{
    let java = java_sources(sources);
    let other = other_sources(sources);
    assert forall|i: int| 0 <= i < java.len() implies sources.contains(#[trigger] java[i]) by {
        assert(java.contains(java[i]));
        sources.lemma_filter_contains_rev(|source: Seq<char>| is_java(source), java[i]);
    }
    assert forall|i: int| 0 <= i < other.len() implies sources.contains(#[trigger] other[i]) by {
        assert(other.contains(other[i]));
        sources.lemma_filter_contains_rev(|source: Seq<char>| !is_java(source), other[i]);
    }
}

/// Each source of a list is in one of the halves.
pub proof fn lemma_source_is_in_a_half(sources: Seq<Seq<char>>, source: Seq<char>)
    requires
        sources.contains(source),
    ensures
        java_sources(sources).contains(source) || other_sources(sources).contains(source),
{
    let i = sources.index_of(source);
    if is_java(source) {
        sources.lemma_filter_contains(|source: Seq<char>| is_java(source), i);
    } else {
        sources.lemma_filter_contains(|source: Seq<char>| !is_java(source), i);
    }
}

/// Rejects a source file the compilers would not understand, so that a typo in
/// the block is reported while the module is configured.
pub fn reject_unknown_extensions(sources: &[String]) -> (r: Result<(), String>)
    ensures
        plain_result(r) == checked_sources(texts(sources@)),
{
    let ghost all = texts(sources@);
    let mut i: usize = 0;
    assert(all.skip(0) == all);
    while i < sources.len()
        invariant
            i <= sources@.len(),
            all == texts(sources@),
            checked_sources(all) == checked_sources(all.skip(i as int)),
        decreases sources@.len() - i,
    {
        let source = sources[i].as_str();
        assert(all.skip(i as int)[0] == source@);
        if !has_suffix(source, ".java") && !has_suffix(source, ".kt") {
            let mut message = "source '".to_owned();
            message.append(source);
            message.append("' is neither a .java nor a .kt file");
            return Err(message);
        }
        assert(all.skip(i as int).drop_first() == all.skip(i + 1));
        i = i + 1;
    }
    Ok(())
}

/// Splits source paths into `.java` files and everything else (the `.kt`
/// files), preserving order within each half.
pub fn partition_sources(sources: &[String]) -> (r: (Vec<String>, Vec<String>))
    ensures
        texts(r.0@) == java_sources(texts(sources@)),
        texts(r.1@) == other_sources(texts(sources@)),
{
    let ghost all = texts(sources@);
    let mut java = no_texts();
    let mut other = no_texts();
    let mut i: usize = 0;
    proof {
        reveal(Seq::filter);
        assert(java_sources(all.take(0)) =~= seq![]);
        assert(other_sources(all.take(0)) =~= seq![]);
    }
    while i < sources.len()
        invariant
            i <= sources@.len(),
            all == texts(sources@),
            texts(java@) == java_sources(all.take(i as int)),
            texts(other@) == other_sources(all.take(i as int)),
        decreases sources@.len() - i,
    {
        let source = sources[i].as_str();
        if has_suffix(source, ".java") {
            push_text(&mut java, source);
        } else {
            push_text(&mut other, source);
        }
        i = i + 1;
        proof {
            reveal(Seq::filter);
            assert(all.take(i as int).drop_last() == all.take(i - 1));
            assert(all.take(i as int).last() == source@);
        }
    }
    assert(all.take(i as int) == all);
    (java, other)
}

/// The first jar of a classpath that is the Compose compiler plugin.
pub fn find_compose_compiler_jar(classpath: &[String]) -> (r: Option<String>)
    ensures
        match r {
            Some(jar) => compose_compiler(texts(classpath@)) == Some(jar@),
            None => compose_compiler(texts(classpath@)) is None,
        },
{
    let ghost all = texts(classpath@);
    let ghost test = |jar: Seq<char>| is_compose_compiler(jar);
    let mut i: usize = 0;
    assert(all.skip(0) == all);
    while i < classpath.len()
        invariant
            i <= classpath@.len(),
            all == texts(classpath@),
            test == (|jar: Seq<char>| is_compose_compiler(jar)),
            first_where(all, test) == first_where(all.skip(i as int), test),
        decreases classpath@.len() - i,
    {
        let jar = classpath[i].as_str();
        assert(all.skip(i as int)[0] == jar@);
        let name = file_name_of(jar);
        if has_text(name.as_str(), "compose-compiler-plugin") && has_suffix(
            name.as_str(),
            ".jar",
        ) {
            return Some(jar.to_owned());
        }
        assert(all.skip(i as int).drop_first() == all.skip(i + 1));
        i = i + 1;
    }
    None
}

} // verus!
