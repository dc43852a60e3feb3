//! Paths of the unix hosts that the toolchains run on, as texts.

use crate::text::{
    chars_of, lemma_split_has_pieces, lemma_split_of_a_join, lemma_split_without_a_separator,
    no_texts, push_text, split, split_text, text_between, texts,
};
use vstd::prelude::*;

verus! {

/// The path starts at the root.
pub open spec fn is_absolute(path: Seq<char>) -> bool {
    path.len() > 0 && path[0] == '/'
}

/// `part` below `base`: an absolute part stands for itself, any other part
/// follows the base, with a slash between them unless the base is empty or
/// ends in one.
pub open spec fn path_join(base: Seq<char>, part: Seq<char>) -> Seq<char> {
    if is_absolute(part) {
        part
    } else if base.len() == 0 || base.last() == '/' {
        base + part
    } else {
        base.push('/') + part
    }
}

/// Each path of a list, below `base`.
pub open spec fn all_joined(base: Seq<char>, paths: Seq<Seq<char>>) -> Seq<Seq<char>> {
    paths.map_values(|path: Seq<char>| path_join(base, path))
}

/// How much of the front of a path is kept whatever is cut from its end: the
/// root, or a leading `.` directory.
pub open spec fn fixed_front(path: Seq<char>) -> nat {
    if is_absolute(path) {
        1
    } else if path.len() > 0 && path[0] == '.' && (path.len() == 1 || path[1] == '/') {
        1
    } else {
        0
    }
}

/// Where the last component of `path` starts, looking no further back than
/// `front`.
pub open spec fn last_component(path: Seq<char>, front: nat) -> nat
    decreases path.len(),
{
    if path.len() <= front {
        front
    } else if path.last() == '/' {
        path.len()
    } else {
        last_component(path.drop_last(), front)
    }
}

/// `path` without its last component and the slash before it.
pub open spec fn without_last(path: Seq<char>, front: nat) -> Seq<char> {
    let start = last_component(path, front);
    if start > front {
        path.take(start - 1)
    } else {
        path.take(front as int)
    }
}

/// The last component starts behind the fixed front and within the path.
pub proof fn lemma_component_within_path(path: Seq<char>, front: nat)
    requires
        front <= path.len(),
    ensures
        front <= last_component(path, front) <= path.len(),
    decreases path.len(),
{
    if path.len() > front && path.last() != '/' {
        lemma_component_within_path(path.drop_last(), front);
    }
}

/// `path` without the empty and `.` components at its end.
pub open spec fn trimmed(path: Seq<char>, front: nat) -> Seq<char>
    decreases path.len(),
{
    let name = path.skip(last_component(path, front) as int);
    if path.len() <= front {
        path
    } else if name == Seq::<char>::empty() || name == seq!['.'] {
        proof {
            lemma_component_within_path(path, front);
        }
        trimmed(without_last(path, front), front)
    } else {
        path
    }
}

/// The directory that holds `path`, or nothing where the path is empty or is
/// no more than the root.
pub open spec fn parent(path: Seq<char>) -> Option<Seq<char>> {
    let front = fixed_front(path);
    let named = trimmed(path, front);
    if named.len() > front {
        Some(trimmed(without_last(named, front), front))
    } else if front == 1 && !is_absolute(path) {
        Some(seq![])
    } else {
        None
    }
}

/// What follows the last slash of `path`: all of it where there is none.
pub open spec fn file_name(path: Seq<char>) -> Seq<char> {
    split(path, '/').last()
}

/// The last component starts no later than the characters at the end that are no
/// slashes.
pub proof fn lemma_component_starts_early(path: Seq<char>, front: nat, n: nat)
    requires
        front + n <= path.len(),
        forall|i: int| path.len() - n <= i < path.len() ==> #[trigger] path[i] != '/',
    ensures
        last_component(path, front) <= path.len() - n,
    decreases n,
{
    if n == 0 {
        lemma_component_within_path(path, front);
    } else {
        let rest = path.drop_last();
        assert forall|i: int| rest.len() - (n - 1) <= i < rest.len() implies #[trigger] rest[i]
            != '/' by {
            assert(rest[i] == path[i]);
        }
        lemma_component_starts_early(rest, front, (n - 1) as nat);
    }
}

/// Behind the last slash stands the last component.
proof fn lemma_component_behind_a_slash(path: Seq<char>, front: nat, at: int)
    requires
        front <= at < path.len(),
        path[at] == '/',
        forall|i: int| at < i < path.len() ==> #[trigger] path[i] != '/',
    ensures
        last_component(path, front) == at + 1,
    decreases path.len(),
{
    if at < path.len() - 1 {
        let rest = path.drop_last();
        assert forall|i: int| at < i < rest.len() implies #[trigger] rest[i] != '/' by {
            assert(rest[i] == path[i]);
        }
        lemma_component_behind_a_slash(rest, front, at);
    }
}

/// The directory of a file is the directory it was joined onto, where that is
/// written without a trailing slash or `.` component.
pub proof fn law_parent_of_a_joined_name(dir: Seq<char>, name: Seq<char>)
    requires
        dir.len() > 0,
        dir.last() != '/',
        dir.last() == '.' && dir.len() > 1 ==> dir[dir.len() - 2] != '/',
        name.len() > 0,
        name != seq!['.'],
        !name.contains('/'),
    ensures
        parent(path_join(dir, name)) == Some(dir),
{
    let path = path_join(dir, name);
    let front = fixed_front(path);
    assert(!is_absolute(name)) by {
        if is_absolute(name) {
            assert(name.contains(name[0]));
        }
    }
    assert(path == dir.push('/') + name);
    assert forall|i: int| dir.len() < i < path.len() implies #[trigger] path[i] != '/' by {
        assert(path[i] == name[i - dir.len() - 1]);
        assert(name.contains(name[i - dir.len() - 1]));
    }
    lemma_component_behind_a_slash(path, front, dir.len() as int);
    assert(path.skip(dir.len() as int + 1) =~= name);
    assert(trimmed(path, front) == path);
    assert(path.take(dir.len() as int) =~= dir);
    assert(without_last(path, front) == dir);
    if dir.len() > front {
        lemma_component_starts_early(dir, front, 1);
        let start = last_component(dir, front);
        let last = dir.skip(start as int);
        assert(last.len() > 0);
        if last == seq!['.'] {
            assert(last[0] == dir[start as int]);
            assert(dir.last() == '.');
            if dir.len() - 1 > front {
                assert(dir.drop_last().last() == dir[dir.len() - 2]);
                lemma_component_starts_early(dir, front, 2);
            }
        }
    }
}

/// A relative part stands behind the base, with one slash between them.
pub proof fn law_join_puts_one_slash_between(base: Seq<char>, part: Seq<char>)
    requires
        base.len() > 0,
        base.last() != '/',
        !is_absolute(part),
    ensures
        path_join(base, part) == base + seq!['/'] + part,
        path_join(base.push('/'), part) == base + seq!['/'] + part,
{
    assert(base.push('/') + part =~= base + seq!['/'] + part);
}

/// The file name of a path is the name that was joined last.
pub proof fn law_file_name_of_a_joined_name(dir: Seq<char>, name: Seq<char>)
    requires
        !name.contains('/'),
    ensures
        file_name(path_join(dir, name)) == name,
        file_name(name) == name,
{
    lemma_split_without_a_separator(name, '/');
    assert(!is_absolute(name)) by {
        if is_absolute(name) {
            assert(name.contains(name[0]));
        }
    }
    if dir.len() == 0 {
        assert(dir + name =~= name);
    } else {
        let base = if dir.last() == '/' {
            dir.drop_last()
        } else {
            dir
        };
        assert(path_join(dir, name) =~= base.push('/') + name);
        lemma_split_of_a_join(base, name, '/');
        lemma_split_has_pieces(base, '/');
    }
}

/// Joining onto an absolute base gives an absolute path.
pub proof fn law_join_below_an_absolute_base_is_absolute(base: Seq<char>, part: Seq<char>)
    requires
        is_absolute(base),
    ensures
        is_absolute(path_join(base, part)),
{
}

/// A path that is absolute already is used as written, so resolving it again
/// changes nothing.
pub proof fn law_resolving_twice_is_resolving_once(base: Seq<char>, path: Seq<char>)
    requires
        is_absolute(base),
    ensures
        is_absolute(path) ==> path_join(base, path) == path,
        path_join(base, path_join(base, path)) == path_join(base, path),
{
}

/// `part` below `base`.
pub fn join_path(base: &str, part: &str) -> (r: String)
    ensures
        r@ == path_join(base@, part@),
{
    let tail = chars_of(part);
    if tail.len() > 0 && tail[0] == '/' {
        return part.to_owned();
    }
    let head = chars_of(base);
    let mut r = base.to_owned();
    if head.len() > 0 && head[head.len() - 1] != '/' {
        r.push('/');
    }
    r.append(part);
    r
}

/// Resolves a path of a module block against the project directory; an
/// absolute path passes through untouched.
pub fn resolve_path(project_dir: &str, path: &str) -> (r: String)
    ensures
        r@ == path_join(project_dir@, path@),
{
    join_path(project_dir, path)
}

/// Resolves each path of a list against the project directory.
pub fn resolve_paths(project_dir: &str, paths: &[String]) -> (r: Vec<String>)
    ensures
        texts(r@) == all_joined(project_dir@, texts(paths@)),
{
    let mut r = no_texts();
    let mut i: usize = 0;
    while i < paths.len()
        invariant
            i <= paths@.len(),
            texts(r@) == all_joined(project_dir@, texts(paths@)).take(i as int),
        decreases paths@.len() - i,
    {
        push_text(&mut r, resolve_path(project_dir, paths[i].as_str()).as_str());
        i = i + 1;
        assert(all_joined(project_dir@, texts(paths@)).take(i as int) == all_joined(
            project_dir@,
            texts(paths@),
        ).take(i - 1).push(path_join(project_dir@, paths@[i - 1]@)));
    }
    assert(all_joined(project_dir@, texts(paths@)).take(i as int) == all_joined(
        project_dir@,
        texts(paths@),
    ));
    r
}

/// Where the last component of the first `end` characters starts.
fn component_start(chars: &[char], front: usize, end: usize) -> (r: usize)
    requires
        front <= end <= chars@.len(),
    ensures
        r == last_component(chars@.take(end as int), front as nat),
        front <= r <= end,
{
    let mut at: usize = end;
    while at > front && chars[at - 1] != '/'
        invariant
            front <= at <= end <= chars@.len(),
            last_component(chars@.take(end as int), front as nat) == last_component(
                chars@.take(at as int),
                front as nat,
            ),
        decreases at,
    {
        at = at - 1;
        assert(chars@.take(at + 1).drop_last() == chars@.take(at as int));
    }
    at
}

/// The number of characters left once the empty and `.` components at the end
/// of the first `end` characters are gone.
fn trimmed_length(chars: &[char], front: usize, end: usize) -> (r: usize)
    requires
        front <= end <= chars@.len(),
    ensures
        front <= r <= end,
        chars@.take(r as int) == trimmed(chars@.take(end as int), front as nat),
    decreases end,
{
    let ghost path = chars@.take(end as int);
    if end == front {
        return end;
    }
    let start: usize = component_start(chars, front, end);
    let ghost name = path.skip(start as int);
    let empty: bool = start == end;
    let dot: bool = end - start == 1 && chars[start] == '.';
    assert(empty <==> name == Seq::<char>::empty()) by {
        if empty {
            assert(name =~= Seq::<char>::empty());
        } else {
            assert(name.len() > 0);
        }
    }
    assert(dot <==> name == seq!['.']) by {
        if dot {
            assert(name =~= seq!['.']);
        } else if name == seq!['.'] {
            assert(name.len() == 1);
            assert(name[0] == chars@[start as int]);
        }
    }
    if empty || dot {
        let rest: usize = if start > front {
            start - 1
        } else {
            front
        };
        assert(path.take(rest as int) == chars@.take(rest as int));
        trimmed_length(chars, front, rest)
    } else {
        end
    }
}

/// The directory that holds `path`.
pub fn parent_dir(path: &str) -> (r: Option<String>)
    ensures
        match r {
            Some(dir) => parent(path@) == Some(dir@),
            None => parent(path@) is None,
        },
{
    let chars = chars_of(path);
    let absolute: bool = chars.len() > 0 && chars[0] == '/';
    let dotted: bool = chars.len() > 0 && chars[0] == '.' && (chars.len() == 1 || chars[1] == '/');
    let front: usize = if absolute || dotted {
        1
    } else {
        0
    };
    assert(chars@.take(chars@.len() as int) == chars@);
    let end: usize = trimmed_length(&chars, front, chars.len());
    let ghost named = chars@.take(end as int);
    if end > front {
        let start: usize = component_start(&chars, front, end);
        let rest: usize = if start > front {
            start - 1
        } else {
            front
        };
        assert(named.take(rest as int) == chars@.take(rest as int));
        let kept: usize = trimmed_length(&chars, front, rest);
        assert(chars@.subrange(0, kept as int) == chars@.take(kept as int));
        Some(text_between(&chars, 0, kept))
    } else if front == 1 && !absolute {
        let none = String::new();
        assert(none@ =~= seq![]);
        Some(none)
    } else {
        None
    }
}

/// What follows the last slash of `path`.
pub fn file_name_of(path: &str) -> (r: String)
    ensures
        r@ == file_name(path@),
{
    let pieces = split_text(path, '/');
    proof {
        lemma_split_has_pieces(path@, '/');
        assert(texts(pieces@).len() == pieces@.len());
    }
    pieces[pieces.len() - 1].as_str().to_owned()
}

} // verus!
