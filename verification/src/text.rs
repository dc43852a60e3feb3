//! Text handling shared by every plugin: lists of strings, joining, searching,
//! splitting, and the order in which maps keep their keys.
//!
//! A `String` or `&str` is modelled by the sequence of its characters.

use vstd::prelude::*;

verus! {

/// `String::push` appends one character to the end of the string.
pub assume_specification[ String::push ](s: &mut String, c: char)
    ensures
        final(s)@ == old(s)@.push(c),
;

/// The characters of each string of a list.
pub open spec fn texts(list: Seq<String>) -> Seq<Seq<char>> {
    list.map_values(|s: String| s@)
}

/// A fallible text, by its characters.
pub open spec fn text_result(r: Result<String, String>) -> Result<Seq<char>, Seq<char>> {
    match r {
        Ok(s) => Ok(s@),
        Err(e) => Err(e@),
    }
}

/// A fallible list of texts, by their characters.
pub open spec fn texts_result(r: Result<Vec<String>, String>) -> Result<
    Seq<Seq<char>>,
    Seq<char>,
> {
    match r {
        Ok(list) => Ok(texts(list@)),
        Err(e) => Err(e@),
    }
}

/// A fallible plain value, its error by its characters.
pub open spec fn plain_result<T>(r: Result<T, String>) -> Result<T, Seq<char>> {
    match r {
        Ok(v) => Ok(v),
        Err(e) => Err(e@),
    }
}

/// An optional text, by its characters.
pub open spec fn optional_text(s: Option<&str>) -> Option<Seq<char>> {
    match s {
        Some(t) => Some(t@),
        None => None,
    }
}

/// A list with an item added where the condition holds.
pub open spec fn added_if<T>(list: Seq<T>, condition: bool, item: T) -> Seq<T> {
    if condition {
        list.push(item)
    } else {
        list
    }
}

/// The parts one after another, with `separator` between neighbours.
pub open spec fn joined(parts: Seq<Seq<char>>, separator: Seq<char>) -> Seq<char>
    decreases parts.len(),
{
    if parts.len() <= 1 {
        if parts.len() == 0 {
            seq![]
        } else {
            parts[0]
        }
    } else {
        joined(parts.drop_last(), separator) + separator + parts.last()
    }
}

/// The parts one after another.
pub open spec fn concatenated(parts: Seq<Seq<char>>) -> Seq<char>
    decreases parts.len(),
{
    if parts.len() == 0 {
        seq![]
    } else {
        concatenated(parts.drop_last()) + parts.last()
    }
}

/// The texts of a list in order, each only where it comes first.
pub open spec fn distinct(list: Seq<Seq<char>>) -> Seq<Seq<char>>
    decreases list.len(),
{
    if list.len() == 0 {
        seq![]
    } else {
        let earlier = distinct(list.drop_last());
        if earlier.contains(list.last()) {
            earlier
        } else {
            earlier.push(list.last())
        }
    }
}

/// The first text of a list that passes a test.
pub open spec fn first_where(list: Seq<Seq<char>>, test: spec_fn(Seq<char>) -> bool) -> Option<
    Seq<char>,
>
    decreases list.len(),
{
    if list.len() == 0 {
        None
    } else if test(list[0]) {
        Some(list[0])
    } else {
        first_where(list.drop_first(), test)
    }
}

/// A list without repetitions has the texts of the list it was made from, and
/// no text twice.
pub proof fn law_distinct_keeps_each_text_once(list: Seq<Seq<char>>)
    ensures
        distinct(list).no_duplicates(),
        forall|s: Seq<char>| distinct(list).contains(s) <==> list.contains(s),
    decreases list.len(),
{
    if list.len() > 0 {
        let rest = list.drop_last();
        law_distinct_keeps_each_text_once(rest);
        let earlier = distinct(rest);
        assert forall|s: Seq<char>| distinct(list).contains(s) <==> list.contains(s) by {
            if list.contains(s) {
                let i = choose|i: int| 0 <= i < list.len() && list[i] == s;
                if i < rest.len() {
                    assert(rest[i] == s);
                    assert(rest.contains(s));
                    assert(earlier.contains(s));
                    let j = choose|j: int| 0 <= j < earlier.len() && earlier[j] == s;
                    assert(distinct(list)[j] == s);
                } else if !earlier.contains(s) {
                    assert(distinct(list)[earlier.len() as int] == s);
                }
            }
            if distinct(list).contains(s) {
                let j = choose|j: int| 0 <= j < distinct(list).len() && distinct(list)[j] == s;
                if j < earlier.len() {
                    assert(earlier[j] == s);
                    assert(rest.contains(s));
                    let i = choose|i: int| 0 <= i < rest.len() && rest[i] == s;
                    assert(list[i] == s);
                } else {
                    assert(list[list.len() - 1] == s);
                }
            }
        }
    }
}

/// What comes first stays first: texts added behind a list leave the front of
/// the list without repetitions as it was.
pub proof fn law_distinct_keeps_the_front(list: Seq<Seq<char>>, more: Seq<Seq<char>>)
    ensures
        distinct(list).is_prefix_of(distinct(list + more)),
    decreases more.len(),
{
    if more.len() == 0 {
        assert(list + more =~= list);
    } else {
        law_distinct_keeps_the_front(list, more.drop_last());
        assert((list + more).drop_last() =~= list + more.drop_last());
    }
}

/// A list that has no text twice is left as it is.
pub proof fn law_distinct_leaves_a_distinct_list(list: Seq<Seq<char>>)
    requires
        list.no_duplicates(),
    ensures
        distinct(list) == list,
    decreases list.len(),
{
    if list.len() > 0 {
        let rest = list.drop_last();
        law_distinct_leaves_a_distinct_list(rest);
        if rest.contains(list.last()) {
            let i = choose|i: int| 0 <= i < rest.len() && rest[i] == list.last();
            assert(list[i] == list[list.len() - 1]);
        }
    }
}

/// `pattern` stands in `s` from position `at` on.
pub open spec fn occurs_at(s: Seq<char>, pattern: Seq<char>, at: int) -> bool {
    &&& 0 <= at
    &&& at + pattern.len() <= s.len()
    &&& s.subrange(at, at + pattern.len()) == pattern
}

/// `pattern` stands somewhere in `s`.
pub open spec fn contains_text(s: Seq<char>, pattern: Seq<char>) -> bool {
    exists|at: int| occurs_at(s, pattern, at)
}

/// `s` ends in `suffix`.
pub open spec fn ends_with(s: Seq<char>, suffix: Seq<char>) -> bool {
    occurs_at(s, suffix, s.len() - suffix.len())
}

/// `at` is the last position at which `pattern` stands in `s`.
pub open spec fn is_last_occurrence(s: Seq<char>, pattern: Seq<char>, at: int) -> bool {
    &&& occurs_at(s, pattern, at)
    &&& forall|later: int| at < later ==> !occurs_at(s, pattern, later)
}

/// The last position at which `pattern` stands in `s`, if there is one.
pub open spec fn last_occurrence(s: Seq<char>, pattern: Seq<char>) -> Option<int> {
    if contains_text(s, pattern) {
        Some(choose|at: int| is_last_occurrence(s, pattern, at))
    } else {
        None
    }
}

/// There is only one last position.
pub proof fn lemma_last_occurrence_is_unique(s: Seq<char>, pattern: Seq<char>, at: int)
    requires
        is_last_occurrence(s, pattern, at),
    ensures
        last_occurrence(s, pattern) == Some(at),
{
    let chosen = choose|other: int| is_last_occurrence(s, pattern, other);
    assert(is_last_occurrence(s, pattern, chosen));
    if chosen < at {
        assert(!occurs_at(s, pattern, at));
    }
    if at < chosen {
        assert(!occurs_at(s, pattern, chosen));
    }
}

/// The pieces of `s` between the occurrences of `separator`; a text without
/// the separator is its own only piece.
pub open spec fn split(s: Seq<char>, separator: char) -> Seq<Seq<char>>
    decreases s.len(),
{
    if s.len() == 0 {
        seq![seq![]]
    } else {
        let pieces = split(s.drop_last(), separator);
        if s.last() == separator {
            pieces.push(seq![])
        } else {
            pieces.drop_last().push(pieces.last().push(s.last()))
        }
    }
}

/// A text has at least one piece.
pub proof fn lemma_split_has_pieces(s: Seq<char>, separator: char)
    ensures
        split(s, separator).len() > 0,
    decreases s.len(),
{
    if s.len() > 0 {
        lemma_split_has_pieces(s.drop_last(), separator);
    }
}

/// The pieces of two texts with a separator between them are the pieces of the
/// one and the pieces of the other.
pub proof fn lemma_split_of_a_join(a: Seq<char>, b: Seq<char>, separator: char)
    ensures
        split(a.push(separator) + b, separator) == split(a, separator) + split(b, separator),
    decreases b.len(),
{
    let whole = a.push(separator) + b;
    lemma_split_has_pieces(b, separator);
    if b.len() == 0 {
        assert(whole =~= a.push(separator));
        assert(whole.drop_last() =~= a);
        assert(split(whole, separator) =~= split(a, separator) + split(b, separator));
    } else {
        lemma_split_has_pieces(b.drop_last(), separator);
        lemma_split_of_a_join(a, b.drop_last(), separator);
        assert(whole.drop_last() =~= a.push(separator) + b.drop_last());
        assert(split(whole, separator) =~= split(a, separator) + split(b, separator));
    }
}

/// A text without the separator is its own only piece.
pub proof fn lemma_split_without_a_separator(s: Seq<char>, separator: char)
    requires
        !s.contains(separator),
    ensures
        split(s, separator) == seq![s],
    decreases s.len(),
{
    if s.len() > 0 {
        let rest = s.drop_last();
        assert(s.contains(s[s.len() - 1]));
        assert forall|i: int| 0 <= i < rest.len() implies #[trigger] rest[i] != separator by {
            assert(s.contains(s[i]));
        }
        lemma_split_without_a_separator(rest, separator);
        assert(rest.push(s.last()) =~= s);
        assert(split(s, separator) =~= seq![s]);
    } else {
        assert(s =~= seq![]);
    }
}

/// Nothing is lost in a list that is joined: the pieces between the separators
/// are the parts again, where no part holds the separator.
pub proof fn law_joined_parts_are_split_back(parts: Seq<Seq<char>>, separator: char)
    requires
        parts.len() > 0,
        forall|i: int| 0 <= i < parts.len() ==> !(#[trigger] parts[i]).contains(separator),
    ensures
        split(joined(parts, seq![separator]), separator) == parts,
    decreases parts.len(),
{
    let last = parts.last();
    lemma_split_without_a_separator(last, separator);
    if parts.len() == 1 {
        assert(parts =~= seq![parts[0]]);
    } else {
        let front = parts.drop_last();
        assert forall|i: int| 0 <= i < front.len() implies !(#[trigger] front[i]).contains(
            separator,
        ) by {
            assert(front[i] == parts[i]);
        }
        law_joined_parts_are_split_back(front, separator);
        let text = joined(front, seq![separator]);
        lemma_split_of_a_join(text, last, separator);
        assert(text + seq![separator] + last =~= text.push(separator) + last);
        assert(front + seq![last] =~= parts);
    }
}

/// The parts of a list stand in the joined text one after another, with one
/// separator between neighbours, and nothing else does.
pub proof fn law_join_of_two_lists(a: Seq<Seq<char>>, b: Seq<Seq<char>>, separator: Seq<char>)
    requires
        a.len() > 0,
        b.len() > 0,
    ensures
        joined(a + b, separator) == joined(a, separator) + separator + joined(b, separator),
        joined(seq![a[0]], separator) == a[0],
    decreases b.len(),
{
    let all = a + b;
    assert(all.last() == b.last());
    if b.len() == 1 {
        assert(all.drop_last() =~= a);
        assert(b[0] == b.last());
    } else {
        assert(all.drop_last() =~= a + b.drop_last());
        law_join_of_two_lists(a, b.drop_last(), separator);
        assert(joined(all, separator) =~= joined(a, separator) + separator + joined(b, separator));
    }
}

/// No piece holds the separator.
pub proof fn lemma_pieces_hold_no_separator(s: Seq<char>, separator: char)
    ensures
        forall|i: int|
            0 <= i < split(s, separator).len() ==> !(#[trigger] split(s, separator)[i]).contains(
                separator,
            ),
    decreases s.len(),
{
    if s.len() > 0 {
        let rest = split(s.drop_last(), separator);
        lemma_pieces_hold_no_separator(s.drop_last(), separator);
        lemma_split_has_pieces(s.drop_last(), separator);
        assert(!rest.last().contains(separator));
        if s.last() != separator {
            let longer = rest.last().push(s.last());
            if longer.contains(separator) {
                let k = choose|k: int| 0 <= k < longer.len() && longer[k] == separator;
                assert(rest.last()[k] == separator);
            }
        }
    }
}

/// Every character but the separator is in some piece.
pub proof fn lemma_character_is_in_a_piece(s: Seq<char>, separator: char, i: int) -> (k: int)
    requires
        0 <= i < s.len(),
        s[i] != separator,
    ensures
        0 <= k < split(s, separator).len(),
        split(s, separator)[k].contains(s[i]),
    decreases s.len(),
{
    let rest = s.drop_last();
    let pieces = split(rest, separator);
    let all = split(s, separator);
    lemma_split_has_pieces(rest, separator);
    if i == s.len() - 1 {
        let piece = all[all.len() - 1];
        assert(piece[piece.len() - 1] == s[i]);
        all.len() - 1
    } else {
        assert(rest[i] == s[i]);
        let k = lemma_character_is_in_a_piece(rest, separator, i);
        let at = choose|at: int| 0 <= at < pieces[k].len() && pieces[k][at] == s[i];
        assert(all[k][at] == s[i]);
        k
    }
}

/// `s` with each dot turned into a slash.
pub open spec fn dots_to_slashes(s: Seq<char>) -> Seq<char> {
    s.map_values(
        |c: char|
            if c == '.' {
                '/'
            } else {
                c
            },
    )
}

/// The dotted components of a text become the components of a path.
pub proof fn law_dotted_components_become_directories(s: Seq<char>)
    requires
        !s.contains('/'),
    ensures
        split(dots_to_slashes(s), '/') == split(s, '.'),
    decreases s.len(),
{
    let path = dots_to_slashes(s);
    if s.len() > 0 {
        let rest = s.drop_last();
        assert(s.contains(s[s.len() - 1]));
        assert forall|i: int| 0 <= i < rest.len() implies #[trigger] rest[i] != '/' by {
            assert(s.contains(s[i]));
        }
        law_dotted_components_become_directories(rest);
        assert(path.drop_last() =~= dots_to_slashes(rest));
    } else {
        assert(path =~= s);
    }
}

/// The texts agree up to position `at`, where `a` ends or holds the lesser
/// character.
pub open spec fn diverges_at(a: Seq<char>, b: Seq<char>, at: int) -> bool {
    &&& 0 <= at <= a.len()
    &&& at < b.len()
    &&& forall|i: int| 0 <= i < at ==> a[i] == b[i]
    &&& at == a.len() || (a[at] as int) < (b[at] as int)
}

/// `a` comes strictly before `b` in the order of `String`: character by
/// character in order of code points, which is the order of the UTF-8 bytes.
pub open spec fn before(a: Seq<char>, b: Seq<char>) -> bool {
    exists|at: int| diverges_at(a, b, at)
}

/// No text comes before itself, and of two texts at most one comes before the
/// other.
pub proof fn lemma_before_is_strict(a: Seq<char>, b: Seq<char>)
    ensures
        !(before(a, b) && before(b, a)),
        !before(a, a),
{
    if before(a, b) && before(b, a) {
        let i = choose|at: int| diverges_at(a, b, at);
        let j = choose|at: int| diverges_at(b, a, at);
        if i < j {
            assert(b[i] == a[i]);
        } else if j < i {
            assert(a[j] == b[j]);
        }
        assert(false);
    }
    if before(a, a) {
        let i = choose|at: int| diverges_at(a, a, at);
        assert(false);
    }
}

/// The first character in which two texts differ decides which comes first, and
/// a text comes before what it is the front of.
pub proof fn law_first_different_character_decides(
    front: Seq<char>,
    x: char,
    y: char,
    a: Seq<char>,
    b: Seq<char>,
)
    requires
        (x as int) < (y as int),
    ensures
        before(front.push(x) + a, front.push(y) + b),
        !before(front.push(y) + b, front.push(x) + a),
        before(front, front.push(x) + a),
        !before(front.push(x) + a, front),
{
    let less = front.push(x) + a;
    let more = front.push(y) + b;
    assert(diverges_at(less, more, front.len() as int));
    assert(diverges_at(front, less, front.len() as int));
    lemma_before_is_strict(less, more);
    lemma_before_is_strict(front, less);
}

/// The order is transitive.
pub proof fn lemma_before_is_transitive(a: Seq<char>, b: Seq<char>, c: Seq<char>)
    requires
        before(a, b),
        before(b, c),
    ensures
        before(a, c),
{
    let i = choose|at: int| diverges_at(a, b, at);
    let j = choose|at: int| diverges_at(b, c, at);
    let k = if i < j {
        i
    } else {
        j
    };
    assert(diverges_at(a, c, k));
}

/// How two texts stand to each other in the order of `String`.
#[derive(Clone, Copy, PartialEq, Eq, Structural, Debug)]
pub enum Order {
    Before,
    Same,
    After,
}

/// The characters of a text, in order.
pub fn chars_of(s: &str) -> (r: Vec<char>)
    ensures
        r@ == s@,
{
    let mut r: Vec<char> = Vec::new();
    for c in it: s.chars()
        invariant
            it.seq() == s@,
            r@ == s@.take(it.index()),
    {
        r.push(c);
    }
    assert(s@.take(s@.len() as int) == s@);
    r
}

/// The text made of the characters from `from` up to, not counting, `to`.
pub fn text_between(chars: &[char], from: usize, to: usize) -> (r: String)
    requires
        from <= to <= chars@.len(),
    ensures
        r@ == chars@.subrange(from as int, to as int),
{
    let mut r = String::new();
    let mut i: usize = from;
    while i < to
        invariant
            from <= i <= to <= chars@.len(),
            r@ == chars@.subrange(from as int, i as int),
        decreases to - i,
    {
        r.push(chars[i]);
        i = i + 1;
        assert(chars@.subrange(from as int, i as int) == chars@.subrange(
            from as int,
            i - 1,
        ).push(chars@[i - 1]));
    }
    r
}

/// Whether two texts are the same.
pub fn same_text(a: &str, b: &str) -> (r: bool)
    ensures
        r == (a@ == b@),
{
    a.to_owned() == b.to_owned()
}

/// Compares two texts in the order of `String`.
pub fn order_of(a: &str, b: &str) -> (r: Order)
    ensures
        r == Order::Before <==> before(a@, b@),
        r == Order::Same <==> a@ == b@,
        r == Order::After <==> before(b@, a@),
{
    let x = chars_of(a);
    let y = chars_of(b);
    proof {
        lemma_before_is_strict(a@, b@);
        lemma_before_is_strict(b@, b@);
    }
    let mut i: usize = 0;
    while i < x.len() && i < y.len() && x[i] == y[i]
        invariant
            i <= x@.len(),
            i <= y@.len(),
            forall|k: int| 0 <= k < i ==> x@[k] == y@[k],
        decreases x@.len() - i,
    {
        i = i + 1;
    }
    if i < x.len() {
        if i < y.len() && x[i] < y[i] {
            assert(diverges_at(a@, b@, i as int));
            Order::Before
        } else {
            assert(diverges_at(b@, a@, i as int));
            Order::After
        }
    } else if i < y.len() {
        assert(diverges_at(a@, b@, i as int));
        Order::Before
    } else {
        assert(a@ =~= b@);
        Order::Same
    }
}

/// Appends one text to a list.
pub fn push_text(list: &mut Vec<String>, s: &str)
    ensures
        texts(final(list)@) == texts(old(list)@).push(s@),
{
    list.push(s.to_owned());
    assert(texts(list@) =~= texts(old(list)@).push(s@));
}

/// Appends every text of `more` to a list, in order.
pub fn extend_texts(list: &mut Vec<String>, more: &[String])
    ensures
        texts(final(list)@) == texts(old(list)@) + texts(more@),
{
    let ghost start = texts(list@);
    assert(start + texts(more@).take(0) == start);
    let mut i: usize = 0;
    while i < more.len()
        invariant
            i <= more@.len(),
            texts(list@) == start + texts(more@).take(i as int),
        decreases more@.len() - i,
    {
        push_text(list, more[i].as_str());
        i = i + 1;
        assert(start + texts(more@).take(i as int) == (start + texts(more@).take(i - 1)).push(
            more@[i - 1]@,
        ));
    }
    assert(texts(more@).take(i as int) == texts(more@));
}

/// A copy of a list.
pub fn copy_texts(list: &[String]) -> (r: Vec<String>)
    ensures
        texts(r@) == texts(list@),
{
    let mut r: Vec<String> = Vec::new();
    extend_texts(&mut r, list);
    assert(texts(Seq::<String>::empty()) + texts(list@) == texts(list@));
    r
}

/// The list without texts.
pub fn no_texts() -> (r: Vec<String>)
    ensures
        texts(r@) == Seq::<Seq<char>>::empty(),
{
    let r: Vec<String> = Vec::new();
    assert(texts(r@) =~= Seq::<Seq<char>>::empty());
    r
}

/// The list of one text.
pub fn one_text(a: &str) -> (r: Vec<String>)
    ensures
        texts(r@) == seq![a@],
{
    let mut r = no_texts();
    push_text(&mut r, a);
    r
}

/// The list of two texts.
pub fn two_texts(a: &str, b: &str) -> (r: Vec<String>)
    ensures
        texts(r@) == seq![a@, b@],
{
    let mut r = one_text(a);
    push_text(&mut r, b);
    r
}

/// The list of three texts.
pub fn three_texts(a: &str, b: &str, c: &str) -> (r: Vec<String>)
    ensures
        texts(r@) == seq![a@, b@, c@],
{
    let mut r = two_texts(a, b);
    push_text(&mut r, c);
    r
}

/// One text after the other.
pub fn concat(a: &str, b: &str) -> (r: String)
    ensures
        r@ == a@ + b@,
{
    let mut r = a.to_owned();
    r.append(b);
    r
}

/// Three texts, one after the other.
pub fn concat3(a: &str, b: &str, c: &str) -> (r: String)
    ensures
        r@ == a@ + b@ + c@,
{
    let mut r = a.to_owned();
    r.append(b);
    r.append(c);
    r
}

/// Whether a list holds a text.
pub fn holds_text(list: &[String], s: &str) -> (r: bool)
    ensures
        r == texts(list@).contains(s@),
{
    let mut i: usize = 0;
    while i < list.len()
        invariant
            i <= list@.len(),
            forall|k: int| 0 <= k < i ==> texts(list@)[k] != s@,
        decreases list@.len() - i,
    {
        if same_text(list[i].as_str(), s) {
            assert(texts(list@)[i as int] == s@);
            return true;
        }
        i = i + 1;
    }
    false
}

/// Appends a text to a list that does not hold it yet.
pub fn push_distinct(list: &mut Vec<String>, s: &str)
    ensures
        texts(final(list)@) == (if texts(old(list)@).contains(s@) {
            texts(old(list)@)
        } else {
            texts(old(list)@).push(s@)
        }),
{
    if !holds_text(list, s) {
        push_text(list, s);
    }
}

/// Joins a list with `separator` between neighbours.
pub fn join_texts(list: &[String], separator: &str) -> (r: String)
    ensures
        r@ == joined(texts(list@), separator@),
{
    let mut r = String::new();
    let ghost parts = texts(list@);
    let mut i: usize = 0;
    while i < list.len()
        invariant
            i <= list@.len(),
            parts == texts(list@),
            r@ == joined(parts.take(i as int), separator@),
        decreases list@.len() - i,
    {
        if i > 0 {
            r.append(separator);
        }
        r.append(list[i].as_str());
        i = i + 1;
        assert(parts.take(i as int).drop_last() == parts.take(i - 1));
        assert(Seq::<char>::empty() + parts[i - 1] == parts[i - 1]);
    }
    assert(parts.take(i as int) == parts);
    r
}

/// Whether `pattern` stands in `text` from position `at` on.
fn stands_at(text: &[char], pattern: &[char], at: usize) -> (r: bool)
    ensures
        r == occurs_at(text@, pattern@, at as int),
{
    let total: usize = text.len();
    if at > total || pattern.len() > total - at {
        return false;
    }
    let mut i: usize = 0;
    while i < pattern.len()
        invariant
            i <= pattern@.len(),
            total == text@.len(),
            at + pattern@.len() <= total,
            forall|k: int| 0 <= k < i ==> text@[at + k] == pattern@[k],
        decreases pattern@.len() - i,
    {
        if text[at + i] != pattern[i] {
            assert(text@.subrange(at as int, at + pattern@.len())[i as int] != pattern@[i as int]);
            return false;
        }
        i = i + 1;
    }
    assert(text@.subrange(at as int, at + pattern@.len()) =~= pattern@);
    true
}

/// Whether `s` ends in `suffix`.
pub fn has_suffix(s: &str, suffix: &str) -> (r: bool)
    ensures
        r == ends_with(s@, suffix@),
{
    let text = chars_of(s);
    let pattern = chars_of(suffix);
    pattern.len() <= text.len() && stands_at(&text, &pattern, text.len() - pattern.len())
}

/// The last position at which `pattern` stands in `s`.
pub fn find_last(s: &str, pattern: &str) -> (r: Option<usize>)
    ensures
        match r {
            Some(at) => last_occurrence(s@, pattern@) == Some(at as int) && at <= s@.len(),
            None => last_occurrence(s@, pattern@) is None,
        },
{
    let text = chars_of(s);
    let chars = chars_of(pattern);
    if chars.len() > text.len() {
        return None;
    }
    let mut at: usize = text.len() - chars.len();
    loop
        invariant
            text@ == s@,
            chars@ == pattern@,
            at + chars@.len() <= text@.len(),
            forall|later: int| at < later ==> !occurs_at(s@, pattern@, later),
        decreases at,
    {
        if stands_at(&text, &chars, at) {
            proof {
                lemma_last_occurrence_is_unique(s@, pattern@, at as int);
            }
            return Some(at);
        }
        if at == 0 {
            return None;
        }
        at = at - 1;
    }
}

/// Whether `pattern` stands somewhere in `s`.
pub fn has_text(s: &str, pattern: &str) -> (r: bool)
    ensures
        r == contains_text(s@, pattern@),
{
    match find_last(s, pattern) {
        Some(at) => true,
        None => false,
    }
}

/// The first `count` characters of `s`.
pub fn prefix_of(s: &str, count: usize) -> (r: String)
    requires
        count <= s@.len(),
    ensures
        r@ == s@.take(count as int),
{
    let chars = chars_of(s);
    text_between(&chars, 0, count)
}

/// Splits `s` at each `separator`.
pub fn split_text(s: &str, separator: char) -> (r: Vec<String>)
    ensures
        texts(r@) == split(s@, separator),
{
    let chars = chars_of(s);
    let mut pieces = no_texts();
    let mut piece = String::new();
    let mut i: usize = 0;
    assert(texts(pieces@).push(piece@) == split(chars@.take(0), separator));
    while i < chars.len()
        invariant
            i <= chars@.len(),
            texts(pieces@).push(piece@) == split(chars@.take(i as int), separator),
        decreases chars@.len() - i,
    {
        let ghost done = texts(pieces@).push(piece@);
        if chars[i] == separator {
            push_text(&mut pieces, piece.as_str());
            piece = String::new();
        } else {
            piece.push(chars[i]);
        }
        i = i + 1;
        assert(chars@.take(i as int).drop_last() == chars@.take(i - 1));
        assert(done.drop_last() == texts(pieces@) || chars@[i - 1] == separator);
        assert(piece@ == Seq::<char>::empty() || chars@[i - 1] != separator);
    }
    assert(chars@.take(i as int) == chars@);
    push_text(&mut pieces, piece.as_str());
    pieces
}

/// `s` with each dot turned into a slash.
pub fn slashed(s: &str) -> (r: String)
    ensures
        r@ == dots_to_slashes(s@),
{
    let chars = chars_of(s);
    let mut r = String::new();
    let mut i: usize = 0;
    while i < chars.len()
        invariant
            i <= chars@.len(),
            r@ == dots_to_slashes(chars@.take(i as int)),
        decreases chars@.len() - i,
    {
        if chars[i] == '.' {
            r.push('/');
        } else {
            r.push(chars[i]);
        }
        i = i + 1;
        assert(dots_to_slashes(chars@.take(i as int)) == r@);
    }
    assert(chars@.take(i as int) == chars@);
    r
}

} // verus!
