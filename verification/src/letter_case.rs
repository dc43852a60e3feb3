//! Letter case: the PascalCase of task names and the lowercase of directories.

use crate::text::{
    chars_of, concatenated, lemma_pieces_hold_no_separator, lemma_split_has_pieces,
    lemma_split_of_a_join, lemma_split_without_a_separator, split, split_text, text_between, texts,
};
use vstd::prelude::*;

verus! {

/// What `char::to_uppercase` gives for a character outside ASCII.
pub uninterp spec fn unicode_uppercase(c: char) -> Seq<char>;

/// What `str::to_lowercase` gives for a text with characters outside ASCII.
pub uninterp spec fn unicode_lowercase(s: Seq<char>) -> Seq<char>;

/// The character is one of ASCII.
pub open spec fn is_ascii_char(c: char) -> bool {
    (c as int) < 128
}

/// Every character is one of ASCII.
pub open spec fn is_ascii_text(s: Seq<char>) -> bool {
    forall|i: int| 0 <= i < s.len() ==> is_ascii_char(#[trigger] s[i])
}

/// `a` to `z` as `A` to `Z`, any other character as it is.
pub open spec fn ascii_upper(c: char) -> char {
    if 'a' <= c && c <= 'z' {
        ((c as int) - 32) as char
    } else {
        c
    }
}

/// `A` to `Z` as `a` to `z`, any other character as it is.
pub open spec fn ascii_lower(c: char) -> char {
    if 'A' <= c && c <= 'Z' {
        ((c as int) + 32) as char
    } else {
        c
    }
}

/// A character in uppercase, which can take several characters.
pub open spec fn uppercase(c: char) -> Seq<char> {
    if is_ascii_char(c) {
        seq![ascii_upper(c)]
    } else {
        unicode_uppercase(c)
    }
}

/// A text in lowercase.
pub open spec fn lowercase(s: Seq<char>) -> Seq<char> {
    if is_ascii_text(s) {
        s.map_values(|c: char| ascii_lower(c))
    } else {
        unicode_lowercase(s)
    }
}

/// A text with its first character in uppercase.
pub open spec fn capitalized(s: Seq<char>) -> Seq<char> {
    if s.len() == 0 {
        s
    } else {
        uppercase(s[0]) + s.skip(1)
    }
}

/// The pieces between underscores, each capitalized, run together.
pub open spec fn pascal_case(s: Seq<char>) -> Seq<char> {
    concatenated(split(s, '_').map_values(|piece: Seq<char>| capitalized(piece)))
}

/// A text without underscores only gets its first letter in upper case.
pub proof fn lemma_pascal_case_of_one_word(s: Seq<char>)
    requires
        !s.contains('_'),
    ensures
        pascal_case(s) == capitalized(s),
{
    lemma_split_without_a_separator(s, '_');
    let parts = seq![capitalized(s)];
    assert(split(s, '_').map_values(|part: Seq<char>| capitalized(part)) =~= parts);
    reveal_with_fuel(concatenated, 2);
    assert(concatenated(parts) =~= capitalized(s));
}

/// Parts one after another, and more parts behind them.
proof fn lemma_concatenated_parts(parts: Seq<Seq<char>>, more: Seq<Seq<char>>)
    ensures
        concatenated(parts + more) == concatenated(parts) + concatenated(more),
    decreases more.len(),
{
    if more.len() == 0 {
        assert(parts + more =~= parts);
        assert(concatenated(parts) + concatenated(more) =~= concatenated(parts));
    } else {
        let both = parts + more;
        lemma_concatenated_parts(parts, more.drop_last());
        assert(both.drop_last() =~= parts + more.drop_last());
        assert(concatenated(both) =~= concatenated(parts) + concatenated(more));
    }
}

/// What no part holds, the parts one after another do not hold.
proof fn lemma_concatenated_holds_no_more(parts: Seq<Seq<char>>, c: char)
    requires
        forall|i: int| 0 <= i < parts.len() ==> !(#[trigger] parts[i]).contains(c),
    ensures
        !concatenated(parts).contains(c),
    decreases parts.len(),
{
    if parts.len() > 0 {
        let front = concatenated(parts.drop_last());
        let whole = front + parts.last();
        assert forall|i: int| 0 <= i < parts.len() - 1 implies !(
        #[trigger] parts.drop_last()[i]).contains(c) by {
            assert(!parts[i].contains(c));
        }
        lemma_concatenated_holds_no_more(parts.drop_last(), c);
        assert(!parts[parts.len() - 1].contains(c));
        if whole.contains(c) {
            let k = choose|k: int| 0 <= k < whole.len() && whole[k] == c;
            if k < front.len() {
                assert(front[k] == c);
            } else {
                assert(parts.last()[k - front.len()] == c);
            }
        }
    }
}

/// The parts one after another start as the first part that is not empty does.
proof fn lemma_concatenated_starts_with_a_part(parts: Seq<Seq<char>>)
    requires
        concatenated(parts).len() > 0,
    ensures
        exists|i: int|
            0 <= i < parts.len() && (#[trigger] parts[i]).len() > 0 && concatenated(parts)[0]
                == parts[i][0],
    decreases parts.len(),
{
    let front = concatenated(parts.drop_last());
    if front.len() > 0 {
        lemma_concatenated_starts_with_a_part(parts.drop_last());
        let i = choose|i: int|
            0 <= i < parts.drop_last().len() && (#[trigger] parts.drop_last()[i]).len() > 0
                && front[0] == parts.drop_last()[i][0];
        assert(parts[i] == parts.drop_last()[i]);
    } else {
        assert(parts[parts.len() - 1] == parts.last());
    }
}

/// Each word of the identifier starts with a character of ASCII.
pub open spec fn words_start_in_ascii(s: Seq<char>) -> bool {
    forall|i: int|
        0 <= i < split(s, '_').len() && (#[trigger] split(s, '_')[i]).len() > 0 ==> is_ascii_char(
            split(s, '_')[i][0],
        )
}

/// The pieces of an ASCII text are ASCII texts.
proof fn lemma_pieces_of_an_ascii_text(s: Seq<char>)
    requires
        is_ascii_text(s),
    ensures
        forall|i: int|
            0 <= i < split(s, '_').len() ==> is_ascii_text(#[trigger] split(s, '_')[i]),
    decreases s.len(),
{
    if s.len() > 0 {
        let rest = split(s.drop_last(), '_');
        lemma_pieces_of_an_ascii_text(s.drop_last());
        lemma_split_has_pieces(s.drop_last(), '_');
        assert(is_ascii_text(rest[rest.len() - 1]));
        assert(is_ascii_char(s[s.len() - 1]));
    }
}

/// The words of an ASCII text start in ASCII.
proof fn lemma_words_of_an_ascii_text(s: Seq<char>)
    requires
        is_ascii_text(s),
    ensures
        words_start_in_ascii(s),
{
    lemma_pieces_of_an_ascii_text(s);
    assert forall|i: int|
        0 <= i < split(s, '_').len() && (#[trigger] split(s, '_')[i]).len()
            > 0 implies is_ascii_char(split(s, '_')[i][0]) by {
        assert(is_ascii_text(split(s, '_')[i]));
    }
}

/// An underscore only separates: two identifiers with an underscore between them
/// give what the one gives and what the other gives. The empty text stays empty.
pub proof fn law_pascal_case_joins_words(a: Seq<char>, b: Seq<char>)
    ensures
        pascal_case(a + seq!['_'] + b) == pascal_case(a) + pascal_case(b),
        pascal_case(seq![]) == Seq::<char>::empty(),
{
    let parts = split(a, '_').map_values(|piece: Seq<char>| capitalized(piece));
    let more = split(b, '_').map_values(|piece: Seq<char>| capitalized(piece));
    assert(a + seq!['_'] + b =~= a.push('_') + b);
    lemma_split_of_a_join(a, b, '_');
    assert((split(a, '_') + split(b, '_')).map_values(|piece: Seq<char>| capitalized(piece))
        =~= parts + more);
    lemma_concatenated_parts(parts, more);
    lemma_pascal_case_of_one_word(seq![]);
}

/// A word keeps all its characters but the first, which becomes a capital where
/// it is one of `a` to `z`.
pub proof fn law_word_starts_with_a_capital(first: char, rest: Seq<char>)
    requires
        is_ascii_char(first),
        first != '_',
        !rest.contains('_'),
    ensures
        ({
            let word = pascal_case(seq![first] + rest);
            &&& word.len() == rest.len() + 1
            &&& word.skip(1) == rest
            &&& if 'a' <= first && first <= 'z' {
                'A' <= word[0] && word[0] <= 'Z' && word[0] as int - 'A' as int == first as int
                    - 'a' as int
            } else {
                word[0] == first
            }
        }),
{
    let s = seq![first] + rest;
    assert(!s.contains('_')) by {
        if s.contains('_') {
            let i = choose|i: int| 0 <= i < s.len() && s[i] == '_';
            assert(rest[i - 1] == '_');
        }
    }
    lemma_pascal_case_of_one_word(s);
    assert(s.skip(1) =~= rest);
    assert(capitalized(s).skip(1) =~= rest);
}

/// PascalCase leaves no underscore, and converting twice is converting once.
/// This is stated of ASCII texts and of words that start in ASCII, as the
/// uppercase of any other character is known by name only.
pub proof fn law_pascal_case_is_one_word(s: Seq<char>)
    requires
        is_ascii_text(s) || words_start_in_ascii(s),
    ensures
        !pascal_case(s).contains('_'),
        pascal_case(pascal_case(s)) == pascal_case(s),
{
    let pieces = split(s, '_');
    let parts = pieces.map_values(|piece: Seq<char>| capitalized(piece));
    let whole = pascal_case(s);
    if is_ascii_text(s) {
        lemma_words_of_an_ascii_text(s);
    }
    lemma_pieces_hold_no_separator(s, '_');
    assert forall|i: int| 0 <= i < parts.len() implies !(#[trigger] parts[i]).contains('_') by {
        assert(!pieces[i].contains('_'));
        if parts[i].contains('_') {
            let k = choose|k: int| 0 <= k < parts[i].len() && parts[i][k] == '_';
            assert(pieces[i].contains(pieces[i][k]));
            assert(is_ascii_char(pieces[i][0]));
        }
    }
    lemma_concatenated_holds_no_more(parts, '_');
    lemma_pascal_case_of_one_word(whole);
    if whole.len() > 0 {
        lemma_concatenated_starts_with_a_part(parts);
        let i = choose|i: int|
            0 <= i < parts.len() && (#[trigger] parts[i]).len() > 0 && whole[0] == parts[i][0];
        assert(pieces[i].len() > 0);
        assert(is_ascii_char(pieces[i][0]));
        assert(whole[0] == ascii_upper(pieces[i][0]));
        assert(capitalized(whole) =~= whole);
    }
}

/// `char::to_uppercase`: an ASCII letter becomes the capital letter and any
/// other ASCII character stays; for the rest the Unicode mapping is named.
#[verifier::external_body]
fn uppercase_text(c: char) -> (r: String)
    ensures
        r@ == (if is_ascii_char(c) {
            seq![ascii_upper(c)]
        } else {
            unicode_uppercase(c)
        }),
{
    c.to_uppercase().to_string()
}

/// `str::to_lowercase`: an ASCII text has its capital letters replaced by the
/// small ones and nothing else changed; for the rest the Unicode mapping is
/// named.
#[verifier::external_body]
pub(crate) fn lowercase_text(s: &str) -> (r: String)
    ensures
        r@ == (if is_ascii_text(s@) {
            s@.map_values(|c: char| ascii_lower(c))
        } else {
            unicode_lowercase(s@)
        }),
{
    s.to_lowercase()
}

/// A text with its first character in uppercase.
fn capitalize(s: &str) -> (r: String)
    ensures
        r@ == capitalized(s@),
{
    let chars = chars_of(s);
    if chars.len() == 0 {
        return s.to_owned();
    }
    let mut r = uppercase_text(chars[0]);
    let rest = text_between(&chars, 1, chars.len());
    assert(s@.skip(1) == s@.subrange(1, s@.len() as int));
    r.append(rest.as_str());
    r
}

/// Converts an identifier to PascalCase.
pub fn to_pascal_case(s: &str) -> (r: String)
    ensures
        r@ == pascal_case(s@),
{
    let pieces = split_text(s, '_');
    let ghost parts = split(s@, '_').map_values(|piece: Seq<char>| capitalized(piece));
    let mut r = String::new();
    let mut i: usize = 0;
    assert(parts.take(0).len() == 0);
    while i < pieces.len()
        invariant
            i <= pieces@.len(),
            texts(pieces@) == split(s@, '_'),
            parts == split(s@, '_').map_values(|piece: Seq<char>| capitalized(piece)),
            r@ == concatenated(parts.take(i as int)),
        decreases pieces@.len() - i,
    {
        let word = capitalize(pieces[i].as_str());
        r.append(word.as_str());
        i = i + 1;
        assert(parts.take(i as int).drop_last() == parts.take(i - 1));
        assert(texts(pieces@)[i - 1] == pieces@[i - 1]@);
        assert(parts.take(i as int).last() == word@);
    }
    assert(parts.take(i as int) == parts);
    r
}

} // verus!
