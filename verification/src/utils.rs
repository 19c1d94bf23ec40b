//! The two forms of a name: separated lowercase, as in `user_id`, and capitalized, as in
//! `UserId`.

use crate::text::{joined, push_range, string_of, texts, to_chars};
use vstd::prelude::*;
use vstd::string::StringExecFns;

verus! {

/// Whether `c` has the Unicode property Uppercase: what `char::is_uppercase` answers.
pub uninterp spec fn uppercase(c: char) -> bool;

/// The uppercase form of `c`, which may be more than one character: the characters that
/// `char::to_uppercase` yields.
pub uninterp spec fn uppercase_form(c: char) -> Seq<char>;

/// The lowercase form of `c`, which may be more than one character: the characters that
/// `char::to_lowercase` yields.
pub uninterp spec fn lowercase_form(c: char) -> Seq<char>;

/// The uppercase form of a text: the characters of the string that `str::to_uppercase`
/// returns.
pub uninterp spec fn uppercase_text(s: Seq<char>) -> Seq<char>;

/// `char::is_uppercase` of std tells whether the character has the Unicode property
/// Uppercase. The answer depends on the character alone.
pub assume_specification[ char::is_uppercase ](c: char) -> (b: bool)
    ensures
        b == uppercase(c),
;

/// `str::to_uppercase` of std returns the uppercase form of the text as a new string. The
/// result depends on the text alone.
pub assume_specification[ str::to_uppercase ](s: &str) -> (upper: std::string::String)
    ensures
        upper@ == uppercase_text(s@),
;

/// `char::to_uppercase` of std yields the characters of the uppercase form of `c`; they are
/// gathered in a string. The result depends on the character alone.
#[verifier::external_body]
fn uppercase_of(c: char) -> (upper: String)
    ensures
        upper@ == uppercase_form(c),
{
    c.to_uppercase().collect()
}

/// `char::to_lowercase` of std yields the characters of the lowercase form of `c`; they are
/// gathered in a string. The result depends on the character alone.
#[verifier::external_body]
fn lowercase_of(c: char) -> (lower: String)
    ensures
        lower@ == lowercase_form(c),
{
    c.to_lowercase().collect()
}

/// Whether the character at place `i` is marked as an uppercase letter.
pub open spec fn marked(upper: Seq<bool>, i: int) -> bool {
    0 <= i < upper.len() && upper[i]
}

/// Whether a separator goes in front of the character at place `i`: in front of an
/// uppercase letter that is not the first character and does not follow another uppercase
/// letter.
pub open spec fn separated(upper: Seq<bool>, i: int) -> bool {
    marked(upper, i) && i > 0 && !marked(upper, i - 1)
}

/// What the character at place `i` becomes: its lowercase form, behind a separator where
/// one goes.
pub open spec fn snake_piece(upper: Seq<bool>, lower: Seq<Seq<char>>, i: int) -> Seq<char> {
    if separated(upper, i) {
        seq!['_'] + lower[i]
    } else {
        lower[i]
    }
}

/// What the first `n` characters become, one after the other.
pub open spec fn snake_prefix(upper: Seq<bool>, lower: Seq<Seq<char>>, n: int) -> Seq<char>
    decreases n,
{
    if n <= 0 {
        Seq::empty()
    } else {
        snake_prefix(upper, lower, n - 1) + snake_piece(upper, lower, n - 1)
    }
}

/// The separated lowercase form of a text of which `upper` tells, character by character,
/// whether it is an uppercase letter, and `lower` gives the lowercase form.
pub open spec fn snake_case_marked(upper: Seq<bool>, lower: Seq<Seq<char>>) -> Seq<char> {
    snake_prefix(upper, lower, lower.len() as int)
}

/// For each character of `s`, whether it is an uppercase letter.
pub open spec fn uppercase_marks(s: Seq<char>) -> Seq<bool> {
    Seq::new(s.len(), |i: int| uppercase(s[i]))
}

/// For each character of `s`, its lowercase form.
pub open spec fn lowercase_forms(s: Seq<char>) -> Seq<Seq<char>> {
    Seq::new(s.len(), |i: int| lowercase_form(s[i]))
}

/// The separated lowercase form of `s`: every character in its lowercase form, with a
/// separator in front of each uppercase letter that follows a character which is none.
pub open spec fn snake_case(s: Seq<char>) -> Seq<char> {
    snake_case_marked(uppercase_marks(s), lowercase_forms(s))
}

/// The separated lowercase form of a text, for a caller who knows of each of its characters
/// whether it is an uppercase letter and what its lowercase form is: `upper[i]` and
/// `lower[i]` tell it of the character at place `i`. The text has as many characters as
/// `lower` has forms, and a character without a mark counts as no uppercase letter.
pub fn to_snake_case_marked(upper: &Vec<bool>, lower: &Vec<String>) -> (r: String)
    ensures
        r@ == snake_case_marked(upper@, texts(lower@)),
{
    let mut r = String::new();
    let mut after_upper = false;
    let mut i: usize = 0;
    while i < lower.len()
        invariant
            i <= lower@.len(),
            r@ == snake_prefix(upper@, texts(lower@), i as int),
            after_upper == marked(upper@, i - 1),
        decreases lower@.len() - i,
    {
        let is_upper = i < upper.len() && upper[i];
        if is_upper && i > 0 && !after_upper {
            r.push('_');
        }
        r.append(lower[i].as_str());
        after_upper = is_upper;
        i = i + 1;
    }
    r
}

/// Converts a name such as `UserID` to the separated lowercase form `user_id`: a separator
/// goes in front of each uppercase letter that follows a character which is none, and every
/// letter is lowered.
pub fn to_snake_case(s: &str) -> (r: String)
    ensures
        r@ == snake_case(s@),
{
    let chars = to_chars(s);
    let mut upper: Vec<bool> = Vec::new();
    let mut lower: Vec<String> = Vec::new();
    let mut i: usize = 0;
    while i < chars.len()
        invariant
            i <= chars@.len(),
            upper@.len() == i,
            lower@.len() == i,
            forall|j: int| 0 <= j < i ==> upper@[j] == uppercase(chars@[j]),
            forall|j: int| 0 <= j < i ==> (#[trigger] lower@[j])@ == lowercase_form(chars@[j]),
        decreases chars@.len() - i,
    {
        upper.push(chars[i].is_uppercase());
        lower.push(lowercase_of(chars[i]));
        i = i + 1;
    }
    assert(upper@ =~= uppercase_marks(chars@));
    assert(texts(lower@) =~= lowercase_forms(chars@));
    to_snake_case_marked(&upper, &lower)
}

/// The words of `s`: what stands between its separators. A text without a separator is one
/// word, and a separator at either end or beside another leaves an empty word there.
pub open spec fn words(s: Seq<char>) -> Seq<Seq<char>>
    decreases s.len(),
{
    if s.len() == 0 {
        seq![Seq::empty()]
    } else {
        let before = words(s.drop_last());
        if s.last() == '_' {
            before.push(Seq::empty())
        } else {
            before.drop_last().push(before.last().push(s.last()))
        }
    }
}

/// The words of a text are what the text is made of: no word holds a separator, and the
/// words with a separator between each two of them are the text.
pub proof fn lemma_words_join(s: Seq<char>)
    ensures
        words(s).len() >= 1,
        forall|i: int, j: int|
            0 <= i < words(s).len() && 0 <= j < words(s)[i].len() ==> words(s)[i][j] != '_',
        joined(words(s), seq!['_']) == s,
    decreases s.len(),
{
    if s.len() == 0 {
        assert(joined(words(s), seq!['_']) =~= s);
    } else {
        let shorter = s.drop_last();
        let before = words(shorter);
        lemma_words_join(shorter);
        if s.last() == '_' {
            assert(words(s).drop_last() =~= before);
        } else {
            let grown = before.last().push(s.last());
            if before.len() == 1 {
                assert(joined(words(s), seq!['_']) =~= s);
            } else {
                let head = joined(before.drop_last(), seq!['_']) + seq!['_'];
                assert(words(s).drop_last() =~= before.drop_last());
                assert(head + grown =~= (head + before.last()).push(s.last()));
            }
        }
    }
}

/// `word` with `capital` in place of its first character; an empty word stays empty.
pub open spec fn capitalized(word: Seq<char>, capital: Seq<char>) -> Seq<char> {
    if word.len() == 0 {
        word
    } else {
        capital + word.skip(1)
    }
}

/// `word` with its first character in uppercase form.
pub open spec fn capitalized_word(word: Seq<char>) -> Seq<char> {
    if word.len() == 0 {
        word
    } else {
        capitalized(word, uppercase_form(word[0]))
    }
}

/// The words `ws`, each with its first character in uppercase form, one after the other.
pub open spec fn capitalized_words(ws: Seq<Seq<char>>) -> Seq<char>
    decreases ws.len(),
{
    if ws.len() == 0 {
        Seq::empty()
    } else {
        capitalized_words(ws.drop_last()) + capitalized_word(ws.last())
    }
}

/// The capitalized form of `s`: its words, each with its first character in uppercase
/// form, without the separators.
pub open spec fn pascal_case(s: Seq<char>) -> Seq<char> {
    capitalized_words(words(s))
}

/// Splits `s` at its separators.
pub fn split_words(s: &str) -> (ws: Vec<String>)
    ensures
        texts(ws@) == words(s@),
{
    let chars = to_chars(s);
    let mut ws: Vec<String> = Vec::new();
    let mut start: usize = 0;
    let mut i: usize = 0;
    assert(chars@.subrange(0, 0) =~= Seq::<char>::empty());
    while i < chars.len()
        invariant
            start <= i <= chars@.len(),
            words(chars@.take(i as int)) == texts(ws@).push(
                chars@.subrange(start as int, i as int),
            ),
        decreases chars@.len() - i,
    {
        let ghost before = words(chars@.take(i as int));
        assert(chars@.take(i + 1).drop_last() =~= chars@.take(i as int));
        if chars[i] == '_' {
            let word = string_of(&chars, start, i);
            ws.push(word);
            start = i + 1;
            assert(chars@.subrange(start as int, i + 1) =~= Seq::<char>::empty());
        } else {
            assert(chars@.subrange(start as int, i + 1) =~= before.last().push(
                chars@[i as int],
            ));
        }
        i = i + 1;
    }
    let word = string_of(&chars, start, i);
    ws.push(word);
    assert(chars@.take(i as int) =~= chars@);
    ws
}

/// `word` with `capital` in place of its first character; an empty word stays empty.
pub fn capitalize(word: &str, capital: &str) -> (r: String)
    ensures
        r@ == capitalized(word@, capital@),
{
    let chars = to_chars(word);
    let mut r = String::new();
    if chars.len() > 0 {
        r.append(capital);
        push_range(&mut r, &chars, 1, chars.len());
    }
    r
}

/// Converts a separated name such as `create_user` to the capitalized form `CreateUser`.
pub fn to_pascal_case(s: &str) -> (r: String)
    ensures
        r@ == pascal_case(s@),
{
    let ws = split_words(s);
    let mut r = String::new();
    let mut i: usize = 0;
    while i < ws.len()
        invariant
            i <= ws@.len(),
            texts(ws@) == words(s@),
            r@ == capitalized_words(texts(ws@).take(i as int)),
        decreases ws@.len() - i,
    {
        let word = ws[i].as_str();
        assert(texts(ws@).take(i + 1).drop_last() =~= texts(ws@).take(i as int));
        if word.unicode_len() > 0 {
            let capital = uppercase_of(word.get_char(0));
            let piece = capitalize(word, capital.as_str());
            r.append(piece.as_str());
        }
        i = i + 1;
    }
    assert(texts(ws@).take(i as int) =~= texts(ws@));
    r
}

} // verus!
