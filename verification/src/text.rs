//! Texts as sequences of characters: ranges, joins and decimal numbers.

use vstd::prelude::*;
use vstd::std_specs::iter::IteratorSpec;
use vstd::string::StringExecFns;

verus! {

/// `String::push` of std: the string afterwards is the string before with `ch` at its end.
pub assume_specification[ std::string::String::push ](s: &mut std::string::String, ch: char)
    ensures
        final(s)@ == old(s)@.push(ch),
;

/// The characters of `s`, in order.
pub(crate) fn to_chars(s: &str) -> (chars: Vec<char>)
    ensures
        chars@ == s@,
{
    let mut chars: Vec<char> = Vec::new();
    for c in it: s.chars()
        invariant
            it.seq() == s@,
            chars@ == it.seq().take(it.index() as int),
    {
        chars.push(c);
    }
    chars
}

/// Appends the characters `chars[from..to]` to `out`.
pub(crate) fn push_range(out: &mut String, chars: &Vec<char>, from: usize, to: usize)
    requires
        from <= to <= chars@.len(),
    ensures
        final(out)@ == old(out)@ + chars@.subrange(from as int, to as int),
{
    let mut i: usize = from;
    while i < to
        invariant
            from <= i <= to <= chars@.len(),
            out@ == old(out)@ + chars@.subrange(from as int, i as int),
        decreases to - i,
    {
        out.push(chars[i]);
        i = i + 1;
    }
}

/// The string made of the characters `chars[from..to]`.
pub(crate) fn string_of(chars: &Vec<char>, from: usize, to: usize) -> (s: String)
    requires
        from <= to <= chars@.len(),
    ensures
        s@ == chars@.subrange(from as int, to as int),
{
    let mut s = String::new();
    push_range(&mut s, chars, from, to);
    s
}

/// Whether `text` stands in `chars` at place `at` and ends at or before `end`: the number of
/// its characters if it does.
pub(crate) fn match_at(chars: &Vec<char>, at: usize, end: usize, text: &str) -> (n: Option<
    usize,
>)
    requires
        at <= end <= chars@.len(),
    ensures
        match n {
            Some(k) => k == text@.len() && at + k <= end && chars@.subrange(at as int, at + k)
                == text@,
            None => !(at + text@.len() <= end && chars@.subrange(at as int, at + text@.len())
                == text@),
        },
{
    let mut rest = text.chars();
    let mut k: usize = 0;
    loop
        invariant
            at + k <= end <= chars@.len(),
            k <= text@.len(),
            rest.remaining() == text@.skip(k as int),
            chars@.subrange(at as int, at + k) == text@.take(k as int),
        decreases text@.len() - k,
    {
        match rest.next() {
            None => {
                return Some(k);
            },
            Some(c) => {
                if at + k >= end {
                    return None;
                }
                if chars[at + k] != c {
                    return None;
                }
                k = k + 1;
            },
        }
    }
}

/// What stands between `opening` and `closing` in `d`, if `d` begins with the one and,
/// behind it, ends with the other.
pub open spec fn enclosed(d: Seq<char>, opening: Seq<char>, closing: Seq<char>) -> Option<
    Seq<char>,
> {
    if opening.len() + closing.len() <= d.len() && d.take(opening.len() as int) == opening
        && d.skip(d.len() - closing.len()) == closing {
        Some(d.subrange(opening.len() as int, d.len() - closing.len()))
    } else {
        None
    }
}

/// The bounds of what stands between `opening` and `closing` in `chars[from..to]`, if that
/// range begins with the one and, behind it, ends with the other.
pub(crate) fn enclosed_range(
    chars: &Vec<char>,
    from: usize,
    to: usize,
    opening: &str,
    closing: &str,
) -> (r: Option<(usize, usize)>)
    requires
        from <= to <= chars@.len(),
    ensures
        match r {
            Some((a, b)) => {
                &&& from <= a <= b <= to
                &&& a - from == opening@.len()
                &&& to - b == closing@.len()
                &&& enclosed(chars@.subrange(from as int, to as int), opening@, closing@)
                    == Some(chars@.subrange(a as int, b as int))
            },
            None => enclosed(chars@.subrange(from as int, to as int), opening@, closing@)
                is None,
        },
{
    let ghost d = chars@.subrange(from as int, to as int);
    match match_at(chars, from, to, opening) {
        None => {
            assert(opening@.len() <= d.len() ==> d.take(opening@.len() as int)
                =~= chars@.subrange(from as int, from + opening@.len()));
            None
        },
        Some(k) => {
            assert(d.take(k as int) =~= chars@.subrange(from as int, from + k));
            let a = from + k;
            let m = closing.unicode_len();
            if m > to - a {
                None
            } else {
                let b = to - m;
                assert(d.skip(d.len() - m) =~= chars@.subrange(b as int, b + m));
                match match_at(chars, b, to, closing) {
                    None => None,
                    Some(_) => {
                        Some((a, b))
                    },
                }
            }
        },
    }
}

/// Whether `chars[from..to]` is `text`.
pub(crate) fn range_is(chars: &Vec<char>, from: usize, to: usize, text: &str) -> (b: bool)
    requires
        from <= to <= chars@.len(),
    ensures
        b == (chars@.subrange(from as int, to as int) == text@),
{
    match match_at(chars, from, to, text) {
        None => false,
        Some(k) => from + k == to,
    }
}

/// The views of the strings of `v`.
pub open spec fn texts(v: Seq<String>) -> Seq<Seq<char>> {
    v.map_values(|s: String| s@)
}

/// The texts `parts` one after the other, with `separator` between each two of them.
pub open spec fn joined(parts: Seq<Seq<char>>, separator: Seq<char>) -> Seq<char>
    decreases parts.len(),
{
    if parts.len() == 0 {
        Seq::empty()
    } else if parts.len() == 1 {
        parts[0]
    } else {
        joined(parts.drop_last(), separator) + separator + parts.last()
    }
}

/// Appends the strings `parts` to `out`, with `separator` between each two of them.
pub(crate) fn push_joined(out: &mut String, parts: &Vec<String>, separator: &str)
    ensures
        final(out)@ == old(out)@ + joined(texts(parts@), separator@),
{
    let mut i: usize = 0;
    while i < parts.len()
        invariant
            i <= parts@.len(),
            out@ == old(out)@ + joined(texts(parts@).take(i as int), separator@),
        decreases parts@.len() - i,
    {
        let ghost before = texts(parts@).take(i as int);
        let ghost longer = texts(parts@).take(i + 1);
        assert(longer.drop_last() =~= before);
        if i > 0 {
            out.append(separator);
        }
        out.append(parts[i].as_str());
        i = i + 1;
    }
    assert(texts(parts@).take(i as int) =~= texts(parts@));
}

/// Whether `c` is one of the decimal digits `0` to `9`.
pub open spec fn is_digit(c: char) -> bool {
    '0' <= c && c <= '9'
}

/// Whether `s` holds decimal digits only.
pub open spec fn all_digits(s: Seq<char>) -> bool {
    forall|i: int| 0 <= i < s.len() ==> is_digit(#[trigger] s[i])
}

/// The number that the decimal digits `s` write.
pub open spec fn decimal_value(s: Seq<char>) -> nat
    decreases s.len(),
{
    if s.len() == 0 {
        0
    } else {
        decimal_value(s.drop_last()) * 10 + ((s.last() as u32) - ('0' as u32)) as nat
    }
}

/// The number that digits write is at least the number that the first `k` of them write.
pub proof fn lemma_decimal_value_grows(s: Seq<char>, k: int)
    requires
        0 <= k <= s.len(),
        all_digits(s),
    ensures
        decimal_value(s.take(k)) <= decimal_value(s),
    decreases s.len() - k,
{
    if k == s.len() {
        assert(s.take(k) =~= s);
    } else {
        let longer = s.take(k + 1);
        assert(longer.drop_last() =~= s.take(k));
        lemma_decimal_value_grows(s, k + 1);
    }
}

/// The digit that writes `d`.
pub open spec fn digit_char(d: nat) -> char {
    (('0' as u32) + d) as char
}

/// `n` in decimal digits.
pub open spec fn decimal(n: nat) -> Seq<char>
    decreases n,
{
    if n < 10 {
        seq![digit_char(n)]
    } else {
        decimal(n / 10).push(digit_char(n % 10))
    }
}

/// The decimal digits of a number are digits, and they write that number.
pub proof fn lemma_decimal_reads_back(n: nat)
    ensures
        all_digits(decimal(n)),
        decimal_value(decimal(n)) == n,
    decreases n,
{
    if n < 10 {
        assert(decimal(n).drop_last() =~= Seq::<char>::empty());
        assert(decimal_value(Seq::<char>::empty()) == 0);
    } else {
        lemma_decimal_reads_back(n / 10);
        assert(decimal(n).drop_last() =~= decimal(n / 10));
        assert forall|i: int| 0 <= i < decimal(n).len() implies is_digit(
            #[trigger] decimal(n)[i],
        ) by {
            if i < decimal(n).len() - 1 {
                assert(decimal(n)[i] == decimal(n / 10)[i]);
            }
        }
    }
}

/// Appends `n` in decimal digits to `out`.
pub(crate) fn push_decimal(out: &mut String, n: usize)
    ensures
        final(out)@ == old(out)@ + decimal(n as nat),
    decreases n,
{
    if n >= 10 {
        push_decimal(out, n / 10);
    }
    let digit = (n % 10) as u8;
    out.push((48u8 + digit) as char);
}

} // verus!
