//! Splitting of parameter text and reading of decimal lengths.

use vstd::prelude::*;

verus! {

/// The character sequences of a list of strings, in order.
pub open spec fn texts(strings: Seq<String>) -> Seq<Seq<char>> {
    Seq::new(strings.len(), |i: int| strings[i]@)
}

/// Number of characters of `s` that stand before its first `sep`; the length of
/// `s` where it holds no `sep`.
pub open spec fn first_index(s: Seq<char>, sep: char) -> nat
    decreases s.len(),
{
    if s.len() == 0 || s[0] == sep {
        0
    } else {
        1 + first_index(s.drop_first(), sep)
    }
}

/// The pieces of `s` between the occurrences of `sep`, in order. A text without
/// `sep` is one piece, the empty text included, and two adjacent separators
/// enclose an empty piece.
pub open spec fn split(s: Seq<char>, sep: char) -> Seq<Seq<char>>
    decreases s.len(),
{
    let k = first_index(s, sep) as int;
    if k >= s.len() {
        seq![s]
    } else {
        seq![s.take(k)] + split(s.skip(k + 1), sep)
    }
}

/// `first_index` is the position `k` once nothing before `k` is a separator and
/// `k` is the end of the text or a separator.
proof fn lemma_first_index(s: Seq<char>, sep: char, k: int)
    requires
        0 <= k <= s.len(),
        forall|i: int| 0 <= i < k ==> s[i] != sep,
        k == s.len() || s[k] == sep,
    ensures
        first_index(s, sep) == k,
    decreases k,
{
    if k > 0 {
        lemma_first_index(s.drop_first(), sep, k - 1);
    }
}

/// Splits `text` at every `sep`.
pub fn split_text(text: &str, sep: char) -> (pieces: Vec<String>)
    ensures
        texts(pieces@) == split(text@, sep),
{
    let len: usize = text.unicode_len();
    let mut pieces: Vec<String> = Vec::new();
    let mut start: usize = 0;
    let mut i: usize = 0;
    assert(text@.skip(0) == text@);
    assert(texts(pieces@) + split(text@, sep) == split(text@, sep));
    for c in it: text.chars()
        invariant
            it.seq() == text@,
            i == it.index(),
            len == text@.len(),
            start <= i <= len,
            forall|j: int| start <= j < i ==> text@[j] != sep,
            split(text@, sep) == texts(pieces@) + split(text@.skip(start as int), sep),
    {
        assert(c == text@[i as int]);
        if c == sep {
            let piece = text.substring_char(start, i).to_owned();
            proof {
                let rest = text@.skip(start as int);
                lemma_first_index(rest, sep, i - start);
                assert(rest.take(i - start) == text@.subrange(start as int, i as int));
                assert(rest.skip(i - start + 1) == text@.skip(i + 1));
                assert(texts(pieces@.push(piece)) == texts(pieces@) + seq![piece@]);
            }
            pieces.push(piece);
            start = i + 1;
        }
        i = i + 1;
    }
    let piece = text.substring_char(start, len).to_owned();
    proof {
        let rest = text@.skip(start as int);
        lemma_first_index(rest, sep, len - start);
        assert(rest == text@.subrange(start as int, len as int));
        assert(texts(pieces@.push(piece)) == texts(pieces@) + seq![piece@]);
    }
    pieces.push(piece);
    pieces
}

/// The part of `s` before its first `sep`; all of `s` where it holds none.
pub open spec fn head(s: Seq<char>, sep: char) -> Seq<char> {
    s.take(first_index(s, sep) as int)
}

/// What follows the first `sep` of `s`, if `s` holds one.
pub open spec fn tail(s: Seq<char>, sep: char) -> Option<Seq<char>> {
    let k = first_index(s, sep) as int;
    if k < s.len() {
        Some(s.skip(k + 1))
    } else {
        None
    }
}

/// The character sequence of an optional string.
pub open spec fn optional_text(text: Option<String>) -> Option<Seq<char>> {
    match text {
        Some(t) => Some(t@),
        None => None,
    }
}

/// A copy of an optional string.
pub fn copy_text(text: &Option<String>) -> (copy: Option<String>)
    ensures
        optional_text(copy) == optional_text(*text),
{
    match text {
        Some(t) => Some(t.clone()),
        None => None,
    }
}

/// Parts `text` at its first `sep`: what stands before it, and what follows it
/// where there is one.
pub fn split_first(text: &str, sep: char) -> (parts: (String, Option<String>))
    ensures
        parts.0@ == head(text@, sep),
        optional_text(parts.1) == tail(text@, sep),
{
    let len: usize = text.unicode_len();
    let mut found: Option<usize> = None;
    let mut i: usize = 0;
    for c in it: text.chars()
        invariant
            it.seq() == text@,
            i == it.index(),
            len == text@.len(),
            i <= len,
            found is None ==> forall|j: int| 0 <= j < i ==> text@[j] != sep,
            found matches Some(k) ==> k < i && text@[k as int] == sep && forall|j: int|
                0 <= j < k ==> text@[j] != sep,
    {
        assert(c == text@[i as int]);
        if found.is_none() && c == sep {
            found = Some(i);
        }
        i = i + 1;
    }
    match found {
        Some(k) => {
            proof {
                lemma_first_index(text@, sep, k as int);
            }
            let before = text.substring_char(0, k).to_owned();
            let after = text.substring_char(k + 1, len).to_owned();
            (before, Some(after))
        },
        None => {
            proof {
                lemma_first_index(text@, sep, len as int);
                assert(text@.take(len as int) == text@);
            }
            (text.to_owned(), None)
        },
    }
}

/// Whether `c` is one of the ten decimal digits.
pub open spec fn is_digit(c: char) -> bool {
    '0' <= c <= '9'
}

/// The number that a decimal digit stands for.
pub open spec fn digit_value(c: char) -> nat {
    if is_digit(c) {
        (c as u32 - 48) as nat
    } else {
        0
    }
}

/// Whether every character of `s` is a decimal digit.
pub open spec fn all_digits(s: Seq<char>) -> bool {
    forall|i: int| 0 <= i < s.len() ==> is_digit(#[trigger] s[i])
}

/// The number that a sequence of decimal digits denotes, the most significant
/// digit first.
pub open spec fn decimal_value(digits: Seq<char>) -> nat
    decreases digits.len(),
{
    if digits.len() == 0 {
        0
    } else {
        10 * decimal_value(digits.drop_last()) + digit_value(digits.last())
    }
}

/// `s` without a leading plus sign.
pub open spec fn unsigned_part(s: Seq<char>) -> Seq<char> {
    if s.len() > 0 && s[0] == '+' {
        s.drop_first()
    } else {
        s
    }
}

/// The length that `s` denotes: an optional plus sign, then one or more decimal
/// digits and nothing else, with a value that a `usize` holds. Any other text
/// denotes none.
pub open spec fn parse_usize(s: Seq<char>) -> Option<usize> {
    let digits = unsigned_part(s);
    if digits.len() > 0 && all_digits(digits) && decimal_value(digits) <= usize::MAX {
        Some(decimal_value(digits) as usize)
    } else {
        None
    }
}

/// A prefix of a digit sequence denotes no more than the whole.
proof fn lemma_decimal_prefix(digits: Seq<char>, k: int)
    requires
        0 <= k <= digits.len(),
    ensures
        decimal_value(digits.take(k)) <= decimal_value(digits),
    decreases digits.len(),
{
    if k == digits.len() {
        assert(digits.take(k) == digits);
    } else {
        lemma_decimal_prefix(digits.drop_last(), k);
        assert(digits.drop_last().take(k) == digits.take(k));
    }
}

/// One more digit multiplies the value by ten and adds the digit.
proof fn lemma_decimal_step(digits: Seq<char>, k: int)
    requires
        0 <= k < digits.len(),
    ensures
        decimal_value(digits.take(k + 1)) == 10 * decimal_value(digits.take(k)) + digit_value(
            digits[k],
        ),
{
    assert(digits.take(k + 1).drop_last() == digits.take(k));
}

/// Reads `text` as a decimal length.
pub fn parse_decimal(text: &str) -> (value: Option<usize>)
    ensures
        value == parse_usize(text@),
{
    let len: usize = text.unicode_len();
    let mut value: usize = 0;
    let mut signed: bool = false;
    let mut i: usize = 0;
    let ghost digits = unsigned_part(text@);
    assert(digits.take(0) == Seq::<char>::empty());
    for c in it: text.chars()
        invariant
            it.seq() == text@,
            i == it.index(),
            len == text@.len(),
            i <= len,
            digits == unsigned_part(text@),
            signed <==> (i > 0 && text@[0] == '+'),
            all_digits(digits.take(i - if signed { 1int } else { 0int })),
            value == decimal_value(digits.take(i - if signed { 1int } else { 0int })),
    {
        assert(c == text@[i as int]);
        let ghost k = i - if signed { 1int } else { 0int };
        if i == 0 && c == '+' {
            signed = true;
        } else if '0' <= c && c <= '9' {
            let digit: usize = (c as u32 - 48) as usize;
            proof {
                assert(digits[k] == c);
                lemma_decimal_step(digits, k);
                lemma_decimal_prefix(digits, k + 1);
                assert(all_digits(digits.take(k + 1))) by {
                    assert forall|j: int| 0 <= j < k + 1 implies is_digit(
                        #[trigger] digits.take(k + 1)[j],
                    ) by {
                        if j < k {
                            assert(digits.take(k + 1)[j] == digits.take(k)[j]);
                        }
                    }
                }
            }
            match value.checked_mul(10) {
                Some(tens) => match tens.checked_add(digit) {
                    Some(sum) => {
                        value = sum;
                    },
                    None => {
                        return None;
                    },
                },
                None => {
                    return None;
                },
            }
        } else {
            proof {
                assert(digits[k] == c);
                assert(!is_digit(digits[k]));
            }
            return None;
        }
        i = i + 1;
    }
    proof {
        assert(digits.take(digits.len() as int) == digits);
    }
    if len == 0 || (signed && len == 1) {
        None
    } else {
        Some(value)
    }
}

/// The name that stands for every attribute.
pub open spec fn wildcard() -> Seq<char> {
    seq!['*']
}

/// Whether `name` is the wildcard.
pub fn is_wildcard(name: &String) -> (wild: bool)
    ensures
        wild == (name@ == wildcard()),
{
    let text = name.as_str();
    if text.unicode_len() == 1 {
        let c = text.get_char(0);
        assert(c == '*' ==> name@ =~= wildcard());
        c == '*'
    } else {
        false
    }
}

/// Whether one of `tokens` is the wildcard.
pub fn contains_wildcard(tokens: &Vec<String>) -> (found: bool)
    ensures
        found == texts(tokens@).contains(wildcard()),
{
    let mut i: usize = 0;
    while i < tokens.len()
        invariant
            i <= tokens@.len(),
            forall|j: int| 0 <= j < i ==> texts(tokens@)[j] != wildcard(),
        decreases tokens@.len() - i,
    {
        if is_wildcard(&tokens[i]) {
            assert(texts(tokens@)[i as int] == wildcard());
            return true;
        }
        i = i + 1;
    }
    false
}

/// A sequence one element longer holds what the shorter one held, and the
/// element added.
pub(crate) proof fn lemma_take_next<A>(s: Seq<A>, i: int)
    requires
        0 <= i < s.len(),
    ensures
        s.take(i + 1) == s.take(i).push(s[i]),
        forall|a: A| s.take(i + 1).contains(a) <==> s.take(i).contains(a) || a == s[i],
{
    let long = s.take(i + 1);
    let short = s.take(i);
    assert(long == short.push(s[i]));
    assert forall|a: A| long.contains(a) <==> short.contains(a) || a == s[i] by {
        if long.contains(a) {
            let k = choose|k: int| 0 <= k < long.len() && long[k] == a;
            if k < i {
                assert(short[k] == a);
            }
        }
        if short.contains(a) {
            let k = choose|k: int| 0 <= k < short.len() && short[k] == a;
            assert(long[k] == a);
        }
        if a == s[i] {
            assert(long[i] == a);
        }
    }
}

} // verus!
