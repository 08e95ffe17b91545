//! Small text helpers shared by the file-format front ends.

use vstd::prelude::*;
use vstd::string::{StrSliceExecFns, StringExecFns};

verus! {

/// The lower-case form of a text under Unicode's case mapping.
pub uninterp spec fn lowercase(s: Seq<char>) -> Seq<char>;

/// `str::to_lowercase` of the standard library. Its result depends on the
/// text alone and is given by Unicode's tables, so it is named rather than
/// spelled out: the contract claims only that the call returns
/// [`lowercase`] of its argument.
#[verifier::external_body]
pub(crate) fn to_lowercase(s: &str) -> (r: String)
    ensures
        r@ == lowercase(s@),
{
    s.to_lowercase()
}

/// Whether two texts hold the same characters.
pub fn same_text(a: &str, b: &str) -> (r: bool)
    ensures
        r == (a@ == b@),
{
    let left = a.to_owned();
    let right = b.to_owned();
    left == right
}

/// Whether a character has Unicode's `White_Space` property.
pub uninterp spec fn whitespace(c: char) -> bool;

/// `char::is_whitespace` of the standard library, which goes by Unicode's
/// `White_Space` property. The set is given by Unicode's tables, so it is
/// named: the contract claims only that the call answers [`whitespace`].
#[verifier::external_body]
pub(crate) fn is_whitespace(c: char) -> (r: bool)
    ensures
        r == whitespace(c),
{
    c.is_whitespace()
}

/// The characters of a text, one by one.
pub fn chars_of(s: &str) -> (r: Vec<char>)
    ensures
        r@ == s@,
{
    let mut chars: Vec<char> = Vec::new();
    for c in it: s.chars()
        invariant
            chars@ == it.seq().take(it.index() as int),
            it.seq() == s@,
    {
        chars.push(c);
    }
    chars
}

/// An ASCII letter.
pub open spec fn ascii_letter(c: char) -> bool {
    ('a' <= c && c <= 'z') || ('A' <= c && c <= 'Z')
}

/// An ASCII decimal digit.
pub open spec fn ascii_digit(c: char) -> bool {
    '0' <= c && c <= '9'
}

/// Exec form of [`ascii_letter`].
pub fn is_ascii_letter(c: char) -> (r: bool)
    ensures
        r == ascii_letter(c),
{
    (c >= 'a' && c <= 'z') || (c >= 'A' && c <= 'Z')
}

/// Exec form of [`ascii_digit`].
pub fn is_ascii_digit(c: char) -> (r: bool)
    ensures
        r == ascii_digit(c),
{
    c >= '0' && c <= '9'
}

/// First position in `[from, to)` that holds `c`, or `to`.
pub open spec fn find_char(s: Seq<char>, c: char, from: int, to: int) -> int
    decreases to - from,
{
    if from >= to {
        to
    } else if s[from] == c {
        from
    } else {
        find_char(s, c, from + 1, to)
    }
}

/// First position in `[from, to)` that holds no whitespace, or `to`.
pub open spec fn skip_whitespace(s: Seq<char>, from: int, to: int) -> int
    decreases to - from,
{
    if from >= to {
        to
    } else if !whitespace(s[from]) {
        from
    } else {
        skip_whitespace(s, from + 1, to)
    }
}

/// End of the text in `[from, to)` once trailing whitespace is dropped: the
/// least `end >= from` with nothing but whitespace in `[end, to)`.
pub open spec fn drop_whitespace(s: Seq<char>, from: int, to: int) -> int
    decreases to - from,
{
    if to <= from {
        from
    } else if !whitespace(s[to - 1]) {
        to
    } else {
        drop_whitespace(s, from, to - 1)
    }
}

/// The text in `[from, to)` without leading and trailing whitespace.
pub open spec fn trimmed(s: Seq<char>, from: int, to: int) -> Seq<char> {
    let start = skip_whitespace(s, from, to);
    s.subrange(start, drop_whitespace(s, start, to))
}

/// [`find_char`] finds the first `c` in the range, if there is one.
pub proof fn lemma_find_char(s: Seq<char>, c: char, from: int, to: int)
    requires
        0 <= from <= to <= s.len(),
    ensures
        from <= find_char(s, c, from, to) <= to,
        find_char(s, c, from, to) < to ==> s[find_char(s, c, from, to)] == c,
        forall|i: int| from <= i < find_char(s, c, from, to) ==> s[i] != c,
    decreases to - from,
{
    if from < to && s[from] != c {
        lemma_find_char(s, c, from + 1, to);
    }
}

/// [`skip_whitespace`] stops at the first character of the range that is no
/// whitespace.
pub proof fn lemma_skip_whitespace(s: Seq<char>, from: int, to: int)
    requires
        0 <= from <= to <= s.len(),
    ensures
        from <= skip_whitespace(s, from, to) <= to,
        skip_whitespace(s, from, to) < to ==> !whitespace(s[skip_whitespace(s, from, to)]),
        forall|i: int| from <= i < skip_whitespace(s, from, to) ==> whitespace(s[i]),
    decreases to - from,
{
    if from < to && whitespace(s[from]) {
        lemma_skip_whitespace(s, from + 1, to);
    }
}

/// Exec form of [`find_char`].
pub(crate) fn find_in(chars: &Vec<char>, c: char, from: usize, to: usize) -> (r: usize)
    requires
        from <= to <= chars.len(),
    ensures
        r == find_char(chars@, c, from as int, to as int),
        from <= r <= to,
{
    let mut i: usize = from;
    while i < to
        invariant
            from <= i <= to <= chars.len(),
            find_char(chars@, c, from as int, to as int) == find_char(
                chars@,
                c,
                i as int,
                to as int,
            ),
        decreases to - i,
    {
        if chars[i] == c {
            return i;
        }
        i += 1;
    }
    to
}

/// Exec form of [`skip_whitespace`].
pub(crate) fn skip_whitespace_in(chars: &Vec<char>, from: usize, to: usize) -> (r: usize)
    requires
        from <= to <= chars.len(),
    ensures
        r == skip_whitespace(chars@, from as int, to as int),
        from <= r <= to,
{
    let mut i: usize = from;
    while i < to
        invariant
            from <= i <= to <= chars.len(),
            skip_whitespace(chars@, from as int, to as int) == skip_whitespace(
                chars@,
                i as int,
                to as int,
            ),
        decreases to - i,
    {
        if !is_whitespace(chars[i]) {
            return i;
        }
        i += 1;
    }
    to
}

/// Exec form of [`drop_whitespace`].
pub(crate) fn drop_whitespace_in(chars: &Vec<char>, from: usize, to: usize) -> (r: usize)
    requires
        from <= to <= chars.len(),
    ensures
        r == drop_whitespace(chars@, from as int, to as int),
        from <= r <= to,
{
    let mut end: usize = to;
    while end > from
        invariant
            from <= end <= to <= chars.len(),
            drop_whitespace(chars@, from as int, to as int) == drop_whitespace(
                chars@,
                from as int,
                end as int,
            ),
        decreases end - from,
    {
        if !is_whitespace(chars[end - 1]) {
            return end;
        }
        end -= 1;
    }
    from
}

/// Every character in `[from, to)` is an ASCII digit.
pub open spec fn all_digits(s: Seq<char>, from: int, to: int) -> bool {
    forall|i: int| from <= i < to ==> ascii_digit(#[trigger] s[i])
}

/// The number that the digits in `[from, to)` write in base ten.
pub open spec fn digits_value(s: Seq<char>, from: int, to: int) -> int
    decreases to - from,
{
    if to <= from {
        0
    } else {
        digits_value(s, from, to - 1) * 10 + (s[to - 1] as int - '0' as int)
    }
}

/// Where the digits of a number begin in `[from, to)`: after one leading
/// sign, if there is one.
pub open spec fn after_sign(s: Seq<char>, from: int, to: int, minus: bool) -> int {
    if from < to && (s[from] == '+' || (minus && s[from] == '-')) {
        from + 1
    } else {
        from
    }
}

/// The text in `[from, to)` read as a decimal number of an unsigned type
/// with largest value `max`: an optional `+`, then digits and nothing else,
/// at least one, and a value that fits. Anything else is no number.
pub open spec fn parse_unsigned(s: Seq<char>, from: int, to: int, max: int) -> Option<int> {
    let start = after_sign(s, from, to, false);
    if start < to && all_digits(s, start, to) && digits_value(s, start, to) <= max {
        Some(digits_value(s, start, to))
    } else {
        None
    }
}

/// The text in `[from, to)` read as a decimal number of a signed type with
/// range `min..=max`: an optional `+` or `-`, then digits and nothing else,
/// at least one, and a value in range.
pub open spec fn parse_signed(s: Seq<char>, from: int, to: int, min: int, max: int) -> Option<
    int,
> {
    let start = after_sign(s, from, to, true);
    let magnitude = digits_value(s, start, to);
    let value = if from < to && s[from] == '-' {
        -magnitude
    } else {
        magnitude
    };
    if start < to && all_digits(s, start, to) && min <= value <= max {
        Some(value)
    } else {
        None
    }
}

/// Digits only ever add to the value of what stands before them.
pub proof fn lemma_digits_grow(s: Seq<char>, from: int, mid: int, to: int)
    requires
        0 <= from <= mid <= to <= s.len(),
        all_digits(s, from, to),
    ensures
        0 <= digits_value(s, from, mid) <= digits_value(s, from, to),
    decreases to - mid,
{
    if mid < to {
        lemma_digits_grow(s, from, mid, to - 1);
        assert(ascii_digit(s[to - 1]));
    } else {
        lemma_digits_nonnegative(s, from, mid);
    }
}

proof fn lemma_digits_nonnegative(s: Seq<char>, from: int, to: int)
    requires
        0 <= from <= to <= s.len(),
        all_digits(s, from, to),
    ensures
        0 <= digits_value(s, from, to),
    decreases to - from,
{
    if from < to {
        lemma_digits_nonnegative(s, from, to - 1);
        assert(ascii_digit(s[to - 1]));
    }
}

/// The digits in `[from, to)` as a number no larger than `max`; `None` when
/// there is none, when something else stands among them, or when the number
/// is larger.
fn digits_in(chars: &Vec<char>, from: usize, to: usize, max: u64) -> (r: Option<u64>)
    requires
        from <= to <= chars.len(),
    ensures
        match r {
            Some(value) => from < to && all_digits(chars@, from as int, to as int) && value
                == digits_value(chars@, from as int, to as int) && value <= max,
            None => !(from < to && all_digits(chars@, from as int, to as int) && digits_value(
                chars@,
                from as int,
                to as int,
            ) <= max),
        },
{
    if from >= to {
        return None;
    }
    let mut value: u128 = 0;
    let mut i: usize = from;
    while i < to
        invariant
            from <= i <= to <= chars.len(),
            all_digits(chars@, from as int, i as int),
            value == digits_value(chars@, from as int, i as int),
            value <= max,
        decreases to - i,
    {
        let c = chars[i];
        if !is_ascii_digit(c) {
            return None;
        }
        let digit: u128 = (c as u32 - '0' as u32) as u128;
        let grown: u128 = value * 10 + digit;
        if grown > max as u128 {
            proof {
                if all_digits(chars@, from as int, to as int) {
                    lemma_digits_grow(chars@, from as int, i + 1, to as int);
                }
            }
            return None;
        }
        value = grown;
        i += 1;
    }
    Some(value as u64)
}

/// Exec form of [`parse_unsigned`].
pub(crate) fn parse_unsigned_in(chars: &Vec<char>, from: usize, to: usize, max: u64) -> (r: Option<u64>)
    requires
        from <= to <= chars.len(),
    ensures
        match parse_unsigned(chars@, from as int, to as int, max as int) {
            Some(value) => r is Some && r->0 == value,
            None => r is None,
        },
{
    let start: usize = if from < to && chars[from] == '+' {
        from + 1
    } else {
        from
    };
    digits_in(chars, start, to, max)
}

/// Exec form of [`parse_signed`], for a range within `i64`.
pub(crate) fn parse_signed_in(chars: &Vec<char>, from: usize, to: usize, min: i64, max: i64) -> (r:
    Option<i64>)
    requires
        from <= to <= chars.len(),
        min <= 0 <= max,
        min > i64::MIN,
    ensures
        match parse_signed(chars@, from as int, to as int, min as int, max as int) {
            Some(value) => r is Some && r->0 == value,
            None => r is None,
        },
{
    let negative = from < to && chars[from] == '-';
    let start: usize = if from < to && (chars[from] == '+' || chars[from] == '-') {
        from + 1
    } else {
        from
    };
    let bound: u64 = if negative {
        (-min) as u64
    } else {
        max as u64
    };
    proof {
        if start < to && all_digits(chars@, start as int, to as int) {
            lemma_digits_grow(chars@, start as int, start as int, to as int);
        }
    }
    match digits_in(chars, start, to, bound) {
        Some(magnitude) => if negative {
            Some(-(magnitude as i64))
        } else {
            Some(magnitude as i64)
        },
        None => None,
    }
}

/// End of the run of ASCII digits that starts at `from`, within `[from, to)`.
pub open spec fn skip_digits(s: Seq<char>, from: int, to: int) -> int
    decreases to - from,
{
    if from >= to {
        to
    } else if !ascii_digit(s[from]) {
        from
    } else {
        skip_digits(s, from + 1, to)
    }
}

/// `[from, to)` holds exactly the word that `lower` and `upper` spell in
/// lower and in upper case, in any mix of the two.
pub open spec fn is_word(s: Seq<char>, from: int, to: int, lower: Seq<char>, upper: Seq<char>) -> bool {
    &&& to - from == lower.len()
    &&& forall|i: int|
        0 <= i < lower.len() ==> #[trigger] s[from + i] == lower[i] || s[from + i] == upper[i]
}

/// An exponent in `[from, to)`: `e` or `E`, an optional sign, then digits
/// and nothing else, at least one.
pub open spec fn is_exponent(s: Seq<char>, from: int, to: int) -> bool {
    &&& from < to
    &&& (s[from] == 'e' || s[from] == 'E')
    &&& after_sign(s, from + 1, to, true) < to
    &&& all_digits(s, after_sign(s, from + 1, to, true), to)
}

/// A decimal number in `[from, to)`: digits with an optional point among,
/// before or after them, at least one digit, and an optional exponent.
pub open spec fn is_decimal(s: Seq<char>, from: int, to: int) -> bool {
    let whole_end = skip_digits(s, from, to);
    let point = whole_end < to && s[whole_end] == '.';
    let fraction_end = if point {
        skip_digits(s, whole_end + 1, to)
    } else {
        whole_end
    };
    &&& (whole_end > from || (point && fraction_end > whole_end + 1))
    &&& (fraction_end == to || is_exponent(s, fraction_end, to))
}

/// The text writes a real number the way the standard library reads one:
/// an optional sign, then `inf`, `infinity` or `nan` in any case, or a
/// decimal number.
pub open spec fn is_number(s: Seq<char>) -> bool {
    let start = after_sign(s, 0, s.len() as int, true);
    let to = s.len() as int;
    ||| is_word(s, start, to, seq!['i', 'n', 'f'], seq!['I', 'N', 'F'])
    ||| is_word(
        s,
        start,
        to,
        seq!['i', 'n', 'f', 'i', 'n', 'i', 't', 'y'],
        seq!['I', 'N', 'F', 'I', 'N', 'I', 'T', 'Y'],
    )
    ||| is_word(s, start, to, seq!['n', 'a', 'n'], seq!['N', 'A', 'N'])
    ||| is_decimal(s, start, to)
}

/// Exec form of [`skip_digits`].
fn skip_digits_in(chars: &Vec<char>, from: usize, to: usize) -> (r: usize)
    requires
        from <= to <= chars.len(),
    ensures
        r == skip_digits(chars@, from as int, to as int),
        from <= r <= to,
        all_digits(chars@, from as int, r as int),
        r < to ==> !ascii_digit(chars@[r as int]),
{
    let mut i: usize = from;
    while i < to
        invariant
            from <= i <= to <= chars.len(),
            all_digits(chars@, from as int, i as int),
            skip_digits(chars@, from as int, to as int) == skip_digits(
                chars@,
                i as int,
                to as int,
            ),
        decreases to - i,
    {
        if !is_ascii_digit(chars[i]) {
            return i;
        }
        i += 1;
    }
    to
}

/// Exec form of [`is_word`].
fn is_word_in(chars: &Vec<char>, from: usize, to: usize, lower: &[char], upper: &[char]) -> (r:
    bool)
    requires
        from <= to <= chars.len(),
        lower.len() == upper.len(),
    ensures
        r == is_word(chars@, from as int, to as int, lower@, upper@),
{
    if to - from != lower.len() {
        return false;
    }
    let mut i: usize = 0;
    while i < lower.len()
        invariant
            i <= lower.len(),
            lower.len() == upper.len(),
            to - from == lower.len(),
            from <= to <= chars.len(),
            forall|j: int|
                0 <= j < i ==> #[trigger] chars@[from + j] == lower@[j] || chars@[from + j]
                    == upper@[j],
        decreases lower.len() - i,
    {
        let c = chars[from + i];
        if !(c == lower[i] || c == upper[i]) {
            assert(!(chars@[from + i] == lower@[i as int] || chars@[from + i] == upper@[i as int]));
            return false;
        }
        i += 1;
    }
    true
}

/// Whether a text writes a real number; see [`is_number`].
pub fn is_number_text(s: &str) -> (r: bool)
    ensures
        r == is_number(s@),
{
    let chars = chars_of(s);
    let to: usize = chars.len();
    let start: usize = if 0 < to && (chars[0] == '+' || chars[0] == '-') {
        1
    } else {
        0
    };
    let inf: [char; 3] = ['i', 'n', 'f'];
    let inf_upper: [char; 3] = ['I', 'N', 'F'];
    let infinity: [char; 8] = ['i', 'n', 'f', 'i', 'n', 'i', 't', 'y'];
    let infinity_upper: [char; 8] = ['I', 'N', 'F', 'I', 'N', 'I', 'T', 'Y'];
    let nan: [char; 3] = ['n', 'a', 'n'];
    let nan_upper: [char; 3] = ['N', 'A', 'N'];
    proof {
        assert(inf@ =~= seq!['i', 'n', 'f']);
        assert(inf_upper@ =~= seq!['I', 'N', 'F']);
        assert(infinity@ =~= seq!['i', 'n', 'f', 'i', 'n', 'i', 't', 'y']);
        assert(infinity_upper@ =~= seq!['I', 'N', 'F', 'I', 'N', 'I', 'T', 'Y']);
        assert(nan@ =~= seq!['n', 'a', 'n']);
        assert(nan_upper@ =~= seq!['N', 'A', 'N']);
    }
    if is_word_in(&chars, start, to, inf.as_slice(), inf_upper.as_slice()) || is_word_in(
        &chars,
        start,
        to,
        infinity.as_slice(),
        infinity_upper.as_slice(),
    ) || is_word_in(&chars, start, to, nan.as_slice(), nan_upper.as_slice()) {
        return true;
    }
    let whole_end = skip_digits_in(&chars, start, to);
    let point = whole_end < to && chars[whole_end] == '.';
    let fraction_end: usize = if point {
        skip_digits_in(&chars, whole_end + 1, to)
    } else {
        whole_end
    };
    if !(whole_end > start || (point && fraction_end > whole_end + 1)) {
        return false;
    }
    if fraction_end == to {
        return true;
    }
    if !(chars[fraction_end] == 'e' || chars[fraction_end] == 'E') {
        return false;
    }
    let digits: usize = if fraction_end + 1 < to && (chars[fraction_end + 1] == '+'
        || chars[fraction_end + 1] == '-') {
        fraction_end + 2
    } else {
        fraction_end + 1
    };
    digits < to && skip_digits_in(&chars, digits, to) == to
}

/// The text from `pos` on with every occurrence of `from` replaced by `to`.
///
/// Occurrences are taken from left to right and do not overlap. The empty
/// text occurs before every character and at the end.
pub open spec fn replaced_from(s: Seq<char>, from: Seq<char>, to: Seq<char>, pos: int) -> Seq<char>
    decreases s.len() - pos,
{
    if pos < 0 || pos >= s.len() {
        if from.len() == 0 {
            to
        } else {
            Seq::empty()
        }
    } else if from.len() == 0 {
        to + seq![s[pos]] + replaced_from(s, from, to, pos + 1)
    } else if has_prefix_at(s, from, pos) {
        to + replaced_from(s, from, to, pos + from.len())
    } else {
        seq![s[pos]] + replaced_from(s, from, to, pos + 1)
    }
}

/// The text with every occurrence of `from` replaced by `to`.
pub open spec fn replaced(s: Seq<char>, from: Seq<char>, to: Seq<char>) -> Seq<char> {
    replaced_from(s, from, to, 0)
}

/// Replaces every occurrence of `from` in `s` by `to`.
pub fn replace(s: &str, from: &str, to: &str) -> (r: String)
    ensures
        r@ == replaced(s@, from@, to@),
{
    let chars = chars_of(s);
    let pattern = chars_of(from);
    let len: usize = chars.len();
    let mut out = String::new();
    let mut pos: usize = 0;
    assert(out@ + replaced_from(s@, from@, to@, 0) =~= replaced(s@, from@, to@));
    while pos < len
        invariant
            pos <= len,
            len == chars.len(),
            chars@ == s@,
            pattern@ == from@,
            replaced(s@, from@, to@) == out@ + replaced_from(s@, from@, to@, pos as int),
        decreases len - pos,
    {
        let ghost before = out@;
        let ghost rest = replaced_from(s@, from@, to@, pos as int);
        if pattern.len() == 0 {
            out.append(to);
            out.append(s.substring_char(pos, pos + 1));
            proof {
                let after = replaced_from(s@, from@, to@, pos + 1);
                assert(s@.subrange(pos as int, pos + 1) =~= seq![s@[pos as int]]);
                assert(before + (to@ + seq![s@[pos as int]] + after) =~= (before + to@ + seq![
                    s@[pos as int],
                ]) + after);
            }
            pos += 1;
        } else if starts_with_at(&chars, &pattern, pos) {
            out.append(to);
            proof {
                let after = replaced_from(s@, from@, to@, pos + from@.len());
                assert(before + (to@ + after) =~= (before + to@) + after);
            }
            pos += pattern.len();
        } else {
            out.append(s.substring_char(pos, pos + 1));
            proof {
                let after = replaced_from(s@, from@, to@, pos + 1);
                assert(s@.subrange(pos as int, pos + 1) =~= seq![s@[pos as int]]);
                assert(before + (seq![s@[pos as int]] + after) =~= (before + seq![s@[pos as int]])
                    + after);
            }
            pos += 1;
        }
    }
    if pattern.len() == 0 {
        out.append(to);
    } else {
        assert(out@ + Seq::<char>::empty() =~= out@);
    }
    out
}

/// The whole text without leading and trailing whitespace.
pub fn trim(s: &str) -> (r: &str)
    ensures
        r@ == trimmed(s@, 0, s@.len() as int),
{
    let chars = chars_of(s);
    let start = skip_whitespace_in(&chars, 0, chars.len());
    let end = drop_whitespace_in(&chars, start, chars.len());
    s.substring_char(start, end)
}

/// `s` begins with `prefix`.
pub open spec fn has_prefix(s: Seq<char>, prefix: Seq<char>) -> bool {
    prefix.len() <= s.len() && s.subrange(0, prefix.len() as int) == prefix
}

/// `prefix` stands in `s` at position `at`.
pub open spec fn has_prefix_at(s: Seq<char>, prefix: Seq<char>, at: int) -> bool {
    0 <= at && at + prefix.len() <= s.len() && s.subrange(at, at + prefix.len()) == prefix
}

/// Exec form of [`has_prefix_at`].
pub(crate) fn starts_with_at(chars: &Vec<char>, prefix: &Vec<char>, at: usize) -> (r: bool)
    ensures
        r == has_prefix_at(chars@, prefix@, at as int),
{
    if at > chars.len() || prefix.len() > chars.len() - at {
        return false;
    }
    let mut i: usize = 0;
    while i < prefix.len()
        invariant
            i <= prefix.len(),
            at + prefix.len() <= chars.len(),
            forall|j: int| 0 <= j < i ==> chars@[at + j] == prefix@[j],
        decreases prefix.len() - i,
    {
        if chars[at + i] != prefix[i] {
            assert(chars@.subrange(at as int, at + prefix.len())[i as int] != prefix@[i as int]);
            return false;
        }
        i += 1;
    }
    assert(chars@.subrange(at as int, at + prefix.len()) =~= prefix@);
    true
}

/// Whether `s` begins with `prefix`.
pub fn starts_with(s: &str, prefix: &str) -> (r: bool)
    ensures
        r == has_prefix(s@, prefix@),
{
    let chars = chars_of(s);
    let wanted = chars_of(prefix);
    starts_with_at(&chars, &wanted, 0)
}

/// First position in `[from, to)` that does not hold `c`, or `to`.
pub open spec fn skip_char(s: Seq<char>, c: char, from: int, to: int) -> int
    decreases to - from,
{
    if from >= to {
        to
    } else if s[from] != c {
        from
    } else {
        skip_char(s, c, from + 1, to)
    }
}

/// The least `end >= from` with nothing but `c` in `[end, to)`.
pub open spec fn drop_char(s: Seq<char>, c: char, from: int, to: int) -> int
    decreases to - from,
{
    if to <= from {
        from
    } else if s[to - 1] != c {
        to
    } else {
        drop_char(s, c, from, to - 1)
    }
}

/// Exec form of [`skip_char`].
pub(crate) fn skip_char_in(chars: &Vec<char>, c: char, from: usize, to: usize) -> (r: usize)
    requires
        from <= to <= chars.len(),
    ensures
        r == skip_char(chars@, c, from as int, to as int),
        from <= r <= to,
{
    let mut i: usize = from;
    while i < to
        invariant
            from <= i <= to <= chars.len(),
            skip_char(chars@, c, from as int, to as int) == skip_char(
                chars@,
                c,
                i as int,
                to as int,
            ),
        decreases to - i,
    {
        if chars[i] != c {
            return i;
        }
        i += 1;
    }
    to
}

/// Exec form of [`drop_char`].
pub(crate) fn drop_char_in(chars: &Vec<char>, c: char, from: usize, to: usize) -> (r: usize)
    requires
        from <= to <= chars.len(),
    ensures
        r == drop_char(chars@, c, from as int, to as int),
        from <= r <= to,
{
    let mut end: usize = to;
    while end > from
        invariant
            from <= end <= to <= chars.len(),
            drop_char(chars@, c, from as int, to as int) == drop_char(
                chars@,
                c,
                from as int,
                end as int,
            ),
        decreases end - from,
    {
        if chars[end - 1] != c {
            return end;
        }
        end -= 1;
    }
    from
}

} // verus!
