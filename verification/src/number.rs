//! Numbers as the text writes them: whole numbers in decimal notation, read
//! into `u32` and `i32`, and the notation of numbers with a fraction, which is
//! recognised and kept as text.

use vstd::prelude::*;
use vstd::slice::slice_subrange;

verus! {

/// One of the ten decimal digits.
pub open spec fn is_digit(c: char) -> bool {
    '0' <= c <= '9'
}

/// What a decimal digit counts for.
pub open spec fn digit_value(c: char) -> nat {
    if is_digit(c) {
        (c as int - '0' as int) as nat
    } else {
        0
    }
}

/// Every character of `s` is a decimal digit.
pub open spec fn all_digits(s: Seq<char>) -> bool {
    forall|i: int| 0 <= i < s.len() ==> is_digit(#[trigger] s[i])
}

/// The number that the digits of `s` write in decimal notation.
pub open spec fn decimal_value(s: Seq<char>) -> nat
    decreases s.len(),
{
    if s.len() == 0 {
        0
    } else {
        10 * decimal_value(s.drop_last()) + digit_value(s.last())
    }
}

/// `s` without the sign, `+` or `-`, that may stand at its beginning.
pub open spec fn without_sign(s: Seq<char>) -> Seq<char> {
    if s.len() > 0 && (s[0] == '+' || s[0] == '-') {
        s.skip(1)
    } else {
        s
    }
}

/// The digits of a number without sign: at least one digit and nothing else.
pub open spec fn is_digits(s: Seq<char>) -> bool {
    s.len() > 0 && all_digits(s)
}

/// The `u32` that `s` writes: an optional `+` and then digits only, of a number
/// that a `u32` holds.
pub open spec fn u32_value(s: Seq<char>) -> Option<u32> {
    let digits = if s.len() > 0 && s[0] == '+' {
        s.skip(1)
    } else {
        s
    };
    if is_digits(digits) && decimal_value(digits) <= u32::MAX {
        Some(decimal_value(digits) as u32)
    } else {
        None
    }
}

/// The `i32` that `s` writes: an optional `+` or `-` and then digits only, of a
/// number that an `i32` holds.
pub open spec fn i32_value(s: Seq<char>) -> Option<i32> {
    let digits = without_sign(s);
    let value = if s.len() > 0 && s[0] == '-' {
        -(decimal_value(digits) as int)
    } else {
        decimal_value(digits) as int
    };
    if is_digits(digits) && i32::MIN <= value <= i32::MAX {
        Some(value as i32)
    } else {
        None
    }
}

/// How many digits stand at the beginning of `s`.
pub open spec fn leading_digits(s: Seq<char>) -> nat
    decreases s.len(),
{
    if s.len() > 0 && is_digit(s[0]) {
        1 + leading_digits(s.skip(1))
    } else {
        0
    }
}

/// `c` is the lower-case letter `letter` or its upper-case form.
pub open spec fn is_letter(c: char, letter: char) -> bool {
    c == letter || ('A' <= c <= 'Z' && c as int + 32 == letter as int)
}

/// `s` is the lower-case word `word`, in letters of either case.
pub open spec fn is_word(s: Seq<char>, word: Seq<char>) -> bool {
    s.len() == word.len() && forall|i: int| 0 <= i < s.len() ==> is_letter(s[i], #[trigger] word[i])
}

/// One of the three words for a number that is no decimal number.
pub open spec fn is_special_number(s: Seq<char>) -> bool {
    is_word(s, "inf"@) || is_word(s, "infinity"@) || is_word(s, "nan"@)
}

/// An exponent: `e` or `E`, an optional sign, and at least one digit.
pub open spec fn is_exponent(s: Seq<char>) -> bool {
    s.len() > 0 && (s[0] == 'e' || s[0] == 'E') && is_digits(without_sign(s.skip(1)))
}

/// What follows the digits before the point: the point and the digits of the
/// fraction, where there is a point.
pub open spec fn fraction_digits(after_whole: Seq<char>) -> nat {
    if after_whole.len() > 0 && after_whole[0] == '.' {
        leading_digits(after_whole.skip(1))
    } else {
        0
    }
}

/// What follows the whole part and the fraction.
pub open spec fn after_fraction(after_whole: Seq<char>) -> Seq<char> {
    if after_whole.len() > 0 && after_whole[0] == '.' {
        after_whole.skip(1 + fraction_digits(after_whole) as int)
    } else {
        after_whole
    }
}

/// A decimal number without sign: digits, a point and more digits, with at
/// least one digit before or after the point, and then an optional exponent.
/// The point may be left out where digits stand before it.
pub open spec fn is_decimal_number(s: Seq<char>) -> bool {
    let whole = leading_digits(s);
    let after_whole = s.skip(whole as int);
    let tail = after_fraction(after_whole);
    &&& whole + fraction_digits(after_whole) > 0
    &&& tail.len() == 0 || is_exponent(tail)
}

/// A number as the text may write it: an optional sign, then a decimal number
/// or one of the words `inf`, `infinity` and `nan`. No whitespace stands
/// before or after it.
pub open spec fn is_number_literal(s: Seq<char>) -> bool {
    is_special_number(without_sign(s)) || is_decimal_number(without_sign(s))
}

/// A beginning of the digits writes no larger number than all of them.
pub proof fn lemma_decimal_value_grows(s: Seq<char>, k: int)
    requires
        0 <= k <= s.len(),
    ensures
        decimal_value(s.take(k)) <= decimal_value(s),
    decreases s.len() - k,
{
    if k == s.len() {
        assert(s.take(k) == s);
    } else {
        lemma_decimal_value_grows(s.drop_last(), k);
        assert(s.drop_last().take(k) == s.take(k));
    }
}

/// Counting digits from the beginning goes on behind each digit.
pub proof fn lemma_leading_digits_step(s: Seq<char>, i: int)
    requires
        0 <= i <= s.len(),
        forall|j: int| 0 <= j < i ==> is_digit(#[trigger] s[j]),
    ensures
        leading_digits(s) == i + leading_digits(s.skip(i)),
    decreases i,
{
    if i == 0 {
        assert(s.skip(0) == s);
    } else {
        lemma_leading_digits_step(s.skip(1), i - 1);
        assert(s.skip(1).skip(i - 1) == s.skip(i));
    }
}

/// The number that the digits of `s` write, where `s` holds digits only, at
/// least one, and the number is at most `limit`.
fn digits_up_to(s: &[char], limit: u32) -> (r: Option<u32>)
    ensures
        r == if is_digits(s@) && decimal_value(s@) <= limit {
            Some(decimal_value(s@) as u32)
        } else {
            None
        },
{
    if s.len() == 0 {
        return None;
    }
    let mut sum: u64 = 0;
    let mut i: usize = 0;
    assert(s@.take(0) == Seq::<char>::empty());
    while i < s.len()
        invariant
            i <= s.len(),
            all_digits(s@.take(i as int)),
            sum == decimal_value(s@.take(i as int)),
            sum <= limit,
        decreases s.len() - i,
    {
        let c = s[i];
        if !(c >= '0' && c <= '9') {
            assert(!is_digit(s@[i as int]));
            return None;
        }
        let next: u64 = sum * 10 + (c as u32 - '0' as u32) as u64;
        assert(s@.take(i + 1).drop_last() == s@.take(i as int));
        assert(next == decimal_value(s@.take(i + 1)));
        if next > limit as u64 {
            proof {
                lemma_decimal_value_grows(s@, i + 1);
            }
            return None;
        }
        sum = next;
        i = i + 1;
    }
    assert(s@.take(i as int) == s@);
    Some(sum as u32)
}

/// Reads a `u32` in decimal notation.
pub fn read_u32(s: &[char]) -> (r: Option<u32>)
    ensures
        r == u32_value(s@),
{
    if s.len() > 0 && s[0] == '+' {
        digits_up_to(slice_subrange(s, 1, s.len()), u32::MAX)
    } else {
        digits_up_to(s, u32::MAX)
    }
}

/// Reads an `i32` in decimal notation.
pub fn read_i32(s: &[char]) -> (r: Option<i32>)
    ensures
        r == i32_value(s@),
{
    if s.len() > 0 && s[0] == '-' {
        match digits_up_to(slice_subrange(s, 1, s.len()), 0x8000_0000) {
            Some(v) => Some((0 - v as i64) as i32),
            None => None,
        }
    } else if s.len() > 0 && s[0] == '+' {
        match digits_up_to(slice_subrange(s, 1, s.len()), 0x7fff_ffff) {
            Some(v) => Some(v as i32),
            None => None,
        }
    } else {
        match digits_up_to(s, 0x7fff_ffff) {
            Some(v) => Some(v as i32),
            None => None,
        }
    }
}

/// Whether `c` is the lower-case letter `letter` in either case.
fn letter(c: char, lower: char) -> (r: bool)
    ensures
        r == is_letter(c, lower),
{
    c == lower || (c >= 'A' && c <= 'Z' && c as u32 + 32 == lower as u32)
}

/// Whether `s` is the lower-case word `word`, in letters of either case.
fn word(s: &[char], lower: &str) -> (r: bool)
    ensures
        r == is_word(s@, lower@),
{
    let mut i: usize = 0;
    for c in it: lower.chars()
        invariant
            it.seq() == lower@,
            i == it.index(),
            i <= s.len(),
            forall|j: int| 0 <= j < i ==> is_letter(s@[j], #[trigger] lower@[j]),
    {
        assert(i < lower@.len() && c == lower@[i as int]);
        if i >= s.len() {
            return false;
        }
        if !letter(s[i], c) {
            return false;
        }
        i = i + 1;
    }
    i == s.len()
}

/// `s` without the sign that may stand at its beginning.
fn strip_sign<'a>(s: &'a [char]) -> (r: &'a [char])
    ensures
        r@ == without_sign(s@),
{
    if s.len() > 0 && (s[0] == '+' || s[0] == '-') {
        slice_subrange(s, 1, s.len())
    } else {
        s
    }
}

/// How many digits stand at the beginning of `s`.
fn count_digits(s: &[char]) -> (n: usize)
    ensures
        n == leading_digits(s@),
        n <= s@.len(),
{
    let mut i: usize = 0;
    while i < s.len() && s[i] >= '0' && s[i] <= '9'
        invariant
            i <= s.len(),
            forall|j: int| 0 <= j < i ==> is_digit(#[trigger] s@[j]),
        decreases s.len() - i,
    {
        i = i + 1;
    }
    proof {
        lemma_leading_digits_step(s@, i as int);
    }
    i
}

/// Whether `s` holds digits only, and at least one.
fn digits(s: &[char]) -> (r: bool)
    ensures
        r == is_digits(s@),
{
    let n = count_digits(s);
    proof {
        if n == s@.len() {
            assert forall|j: int| 0 <= j < s@.len() implies is_digit(#[trigger] s@[j]) by {
                lemma_all_leading(s@, j);
            }
        } else {
            lemma_first_other(s@);
        }
    }
    n > 0 && n == s.len()
}

/// Where the digits at the beginning are all of `s`, each character is a digit.
proof fn lemma_all_leading(s: Seq<char>, j: int)
    requires
        leading_digits(s) == s.len(),
        0 <= j < s.len(),
    ensures
        is_digit(s[j]),
    decreases j,
{
    lemma_leading_at_most_len(s.skip(1));
    if j > 0 {
        lemma_all_leading(s.skip(1), j - 1);
    }
}

/// No more digits stand at the beginning of `s` than `s` has characters.
proof fn lemma_leading_at_most_len(s: Seq<char>)
    ensures
        leading_digits(s) <= s.len(),
    decreases s.len(),
{
    if s.len() > 0 && is_digit(s[0]) {
        lemma_leading_at_most_len(s.skip(1));
    }
}

/// Behind the digits at the beginning stands a character that is no digit,
/// where anything stands there.
proof fn lemma_first_other(s: Seq<char>)
    ensures
        leading_digits(s) <= s.len(),
        leading_digits(s) < s.len() ==> !is_digit(s[leading_digits(s) as int]),
    decreases s.len(),
{
    if s.len() > 0 && is_digit(s[0]) {
        lemma_first_other(s.skip(1));
    }
}

/// Whether `s` is an exponent.
fn exponent(s: &[char]) -> (r: bool)
    ensures
        r == is_exponent(s@),
{
    if s.len() > 0 && (s[0] == 'e' || s[0] == 'E') {
        digits(strip_sign(slice_subrange(s, 1, s.len())))
    } else {
        false
    }
}

/// Whether `s` is a decimal number without sign.
fn decimal_number(s: &[char]) -> (r: bool)
    ensures
        r == is_decimal_number(s@),
{
    let whole = count_digits(s);
    let after_whole = slice_subrange(s, whole, s.len());
    assert(after_whole@ == s@.skip(whole as int));
    if after_whole.len() > 0 && after_whole[0] == '.' {
        let fraction = count_digits(slice_subrange(after_whole, 1, after_whole.len()));
        let tail = slice_subrange(after_whole, 1 + fraction, after_whole.len());
        assert(tail@ == after_fraction(after_whole@));
        (whole > 0 || fraction > 0) && (tail.len() == 0 || exponent(tail))
    } else {
        whole > 0 && (after_whole.len() == 0 || exponent(after_whole))
    }
}

/// Whether `s` writes a number, with or without a fraction.
pub fn number_literal(s: &[char]) -> (r: bool)
    ensures
        r == is_number_literal(s@),
{
    let body = strip_sign(s);
    word(body, "inf") || word(body, "infinity") || word(body, "nan") || decimal_number(body)
}

} // verus!
