//! Text helpers shared by the tokenizer, the parser and the value algebra.
//!
//! Texts are modelled as sequences of characters (`Seq<char>`), the view of
//! `String` and `str`. The Unicode character classes and the upper-case
//! mapping are std's; they are named here and left uninterpreted.

use vstd::prelude::*;

verus! {

/// Whether std's `char::is_whitespace` holds of the character.
pub uninterp spec fn char_is_whitespace(c: char) -> bool;

/// Whether std's `char::is_control` holds of the character.
pub uninterp spec fn char_is_control(c: char) -> bool;

/// Whether std's `char::is_numeric` holds of the character.
pub uninterp spec fn char_is_numeric(c: char) -> bool;

/// Whether std's `char::is_alphanumeric` holds of the character.
pub uninterp spec fn char_is_alphanumeric(c: char) -> bool;

/// The text that std's `str::to_uppercase` returns for the text.
pub uninterp spec fn uppercase_of(text: Seq<char>) -> Seq<char>;

/// `char::is_whitespace`: trusted to answer as the Unicode `White_Space`
/// property does; the answer is a function of the character alone.
#[verifier::external_body]
pub(crate) fn is_whitespace(c: char) -> (answer: bool)
    ensures
        answer == char_is_whitespace(c),
{
    c.is_whitespace()
}

/// `char::is_control`: trusted to answer as the Unicode general category `Cc`
/// does; the answer is a function of the character alone.
#[verifier::external_body]
pub(crate) fn is_control(c: char) -> (answer: bool)
    ensures
        answer == char_is_control(c),
{
    c.is_control()
}

/// `char::is_numeric`: trusted to answer as the Unicode general categories
/// `Nd`, `Nl` and `No` do; the answer is a function of the character alone.
#[verifier::external_body]
pub(crate) fn is_numeric(c: char) -> (answer: bool)
    ensures
        answer == char_is_numeric(c),
{
    c.is_numeric()
}

/// `char::is_alphanumeric`: trusted to answer as the Unicode `Alphabetic`
/// property and the numeric categories do; the answer is a function of the
/// character alone.
#[verifier::external_body]
pub(crate) fn is_alphanumeric(c: char) -> (answer: bool)
    ensures
        answer == char_is_alphanumeric(c),
{
    c.is_alphanumeric()
}

/// `str::to_uppercase`: trusted to return the Unicode upper-case form of the
/// text, a function of the text alone.
#[verifier::external_body]
pub(crate) fn to_uppercase(text: &str) -> (upper: String)
    ensures
        upper@ == uppercase_of(text@),
{
    text.to_uppercase()
}

/// `String::push`: trusted to append the character to the text.
#[verifier::external_body]
pub(crate) fn push_char(text: &mut String, c: char)
    ensures
        final(text)@ == old(text)@.push(c),
{
    text.push(c)
}

/// The characters of a text, in order.
pub fn characters(text: &str) -> (list: Vec<char>)
    ensures
        list@ == text@,
{
    let mut list: Vec<char> = Vec::new();
    for c in it: text.chars()
        invariant
            list@ == it.seq().take(it.index() as int),
            it.seq() == text@,
    {
        list.push(c);
    }
    list
}

/// The text made of the characters `list[from..to]`.
pub fn text_between(list: &Vec<char>, from: usize, to: usize) -> (text: String)
    requires
        from <= to <= list.len(),
    ensures
        text@ == list@.subrange(from as int, to as int),
{
    let mut text = String::new();
    let mut i: usize = from;
    while i < to
        invariant
            from <= i <= to <= list.len(),
            text@ == list@.subrange(from as int, i as int),
        decreases to - i,
    {
        push_char(&mut text, list[i]);
        i += 1;
        assert(text@ =~= list@.subrange(from as int, i as int));
    }
    text
}

/// Whether two texts hold the same characters.
pub fn same_text(left: &str, right: &str) -> (same: bool)
    ensures
        same == (left@ == right@),
{
    let a = characters(left);
    let b = characters(right);
    if a.len() != b.len() {
        return false;
    }
    let mut i: usize = 0;
    while i < a.len()
        invariant
            i <= a.len(),
            a.len() == b.len(),
            a@ == left@,
            b@ == right@,
            forall|k: int| 0 <= k < i ==> a@[k] == b@[k],
        decreases a.len() - i,
    {
        if a[i] != b[i] {
            return false;
        }
        i += 1;
    }
    assert(a@ =~= b@);
    true
}

/// Whether `text` begins with the characters of `prefix`.
pub fn begins_with(text: &str, prefix: &str) -> (begins: bool)
    ensures
        begins == prefix@.is_prefix_of(text@),
{
    let a = characters(text);
    let b = characters(prefix);
    if a.len() < b.len() {
        return false;
    }
    let mut i: usize = 0;
    while i < b.len()
        invariant
            i <= b.len() <= a.len(),
            a@ == text@,
            b@ == prefix@,
            forall|k: int| 0 <= k < i ==> a@[k] == b@[k],
        decreases b.len() - i,
    {
        if a[i] != b[i] {
            assert(a@.subrange(0, b@.len() as int)[i as int] != b@[i as int]);
            return false;
        }
        i += 1;
    }
    assert(a@.subrange(0, b@.len() as int) =~= b@);
    true
}

/// Two texts one after the other.
pub fn joined(left: &str, right: &str) -> (text: String)
    ensures
        text@ == left@ + right@,
{
    let mut text = left.to_owned();
    text.append(right);
    text
}

/// The decimal digit that stands for `d`, for `d` below ten.
pub open spec fn digit(d: int) -> char {
    if d == 0 {
        '0'
    } else if d == 1 {
        '1'
    } else if d == 2 {
        '2'
    } else if d == 3 {
        '3'
    } else if d == 4 {
        '4'
    } else if d == 5 {
        '5'
    } else if d == 6 {
        '6'
    } else if d == 7 {
        '7'
    } else if d == 8 {
        '8'
    } else {
        '9'
    }
}

/// The decimal digits of a natural number, most significant first, without
/// leading zeros.
pub open spec fn decimal(n: nat) -> Seq<char>
    decreases n,
{
    if n < 10 {
        seq![digit(n as int)]
    } else {
        decimal(n / 10).push(digit((n % 10) as int))
    }
}

/// The decimal text of an integer: a minus sign for a negative number, then
/// the digits of its magnitude.
pub open spec fn decimal_text(i: int) -> Seq<char> {
    if i < 0 {
        seq!['-'] + decimal((-i) as nat)
    } else {
        decimal(i as nat)
    }
}

fn digit_char(d: u64) -> (c: char)
    requires
        d < 10,
    ensures
        c == digit(d as int),
{
    if d == 0 {
        '0'
    } else if d == 1 {
        '1'
    } else if d == 2 {
        '2'
    } else if d == 3 {
        '3'
    } else if d == 4 {
        '4'
    } else if d == 5 {
        '5'
    } else if d == 6 {
        '6'
    } else if d == 7 {
        '7'
    } else if d == 8 {
        '8'
    } else {
        '9'
    }
}

/// Appends the decimal digits of `n` to the text.
pub fn append_decimal(text: &mut String, n: u64)
    ensures
        final(text)@ == old(text)@ + decimal(n as nat),
    decreases n,
{
    let ghost before = text@;
    if n >= 10 {
        append_decimal(text, n / 10);
    }
    push_char(text, digit_char(n % 10));
    assert(text@ =~= before + decimal(n as nat));
}

/// The decimal text of a natural number.
pub fn natural_text(n: usize) -> (text: String)
    ensures
        text@ == decimal(n as nat),
{
    let mut text = String::new();
    append_decimal(&mut text, n as u64);
    assert(text@ =~= decimal(n as nat));
    text
}

/// The decimal text of an integer.
pub fn integer_text(i: i64) -> (text: String)
    ensures
        text@ == decimal_text(i as int),
{
    let mut text = String::new();
    if i < 0 {
        push_char(&mut text, '-');
        let magnitude: u64 = (0 - (i as i128)) as u64;
        append_decimal(&mut text, magnitude);
    } else {
        append_decimal(&mut text, i as u64);
    }
    assert(text@ =~= decimal_text(i as int));
    text
}

/// Whether the character is one of the ten ASCII digits.
pub open spec fn is_digit(c: char) -> bool {
    '0' <= c <= '9'
}

/// The number that an ASCII digit stands for, and zero for any other
/// character.
pub open spec fn digit_value(c: char) -> nat {
    if is_digit(c) {
        (c as int - '0' as int) as nat
    } else {
        0
    }
}

/// Whether every character of the text is an ASCII digit.
pub open spec fn all_digits(s: Seq<char>) -> bool {
    forall|i: int| 0 <= i < s.len() ==> is_digit(#[trigger] s[i])
}

/// The number that a run of digits denotes in base ten.
pub open spec fn digits_value(s: Seq<char>) -> nat
    decreases s.len(),
{
    if s.len() == 0 {
        0
    } else {
        10 * digits_value(s.drop_last()) + digit_value(s.last())
    }
}

/// Whether the text begins with a plus or a minus sign.
pub open spec fn has_sign(s: Seq<char>) -> bool {
    s.len() > 0 && (s[0] == '-' || s[0] == '+')
}

/// The part of a numeral that follows its optional sign.
pub open spec fn unsigned_part(s: Seq<char>) -> Seq<char> {
    if has_sign(s) {
        s.subrange(1, s.len() as int)
    } else {
        s
    }
}

/// The integer that a numeral denotes: an optional sign, then one or more
/// ASCII digits, the whole within the range of a 64-bit signed integer.
/// Any other text denotes nothing.
pub open spec fn parse_integer(s: Seq<char>) -> Option<i64> {
    let digits = unsigned_part(s);
    let magnitude = digits_value(digits) as int;
    let value = if s.len() > 0 && s[0] == '-' {
        -magnitude
    } else {
        magnitude
    };
    if digits.len() == 0 || !all_digits(digits) {
        None
    } else if i64::MIN <= value <= i64::MAX {
        Some(value as i64)
    } else {
        None
    }
}

fn digit_of(c: char) -> (d: Option<u64>)
    ensures
        d is Some <==> is_digit(c),
        d is Some ==> d->0 == digit_value(c),
{
    if c == '0' {
        Some(0)
    } else if c == '1' {
        Some(1)
    } else if c == '2' {
        Some(2)
    } else if c == '3' {
        Some(3)
    } else if c == '4' {
        Some(4)
    } else if c == '5' {
        Some(5)
    } else if c == '6' {
        Some(6)
    } else if c == '7' {
        Some(7)
    } else if c == '8' {
        Some(8)
    } else if c == '9' {
        Some(9)
    } else {
        None
    }
}

/// Reads a numeral: `Some` of its value exactly when the text is an optional
/// sign followed by digits that denote a 64-bit signed integer.
pub fn read_integer(text: &str) -> (value: Option<i64>)
    ensures
        value == parse_integer(text@),
{
    let chars = characters(text);
    let n = chars.len();
    let negative = n > 0 && chars[0] == '-';
    let start: usize = if n > 0 && (chars[0] == '-' || chars[0] == '+') {
        1
    } else {
        0
    };
    if start == n {
        return None;
    }
    let ghost digits = unsigned_part(text@);
    assert(digits =~= chars@.subrange(start as int, n as int));
    let limit: u64 = 0x8000_0000_0000_0000;
    let mut magnitude: u64 = 0;
    let mut beyond = false;
    let mut i: usize = start;
    while i < n
        invariant
            start <= i <= n == chars.len(),
            chars@ == text@,
            digits == unsigned_part(text@),
            digits == chars@.subrange(start as int, n as int),
            limit == 0x8000_0000_0000_0000,
            all_digits(digits.take(i - start)),
            !beyond ==> magnitude == digits_value(digits.take(i - start)) && magnitude <= limit,
            beyond ==> digits_value(digits.take(i - start)) > limit,
        decreases n - i,
    {
        let ghost prefix = digits.take(i - start);
        let ghost longer = digits.take(i - start + 1);
        assert(longer.drop_last() =~= prefix);
        assert(longer.last() == chars@[i as int]);
        match digit_of(chars[i]) {
            None => {
                assert(!is_digit(digits[i - start]));
                return None;
            },
            Some(d) => {
                assert(digits_value(longer) == 10 * digits_value(prefix) + d);
                if !beyond {
                    if magnitude > limit / 10 || magnitude * 10 + d > limit {
                        beyond = true;
                    } else {
                        magnitude = magnitude * 10 + d;
                    }
                }
                assert forall|k: int| 0 <= k < longer.len() implies is_digit(
                    #[trigger] longer[k],
                ) by {
                    if k < prefix.len() {
                        assert(longer[k] == prefix[k]);
                    }
                }
            },
        }
        i += 1;
    }
    assert(digits.take(n - start) =~= digits);
    if beyond {
        None
    } else if negative {
        Some((0 - (magnitude as i128)) as i64)
    } else if magnitude == limit {
        None
    } else {
        Some(magnitude as i64)
    }
}

/// Whether the first text comes strictly before the second in the
/// lexicographic order of their characters.
pub open spec fn text_precedes(a: Seq<char>, b: Seq<char>) -> bool
    decreases a.len(),
{
    if b.len() == 0 {
        false
    } else if a.len() == 0 {
        true
    } else if a[0] != b[0] {
        a[0] < b[0]
    } else {
        text_precedes(a.drop_first(), b.drop_first())
    }
}

/// Decides the lexicographic order of two texts.
pub fn precedes(left: &str, right: &str) -> (before: bool)
    ensures
        before == text_precedes(left@, right@),
{
    let a = characters(left);
    let b = characters(right);
    let mut i: usize = 0;
    assert(a@.skip(0) =~= a@);
    assert(b@.skip(0) =~= b@);
    loop
        invariant
            i <= a.len(),
            i <= b.len(),
            a@ == left@,
            b@ == right@,
            text_precedes(left@, right@) == text_precedes(a@.skip(i as int), b@.skip(i as int)),
        decreases a.len() - i,
    {
        if i == b.len() {
            return false;
        }
        if i == a.len() {
            return true;
        }
        if a[i] != b[i] {
            return a[i] < b[i];
        }
        assert(a@.skip(i as int).drop_first() =~= a@.skip(i + 1));
        assert(b@.skip(i as int).drop_first() =~= b@.skip(i + 1));
        i += 1;
    }
}

} // verus!
