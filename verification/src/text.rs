//! Text helpers: characters of strings, decimal and hexadecimal numbers,
//! whitespace trimming and ASCII case folding, each against a specification
//! over `Seq<char>`.

use vstd::prelude::*;

verus! {

broadcast use vstd::string::group_string_axioms;

/// The characters of `text`, in order.
pub fn chars_of(text: &str) -> (chars: Vec<char>)
    ensures
        chars@ == text@,
{
    let mut chars: Vec<char> = Vec::new();
    for c in it: text.chars()
        invariant
            chars@ == it.seq().take(it.index() as int),
    {
        chars.push(c);
    }
    chars
}

/// Appends one character to a string (`String::push`).
#[verifier::external_body]
fn push_char(text: &mut String, c: char)
    ensures
        final(text)@ == old(text)@.push(c),
{
    text.push(c);
}

/// The string made of `chars`, in order.
pub fn string_of(chars: &[char]) -> (text: String)
    ensures
        text@ == chars@,
{
    let mut text = String::new();
    let mut i: usize = 0;
    while i < chars.len()
        invariant
            i <= chars@.len(),
            text@ == chars@.take(i as int),
        decreases chars@.len() - i,
    {
        push_char(&mut text, chars[i]);
        proof {
            assert(text@ =~= chars@.take(i + 1));
        }
        i = i + 1;
    }
    proof {
        assert(text@ =~= chars@);
    }
    text
}

/// Whether `c` has the Unicode `White_Space` property, as `char::is_whitespace`.
pub open spec fn is_whitespace(c: char) -> bool {
    let code = c as u32;
    ||| 0x09 <= code <= 0x0d
    ||| code == 0x20
    ||| code == 0x85
    ||| code == 0xa0
    ||| code == 0x1680
    ||| 0x2000 <= code <= 0x200a
    ||| code == 0x2028
    ||| code == 0x2029
    ||| code == 0x202f
    ||| code == 0x205f
    ||| code == 0x3000
}

fn char_is_whitespace(c: char) -> (result: bool)
    ensures
        result == is_whitespace(c),
{
    let code = c as u32;
    (0x09 <= code && code <= 0x0d) || code == 0x20 || code == 0x85 || code == 0xa0 || code
        == 0x1680 || (0x2000 <= code && code <= 0x200a) || code == 0x2028 || code == 0x2029
        || code == 0x202f || code == 0x205f || code == 0x3000
}

/// Whether `text` holds nothing but whitespace, so that trimming it leaves
/// the empty string.
pub open spec fn is_blank(text: Seq<char>) -> bool {
    forall|i: int| 0 <= i < text.len() ==> is_whitespace(#[trigger] text[i])
}

/// Whether `text` is empty once its surrounding whitespace is trimmed.
pub fn blank(text: &str) -> (result: bool)
    ensures
        result == is_blank(text@),
{
    let chars = chars_of(text);
    let mut i: usize = 0;
    while i < chars.len()
        invariant
            chars@ == text@,
            i <= chars@.len(),
            forall|j: int| 0 <= j < i ==> is_whitespace(#[trigger] chars@[j]),
        decreases chars@.len() - i,
    {
        if !char_is_whitespace(chars[i]) {
            return false;
        }
        i = i + 1;
    }
    true
}

/// Number of leading characters of `text` that satisfy `is_whitespace`.
pub open spec fn leading_whitespace(text: Seq<char>) -> nat
    decreases text.len(),
{
    if text.len() > 0 && is_whitespace(text[0]) {
        1 + leading_whitespace(text.drop_first())
    } else {
        0
    }
}

/// Number of trailing characters of `text` that satisfy `is_whitespace`.
pub open spec fn trailing_whitespace(text: Seq<char>) -> nat
    decreases text.len(),
{
    if text.len() > 0 && is_whitespace(text.last()) {
        1 + trailing_whitespace(text.drop_last())
    } else {
        0
    }
}

/// `text` without its leading and trailing whitespace, as `str::trim`.
pub open spec fn trimmed(text: Seq<char>) -> Seq<char> {
    let start = leading_whitespace(text) as int;
    let rest = text.subrange(start, text.len() as int);
    rest.subrange(0, rest.len() - trailing_whitespace(rest))
}

proof fn lemma_leading_whitespace(text: Seq<char>, i: int)
    requires
        0 <= i <= text.len(),
        forall|j: int| 0 <= j < i ==> is_whitespace(#[trigger] text[j]),
        i == text.len() || !is_whitespace(text[i]),
    ensures
        leading_whitespace(text) == i,
    decreases i,
{
    if i > 0 {
        lemma_leading_whitespace(text.drop_first(), i - 1);
    }
}

proof fn lemma_trailing_whitespace(text: Seq<char>, i: int)
    requires
        0 <= i <= text.len(),
        forall|j: int| text.len() - i <= j < text.len() ==> is_whitespace(#[trigger] text[j]),
        i == text.len() || !is_whitespace(text[text.len() - i - 1]),
    ensures
        trailing_whitespace(text) == i,
    decreases i,
{
    if i > 0 {
        let shorter = text.drop_last();
        assert forall|j: int| shorter.len() - (i - 1) <= j < shorter.len() implies is_whitespace(
            #[trigger] shorter[j],
        ) by {
            assert(shorter[j] == text[j]);
        }
        lemma_trailing_whitespace(shorter, i - 1);
    }
}

/// The characters of `chars` without surrounding whitespace.
pub fn trim_chars(chars: &[char]) -> (result: Vec<char>)
    ensures
        result@ == trimmed(chars@),
{
    let mut start: usize = 0;
    while start < chars.len() && char_is_whitespace(chars[start])
        invariant
            start <= chars@.len(),
            forall|j: int| 0 <= j < start ==> is_whitespace(#[trigger] chars@[j]),
        decreases chars@.len() - start,
    {
        start = start + 1;
    }
    proof {
        lemma_leading_whitespace(chars@, start as int);
    }
    let ghost rest = chars@.subrange(start as int, chars@.len() as int);
    let mut end: usize = chars.len();
    while end > start && char_is_whitespace(chars[end - 1])
        invariant
            start <= end <= chars@.len(),
            rest == chars@.subrange(start as int, chars@.len() as int),
            forall|j: int| end <= j < chars@.len() ==> is_whitespace(#[trigger] chars@[j]),
        decreases end,
    {
        end = end - 1;
    }
    proof {
        assert forall|j: int| rest.len() - (chars@.len() - end) <= j < rest.len() implies is_whitespace(
            #[trigger] rest[j],
        ) by {
            assert(rest[j] == chars@[start + j]);
        }
        if end > start {
            assert(rest[rest.len() - (chars@.len() - end) - 1] == chars@[end - 1]);
        }
        lemma_trailing_whitespace(rest, chars@.len() - end);
    }
    let mut result: Vec<char> = Vec::new();
    let mut i: usize = start;
    while i < end
        invariant
            start <= i <= end <= chars@.len(),
            result@ == chars@.subrange(start as int, i as int),
        decreases end - i,
    {
        result.push(chars[i]);
        proof {
            assert(result@ =~= chars@.subrange(start as int, i + 1));
        }
        i = i + 1;
    }
    proof {
        assert(result@ =~= trimmed(chars@));
    }
    result
}

/// The ASCII digit or letter that stands for `value` (below 16) in base 16,
/// lower or upper case.
pub open spec fn hex_digit_char(value: int, upper: bool) -> char {
    if value < 10 {
        (value + 48) as char
    } else if upper {
        (value - 10 + 65) as char
    } else {
        (value - 10 + 97) as char
    }
}

/// The digits of `value` in base `radix` (10 or 16), most significant
/// first, without leading zeros; `0` is written as one digit.
pub open spec fn digits(value: nat, radix: nat, upper: bool) -> Seq<char>
    recommends
        radix >= 2,
    decreases value,
{
    if value < radix || radix < 2 {
        seq![hex_digit_char(value as int, upper)]
    } else {
        proof {
            vstd::arithmetic::div_mod::lemma_div_decreases(value as int, radix as int);
        }
        digits(value / radix, radix, upper).push(hex_digit_char((value % radix) as int, upper))
    }
}

/// `text` preceded by enough `0` characters to make it `width` long.
pub open spec fn zero_padded(text: Seq<char>, width: nat) -> Seq<char> {
    if text.len() >= width {
        text
    } else {
        Seq::new((width - text.len()) as nat, |i: int| '0') + text
    }
}

fn digit_char(value: u64, upper: bool) -> (c: char)
    requires
        value < 16,
    ensures
        c == hex_digit_char(value as int, upper),
{
    if value < 10 {
        ((value + 48) as u8) as char
    } else if upper {
        ((value - 10 + 65) as u8) as char
    } else {
        ((value - 10 + 97) as u8) as char
    }
}

/// The digits of `value` in base `radix`, as a character vector.
pub fn format_digits(value: u64, radix: u64, upper: bool) -> (chars: Vec<char>)
    requires
        radix == 10 || radix == 16,
    ensures
        chars@ == digits(value as nat, radix as nat, upper),
    decreases value,
{
    if value < radix {
        let mut chars = Vec::new();
        chars.push(digit_char(value, upper));
        chars
    } else {
        let mut chars = format_digits(value / radix, radix, upper);
        chars.push(digit_char(value % radix, upper));
        chars
    }
}

/// The value of digit `c` in base `radix` (10 or 16), as `char::to_digit`.
pub open spec fn digit_value(c: char, radix: nat) -> Option<nat> {
    let code = c as u32;
    if 48 <= code <= 57 && code - 48 < radix {
        Some((code - 48) as nat)
    } else if radix == 16 && 97 <= code <= 102 {
        Some((code - 87) as nat)
    } else if radix == 16 && 65 <= code <= 70 {
        Some((code - 55) as nat)
    } else {
        None
    }
}

/// Whether every character of `text` is a digit in base `radix`.
pub open spec fn all_digits(text: Seq<char>, radix: nat) -> bool {
    forall|i: int| 0 <= i < text.len() ==> (#[trigger] digit_value(text[i], radix)) is Some
}

/// The number written by the digits `text` in base `radix`.
pub open spec fn digits_value(text: Seq<char>, radix: nat) -> nat
    decreases text.len(),
{
    if text.len() == 0 {
        0
    } else {
        digits_value(text.drop_last(), radix) * radix + match digit_value(text.last(), radix) {
            Some(d) => d,
            None => 0,
        }
    }
}

/// The unsigned number that `text` writes in base `radix`, as the standard
/// library's `from_str_radix` reads it: an optional `+` followed by at
/// least one digit, the value being at most `max`.
pub open spec fn parsed_unsigned(text: Seq<char>, radix: nat, max: nat) -> Option<nat> {
    let body = if text.len() > 0 && text[0] == '+' { text.drop_first() } else { text };
    if body.len() > 0 && all_digits(body, radix) && digits_value(body, radix) <= max {
        Some(digits_value(body, radix))
    } else {
        None
    }
}

fn char_digit(c: char, radix: u64) -> (digit: Option<u64>)
    requires
        radix == 10 || radix == 16,
    ensures
        digit matches Some(d) ==> digit_value(c, radix as nat) == Some(d as nat),
        digit is None ==> digit_value(c, radix as nat) is None,
{
    let code = c as u32;
    if 48 <= code && code <= 57 && ((code - 48) as u64) < radix {
        Some((code - 48) as u64)
    } else if radix == 16 && 97 <= code && code <= 102 {
        Some((code - 87) as u64)
    } else if radix == 16 && 65 <= code && code <= 70 {
        Some((code - 55) as u64)
    } else {
        None
    }
}

/// Reads an unsigned number in base `radix` (10 or 16) that must not
/// exceed `max`; see [`parsed_unsigned`].
pub fn parse_unsigned(text: &[char], radix: u64, max: u64) -> (value: Option<u64>)
    requires
        radix == 10 || radix == 16,
    ensures
        value matches Some(v) ==> parsed_unsigned(text@, radix as nat, max as nat) == Some(v as nat),
        value is None ==> parsed_unsigned(text@, radix as nat, max as nat) is None,
{
    let start: usize = if text.len() > 0 && text[0] == '+' { 1 } else { 0 };
    let ghost body = if text@.len() > 0 && text@[0] == '+' { text@.drop_first() } else { text@ };
    if start >= text.len() {
        return None;
    }
    let mut value: u64 = 0;
    let mut overflow = false;
    let mut i: usize = start;
    while i < text.len()
        invariant
            radix == 10 || radix == 16,
            start <= i <= text@.len(),
            start == 0 || start == 1,
            body == text@.subrange(start as int, text@.len() as int),
            body == (if text@.len() > 0 && text@[0] == '+' { text@.drop_first() } else { text@ }),
            all_digits(body.take(i - start), radix as nat),
            !overflow ==> value == digits_value(body.take(i - start), radix as nat),
            !overflow ==> value <= max,
            overflow ==> digits_value(body.take(i - start), radix as nat) > max,
        decreases text@.len() - i,
    {
        let ghost prefix = body.take(i - start);
        let ghost next = body.take(i - start + 1);
        assert(next.drop_last() =~= prefix);
        assert(next.last() == text@[i as int]);
        match char_digit(text[i], radix) {
            None => {
                assert(!all_digits(body, radix as nat)) by {
                    assert(body[i - start] == text@[i as int]);
                    assert(digit_value(body[i - start], radix as nat) is None);
                }

                return None;
            },
            Some(d) => {
                assert(all_digits(next, radix as nat)) by {
                    assert forall|j: int| 0 <= j < next.len() implies (#[trigger] digit_value(
                        next[j],
                        radix as nat,
                    )) is Some by {
                        if j < prefix.len() {
                            assert(next[j] == prefix[j]);
                        }
                    }
                }
                if !overflow {
                    if d > max || value > (max - d) / radix {
                        overflow = true;
                        proof {
                            if d <= max {
                                let room = (max - d) as int;
                                let r = radix as int;
                                assert(value as int * r > room) by (nonlinear_arith)
                                    requires
                                        value as int > room / r,
                                        r > 0,
                                        room >= 0,
                                ;
                            }
                        }
                    } else {
                        proof {
                            let room = (max - d) as int;
                            let r = radix as int;
                            assert(value as int * r <= room) by (nonlinear_arith)
                                requires
                                    value as int <= room / r,
                                    r > 0,
                                    room >= 0,
                            ;
                        }
                        value = value * radix + d;
                    }
                } else {
                    assert(digits_value(next, radix as nat) >= digits_value(prefix, radix as nat))
                        by (nonlinear_arith)
                        requires
                            digits_value(next, radix as nat) == digits_value(prefix, radix as nat)
                                * radix + d,
                            radix >= 1,
                    ;
                }
            },
        }
        i = i + 1;
    }
    proof {
        assert(body.take(text@.len() - start) =~= body);
        assert(body.len() > 0);
    }
    if overflow {
        None
    } else {
        Some(value)
    }
}

/// `chars` preceded by `0` characters up to `width` characters in total.
pub fn pad_zeros(chars: Vec<char>, width: usize) -> (padded: Vec<char>)
    ensures
        padded@ == zero_padded(chars@, width as nat),
{
    if chars.len() >= width {
        return chars;
    }
    let mut padded: Vec<char> = Vec::new();
    let fill = width - chars.len();
    let mut i: usize = 0;
    while i < fill
        invariant
            i <= fill,
            padded@ == Seq::new(i as nat, |k: int| '0'),
        decreases fill - i,
    {
        padded.push('0');
        proof {
            assert(padded@ =~= Seq::new((i + 1) as nat, |k: int| '0'));
        }
        i = i + 1;
    }
    let mut j: usize = 0;
    while j < chars.len()
        invariant
            fill == width - chars@.len(),
            j <= chars@.len(),
            padded@ == Seq::new(fill as nat, |k: int| '0') + chars@.take(j as int),
        decreases chars@.len() - j,
    {
        padded.push(chars[j]);
        proof {
            assert(padded@ =~= Seq::new(fill as nat, |k: int| '0') + chars@.take(j + 1));
        }
        j = j + 1;
    }
    proof {
        assert(chars@.take(chars@.len() as int) =~= chars@);
    }
    padded
}

/// `value` written in decimal, as `format!("{value}")`.
pub fn decimal(value: u64) -> (text: String)
    ensures
        text@ == digits(value as nat, 10, false),
{
    string_of(format_digits(value, 10, false).as_slice())
}

/// Every character that [`digits`] writes is a digit of the radix, and
/// the digits read back as the number.
pub proof fn lemma_digits_read_back(value: nat, radix: nat, upper: bool)
    requires
        radix == 10 || radix == 16,
    ensures
        all_digits(digits(value, radix, upper), radix),
        digits_value(digits(value, radix, upper), radix) == value,
        digits(value, radix, upper).len() >= 1,
        digits(value, radix, upper)[0] != '+',
    decreases value,
{
    let text = digits(value, radix, upper);
    if value < radix {
        assert(text.drop_last() =~= Seq::<char>::empty());
        assert(digit_value(text[0], radix) == Some(value));
        assert(digits_value(text.drop_last(), radix) == 0);
        assert(0 * radix == 0);
        assert(digits_value(text, radix) == value);
    } else {
        vstd::arithmetic::div_mod::lemma_div_decreases(value as int, radix as int);
        lemma_digits_read_back(value / radix, radix, upper);
        let prefix = digits(value / radix, radix, upper);
        assert(text.drop_last() =~= prefix);
        let d = (value % radix) as int;
        assert(digit_value(text.last(), radix) == Some(d as nat));
        assert forall|i: int| 0 <= i < text.len() implies (#[trigger] digit_value(text[i], radix)) is Some by {
            if i < prefix.len() {
                assert(text[i] == prefix[i]);
            }
        }
        vstd::arithmetic::div_mod::lemma_fundamental_div_mod(value as int, radix as int);
        assert(value == (value / radix) * radix + value % radix) by (nonlinear_arith)
            requires
                value == radix * (value / radix) + value % radix,
        ;
        assert(text[0] == prefix[0]);
        assert(digits_value(text, radix) == digits_value(prefix, radix) * radix + d);
    }
}

/// Leading zeros do not change the value of a number.
pub proof fn lemma_leading_zeros(zeros: Seq<char>, text: Seq<char>, radix: nat)
    requires
        radix == 10 || radix == 16,
        forall|i: int| 0 <= i < zeros.len() ==> zeros[i] == '0',
    ensures
        digits_value(zeros + text, radix) == digits_value(text, radix),
        all_digits(text, radix) ==> all_digits(zeros + text, radix),
    decreases zeros.len() + text.len(),
{
    let whole = zeros + text;
    if text.len() == 0 {
        assert(whole =~= zeros);
        if zeros.len() > 0 {
            lemma_leading_zeros(zeros.drop_last(), text, radix);
            assert(zeros.drop_last() + text =~= zeros.drop_last());
            assert(whole.drop_last() =~= zeros.drop_last());
        }
    } else {
        lemma_leading_zeros(zeros, text.drop_last(), radix);
        assert(whole.drop_last() =~= zeros + text.drop_last());
        assert(whole.last() == text.last());
    }
    if all_digits(text, radix) {
        assert forall|i: int| 0 <= i < whole.len() implies (#[trigger] digit_value(whole[i], radix)) is Some by {
            if i < zeros.len() {
                assert(whole[i] == '0');
            } else {
                assert(whole[i] == text[i - zeros.len()]);
            }
        }
    }
}

/// A number written with [`digits`], with or without leading zeros, reads
/// back as itself.
pub proof fn lemma_padded_digits_parse(value: nat, radix: nat, upper: bool, width: nat, max: nat)
    requires
        radix == 10 || radix == 16,
        value <= max,
    ensures
        parsed_unsigned(zero_padded(digits(value, radix, upper), width), radix, max) == Some(value),
{
    let text = digits(value, radix, upper);
    lemma_digits_read_back(value, radix, upper);
    let padded = zero_padded(text, width);
    if text.len() < width {
        let zeros = Seq::new((width - text.len()) as nat, |i: int| '0');
        lemma_leading_zeros(zeros, text, radix);
        assert(padded[0] == '0');
    }
}

/// The characters of `chars` from `start` (inclusive) to `end` (exclusive).
pub fn slice_chars(chars: &[char], start: usize, end: usize) -> (part: Vec<char>)
    requires
        start <= end <= chars@.len(),
    ensures
        part@ == chars@.subrange(start as int, end as int),
{
    let mut part: Vec<char> = Vec::new();
    let mut i: usize = start;
    while i < end
        invariant
            start <= i <= end <= chars@.len(),
            part@ == chars@.subrange(start as int, i as int),
        decreases end - i,
    {
        part.push(chars[i]);
        proof {
            assert(part@ =~= chars@.subrange(start as int, i + 1));
        }
        i = i + 1;
    }
    part
}

/// The first digit [`digits`] writes is `0` only for the number 0.
pub proof fn lemma_digits_leading_zero(value: nat, radix: nat, upper: bool)
    requires
        radix == 10 || radix == 16,
    ensures
        digits(value, radix, upper)[0] == '0' ==> value == 0 && digits(value, radix, upper).len() == 1,
    decreases value,
{
    if value >= radix {
        vstd::arithmetic::div_mod::lemma_div_decreases(value as int, radix as int);
        lemma_digits_leading_zero(value / radix, radix, upper);
        vstd::arithmetic::div_mod::lemma_div_pos_is_pos(value as int, radix as int);
        assert(value / radix >= 1) by {
            vstd::arithmetic::div_mod::lemma_div_is_ordered(radix as int, value as int, radix as int);
            vstd::arithmetic::div_mod::lemma_div_by_self(radix as int);
        }
        lemma_digits_read_back(value / radix, radix, upper);
        assert(digits(value, radix, upper)[0] == digits(value / radix, radix, upper)[0]);
    }
}

/// A text whose first and last characters are not whitespace is its own
/// trimmed form.
pub proof fn lemma_trimmed_unchanged(text: Seq<char>)
    requires
        text.len() > 0,
        !is_whitespace(text[0]),
        !is_whitespace(text.last()),
    ensures
        trimmed(text) == text,
{
    assert(leading_whitespace(text) == 0);
    assert(text.subrange(0, text.len() as int) =~= text);
    assert(trailing_whitespace(text) == 0);
    assert(text.subrange(0, text.len() as int) =~= text);
}

/// Trimming removes exactly the whitespace around a text that neither
/// starts nor ends with whitespace.
pub proof fn lemma_trimmed_padding(before: Seq<char>, text: Seq<char>, after: Seq<char>)
    requires
        is_blank(before),
        is_blank(after),
        text.len() > 0,
        !is_whitespace(text[0]),
        !is_whitespace(text.last()),
    ensures
        trimmed(before + text + after) == text,
{
    let whole = before + text + after;
    let start = before.len() as int;
    assert forall|j: int| 0 <= j < start implies is_whitespace(#[trigger] whole[j]) by {
        assert(whole[j] == before[j]);
    }
    assert(whole[start] == text[0]);
    lemma_leading_whitespace(whole, start);
    let rest = whole.subrange(start, whole.len() as int);
    assert(rest =~= text + after);
    let tail = after.len() as int;
    assert forall|j: int| rest.len() - tail <= j < rest.len() implies is_whitespace(
        #[trigger] rest[j],
    ) by {
        assert(rest[j] == after[j - text.len()]);
    }
    assert(rest[rest.len() - tail - 1] == text.last());
    lemma_trailing_whitespace(rest, tail);
    assert(rest.subrange(0, rest.len() - tail) =~= text);
}

/// Digits are not whitespace.
pub proof fn lemma_digit_not_whitespace(c: char, radix: nat)
    requires
        digit_value(c, radix) is Some,
    ensures
        !is_whitespace(c),
{
}

/// `c` with ASCII upper-case letters mapped to lower case, as
/// `char::to_ascii_lowercase`.
pub open spec fn ascii_lower(c: char) -> char {
    if 'A' <= c <= 'Z' {
        ((c as u32) + 32) as char
    } else {
        c
    }
}

/// `text` with ASCII letters in lower case, as `str::to_ascii_lowercase`.
pub open spec fn ascii_lowercase(text: Seq<char>) -> Seq<char> {
    text.map_values(|c: char| ascii_lower(c))
}

/// `text` with ASCII letters in lower case.
pub fn to_ascii_lowercase(text: &str) -> (lower: String)
    ensures
        lower@ == ascii_lowercase(text@),
{
    let chars = chars_of(text);
    let mut lower: Vec<char> = Vec::new();
    let mut i: usize = 0;
    while i < chars.len()
        invariant
            chars@ == text@,
            i <= chars@.len(),
            lower@ == ascii_lowercase(chars@.take(i as int)),
        decreases chars@.len() - i,
    {
        let c = chars[i];
        let mapped = if 'A' <= c && c <= 'Z' { ((c as u32) + 32) as u8 as char } else { c };
        lower.push(mapped);
        proof {
            assert(lower@ =~= ascii_lowercase(chars@.take(i + 1)));
        }
        i = i + 1;
    }
    proof {
        assert(chars@.take(chars@.len() as int) =~= chars@);
    }
    string_of(lower.as_slice())
}

/// `first` followed by `second`.
pub fn concat(first: &str, second: &str) -> (joined: String)
    ensures
        joined@ == first@ + second@,
{
    let mut joined = first.to_string();
    joined.append(second);
    joined
}

/// Whether `a` comes before `b` in the order of `Ord for String`: the
/// lexicographic order of their UTF-8 bytes, which is the lexicographic
/// order of their characters' code points.
pub open spec fn text_less(a: Seq<char>, b: Seq<char>) -> bool
    decreases a.len(),
{
    if a.len() == 0 {
        b.len() > 0
    } else if b.len() == 0 {
        false
    } else if a[0] != b[0] {
        (a[0] as u32) < (b[0] as u32)
    } else {
        text_less(a.drop_first(), b.drop_first())
    }
}

/// Characters with the same code point are the same character.
pub proof fn lemma_char_code_injective(x: char, y: char)
    requires
        x as u32 == y as u32,
    ensures
        x == y,
{
    assert((x as u32) as char == x);
}

/// Compares two character sequences in the order of [`text_less`]: -1 when
/// `a` comes first, 1 when `b` does, 0 when they are equal.
pub fn compare_chars(a: &[char], b: &[char]) -> (order: i8)
    ensures
        order == -1 <==> text_less(a@, b@),
        order == 1 <==> text_less(b@, a@),
        order == 0 <==> a@ == b@,
{
    let mut i: usize = 0;
    assert(a@.skip(0) =~= a@ && b@.skip(0) =~= b@);
    while i < a.len() && i < b.len()
        invariant
            i <= a@.len(),
            i <= b@.len(),
            a@.take(i as int) == b@.take(i as int),
            text_less(a@, b@) == text_less(a@.skip(i as int), b@.skip(i as int)),
            text_less(b@, a@) == text_less(b@.skip(i as int), a@.skip(i as int)),
        decreases a@.len() - i,
    {
        proof {
            assert(a@.skip(i as int).drop_first() =~= a@.skip(i + 1));
            assert(b@.skip(i as int).drop_first() =~= b@.skip(i + 1));
        }
        if a[i] != b[i] {
            proof {
                assert(a@ != b@) by {
                    assert(a@[i as int] != b@[i as int]);
                }
            }
            let x = a[i];
            let y = b[i];
            proof {
                if (x as u32) == (y as u32) {
                    lemma_char_code_injective(x, y);
                }
            }
            if (a[i] as u32) < (b[i] as u32) {
                return -1;
            } else {
                return 1;
            }
        }
        proof {
            assert(a@[i as int] == b@[i as int]);
            assert(a@.take(i + 1) =~= a@.take(i as int).push(a@[i as int]));
            assert(b@.take(i + 1) =~= b@.take(i as int).push(b@[i as int]));
        }
        i = i + 1;
    }
    if a.len() == b.len() {
        proof {
            assert(a@ =~= a@.take(i as int));
            assert(b@ =~= b@.take(i as int));
        }
        0
    } else if a.len() < b.len() {
        proof {
            assert(a@ != b@);
        }
        -1
    } else {
        proof {
            assert(a@ != b@);
        }
        1
    }
}

/// The text `String::from_utf8_lossy` decodes from `bytes`: valid UTF-8 is
/// decoded as is, each invalid sequence becomes U+FFFD.
pub uninterp spec fn lossy_utf8(bytes: Seq<u8>) -> Seq<char>;

/// Decodes `bytes` as UTF-8, replacing invalid sequences
/// (`String::from_utf8_lossy`). The result is [`lossy_utf8`] of the bytes;
/// for valid UTF-8 it is the plain decoding, as the standard library
/// documents. What replaces an invalid sequence is left to the name.
#[verifier::external_body]
pub(crate) fn utf8_lossy(bytes: &[u8]) -> (text: String)
    ensures
        text@ == lossy_utf8(bytes@),
        vstd::utf8::valid_utf8(bytes@) ==> text@ == vstd::utf8::decode_utf8(bytes@),
{
    String::from_utf8_lossy(bytes).into_owned()
}

/// `text` without its trailing NUL characters, as
/// `str::trim_end_matches('\0')`.
pub open spec fn without_trailing_nuls(text: Seq<char>) -> Seq<char>
    decreases text.len(),
{
    if text.len() > 0 && text.last() == '\0' {
        without_trailing_nuls(text.drop_last())
    } else {
        text
    }
}

/// Removes trailing NUL characters.
pub fn trim_trailing_nuls(text: &str) -> (trimmed: String)
    ensures
        trimmed@ == without_trailing_nuls(text@),
{
    let chars = chars_of(text);
    let mut end: usize = chars.len();
    assert(chars@.take(end as int) =~= chars@);
    while end > 0 && chars[end - 1] == '\0'
        invariant
            end <= chars@.len(),
            chars@ == text@,
            without_trailing_nuls(text@) == without_trailing_nuls(chars@.take(end as int)),
        decreases end,
    {
        proof {
            assert(chars@.take(end as int).drop_last() =~= chars@.take(end - 1));
        }
        end = end - 1;
    }
    let kept = slice_chars(chars.as_slice(), 0, end);
    proof {
        assert(kept@ =~= chars@.take(end as int));
    }
    string_of(kept.as_slice())
}

/// `prefix` followed by `value` in decimal.
pub fn labeled(prefix: &str, value: u64) -> (text: String)
    ensures
        text@ == prefix@ + digits(value as nat, 10, false),
{
    let number = decimal(value);
    concat(prefix, number.as_str())
}

/// Whether `pattern` occurs in `text` at index `at`.
pub open spec fn occurs_at(text: Seq<char>, pattern: Seq<char>, at: int) -> bool {
    0 <= at && at + pattern.len() <= text.len() && text.subrange(at, at + pattern.len()) == pattern
}

/// Index of the first occurrence of `pattern` in `text`, if any.
pub open spec fn first_occurrence(text: Seq<char>, pattern: Seq<char>) -> Option<int> {
    if exists|at: int| #[trigger] occurs_at(text, pattern, at) {
        Some(choose|at: int| #[trigger] occurs_at(text, pattern, at) && forall|earlier: int|
            0 <= earlier < at ==> !occurs_at(text, pattern, earlier))
    } else {
        None
    }
}

/// Finds the first occurrence of `pattern` in `text`.
pub fn find_first(text: &[char], pattern: &[char]) -> (at: Option<usize>)
    ensures
        at matches Some(i) ==> occurs_at(text@, pattern@, i as int) && forall|earlier: int|
            0 <= earlier < i ==> !occurs_at(text@, pattern@, earlier),
        at is None ==> forall|i: int| !occurs_at(text@, pattern@, i),
{
    if pattern.len() > text.len() {
        return None;
    }
    let last = text.len() - pattern.len();
    let size = text.len();
    let mut i: usize = 0;
    while i <= last
        invariant
            size == text@.len(),
            last == text@.len() - pattern@.len(),
            i <= last + 1,
            forall|earlier: int| 0 <= earlier < i ==> !occurs_at(text@, pattern@, earlier),
        decreases last + 1 - i,
    {
        let mut j: usize = 0;
        let mut matching = true;
        while j < pattern.len()
            invariant_except_break
                matching,
            invariant
                i <= last,
                size == text@.len(),
                last == text@.len() - pattern@.len(),
                j <= pattern@.len(),
                forall|k: int| 0 <= k < j ==> text@[i + k] == pattern@[k],
            ensures
                matching ==> j == pattern@.len(),
                !matching ==> j < pattern@.len() && text@[i + j] != pattern@[j as int],
            decreases pattern@.len() - j,
        {
            if text[i + j] != pattern[j] {
                matching = false;
                break;
            }
            j = j + 1;
        }
        if matching {
            proof {
                assert(text@.subrange(i as int, i + pattern@.len()) =~= pattern@);
            }
            return Some(i);
        }
        proof {
            assert(!occurs_at(text@, pattern@, i as int)) by {
                if occurs_at(text@, pattern@, i as int) {
                    assert(text@.subrange(i as int, i + pattern@.len())[j as int] == text@[i + j]);
                }
            }
        }
        i = i + 1;
    }
    proof {
        assert forall|k: int| !occurs_at(text@, pattern@, k) by {
            if k > last {
                assert(k + pattern@.len() > text@.len());
            }
        }
    }
    None
}

/// `text` with the first occurrence of `pattern` replaced by
/// `replacement`, as `str::replacen(pattern, replacement, 1)`.
pub open spec fn replaced_first(text: Seq<char>, pattern: Seq<char>, replacement: Seq<char>) -> Seq<char> {
    match first_occurrence(text, pattern) {
        Some(at) => text.take(at) + replacement + text.skip(at + pattern.len()),
        None => text,
    }
}

proof fn lemma_first_occurrence(text: Seq<char>, pattern: Seq<char>, at: int)
    requires
        occurs_at(text, pattern, at),
        forall|earlier: int| 0 <= earlier < at ==> !occurs_at(text, pattern, earlier),
    ensures
        first_occurrence(text, pattern) == Some(at),
{
    let chosen = choose|i: int| #[trigger] occurs_at(text, pattern, i) && forall|earlier: int|
        0 <= earlier < i ==> !occurs_at(text, pattern, earlier);
    assert(occurs_at(text, pattern, chosen));
    if chosen < at {
        assert(!occurs_at(text, pattern, chosen));
    }
    if chosen > at {
        assert(!occurs_at(text, pattern, at));
    }
}

/// Replaces the first occurrence of `pattern`; `None` when there is none.
pub fn replace_first(text: &str, pattern: &[char], replacement: &[char]) -> (result: Option<String>)
    ensures
        result is Some <==> first_occurrence(text@, pattern@) is Some,
        result matches Some(replaced) ==> replaced@ == replaced_first(text@, pattern@, replacement@),
{
    let chars = chars_of(text);
    match find_first(chars.as_slice(), pattern) {
        None => {
            proof {
                if first_occurrence(text@, pattern@) is Some {
                    let at = choose|at: int| #[trigger] occurs_at(text@, pattern@, at);
                    assert(occurs_at(text@, pattern@, at));
                }
            }
            None
        },
        Some(at) => {
            proof {
                lemma_first_occurrence(text@, pattern@, at as int);
            }
            let mut out = slice_chars(chars.as_slice(), 0, at);
            let mut i: usize = 0;
            while i < replacement.len()
                invariant
                    i <= replacement@.len(),
                    out@ == chars@.take(at as int) + replacement@.take(i as int),
                decreases replacement@.len() - i,
            {
                out.push(replacement[i]);
                proof {
                    assert(out@ =~= chars@.take(at as int) + replacement@.take(i + 1));
                }
                i = i + 1;
            }
            let size = chars.len();
            let rest = slice_chars(chars.as_slice(), at + pattern.len(), size);
            let mut k: usize = 0;
            let ghost head = out@;
            while k < rest.len()
                invariant
                    k <= rest@.len(),
                    out@ == head + rest@.take(k as int),
                decreases rest@.len() - k,
            {
                out.push(rest[k]);
                proof {
                    assert(out@ =~= head + rest@.take(k + 1));
                }
                k = k + 1;
            }
            proof {
                assert(replacement@.take(replacement@.len() as int) =~= replacement@);
                assert(rest@.take(rest@.len() as int) =~= rest@);
                assert(out@ =~= replaced_first(text@, pattern@, replacement@));
            }
            Some(string_of(out.as_slice()))
        },
    }
}

} // verus!
