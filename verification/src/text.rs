//! Text helpers: the characters of a string, decimal numbers, blanks.

use vstd::prelude::*;
use vstd::string::*;

verus! {

/// `String::push` appends the given character to the end of the string.
pub assume_specification[ String::push ](s: &mut String, c: char)
    ensures
        final(s)@ == old(s)@.push(c),
;

/// The characters of a string, in order.
pub fn chars_of(s: &str) -> (v: Vec<char>)
    ensures
        v@ == s@,
{
    broadcast use vstd::string::group_string_axioms;

    let mut v: Vec<char> = Vec::new();
    for c in it: s.chars()
        invariant
            v@ == it.history(),
            it.seq() == s@,
    {
        v.push(c);
    }
    assert(v@ =~= s@);
    v
}

/// Appends the characters `chars[from..to]` to a string.
pub fn push_chars(out: &mut String, chars: &Vec<char>, from: usize, to: usize)
    requires
        from <= to <= chars@.len(),
    ensures
        final(out)@ == old(out)@ + chars@.subrange(from as int, to as int),
{
    let mut i: usize = from;
    assert(out@ =~= old(out)@ + chars@.subrange(from as int, i as int));
    while i < to
        invariant
            from <= i <= to <= chars@.len(),
            out@ == old(out)@ + chars@.subrange(from as int, i as int),
        decreases to - i,
    {
        out.push(chars[i]);
        assert(out@ =~= old(out)@ + chars@.subrange(from as int, i + 1));
        i += 1;
    }
}

/// The string made of the characters `chars[from..to]`.
pub fn text_of(chars: &Vec<char>, from: usize, to: usize) -> (r: String)
    requires
        from <= to <= chars@.len(),
    ensures
        r@ == chars@.subrange(from as int, to as int),
{
    let mut r = String::new();
    push_chars(&mut r, chars, from, to);
    assert(r@ =~= chars@.subrange(from as int, to as int));
    r
}

/// The character of a decimal digit.
pub open spec fn digit_char(d: int) -> char {
    if d == 0 {
        '0'
    } else if d == 1 {
        '1'
    } else if d == 2 {
        '2'
    } else if d == 3 {
        '3'
    } else if d == 4 {
        '4'
    } else if d == 5 {
        '5'
    } else if d == 6 {
        '6'
    } else if d == 7 {
        '7'
    } else if d == 8 {
        '8'
    } else {
        '9'
    }
}

/// Whether a character is a decimal digit.
pub open spec fn is_digit(c: char) -> bool {
    '0' <= c <= '9'
}

/// The value of a decimal digit.
pub open spec fn digit_value(c: char) -> int {
    c as int - '0' as int
}

/// The decimal digits of a natural number, most significant first, without
/// leading zeros.
pub open spec fn decimal_nat(n: nat) -> Seq<char>
    decreases n,
{
    if n < 10 {
        seq![digit_char(n as int)]
    } else {
        decimal_nat(n / 10).push(digit_char((n % 10) as int))
    }
}

/// The decimal text of an integer, with a minus sign where it is negative.
pub open spec fn decimal(n: int) -> Seq<char> {
    if n < 0 {
        seq!['-'] + decimal_nat((-n) as nat)
    } else {
        decimal_nat(n as nat)
    }
}

/// The last `width` decimal digits of a natural number, with leading zeros.
pub open spec fn padded(n: nat, width: nat) -> Seq<char>
    decreases width,
{
    if width == 0 {
        Seq::<char>::empty()
    } else {
        padded(n / 10, (width - 1) as nat).push(digit_char((n % 10) as int))
    }
}

fn digit_of(d: u64) -> (c: char)
    requires
        d < 10,
    ensures
        c == digit_char(d as int),
        is_digit(c),
        digit_value(c) == d,
{
    if d == 0 {
        '0'
    } else if d == 1 {
        '1'
    } else if d == 2 {
        '2'
    } else if d == 3 {
        '3'
    } else if d == 4 {
        '4'
    } else if d == 5 {
        '5'
    } else if d == 6 {
        '6'
    } else if d == 7 {
        '7'
    } else if d == 8 {
        '8'
    } else {
        '9'
    }
}

/// Appends the decimal digits of a natural number.
pub fn push_decimal_nat(out: &mut String, n: u64)
    ensures
        final(out)@ == old(out)@ + decimal_nat(n as nat),
{
    let mut low: Vec<char> = Vec::new();
    let mut m: u64 = n;
    assert(decimal_nat(n as nat) =~= decimal_nat(m as nat) + low@.reverse());
    while m >= 10
        invariant
            decimal_nat(n as nat) == decimal_nat(m as nat) + low@.reverse(),
        decreases m,
    {
        let c = digit_of(m % 10);
        proof {
            let before = low@;
            let after = low@.push(c);
            assert(after.reverse() =~= seq![c] + before.reverse());
            assert(decimal_nat(m as nat) == decimal_nat((m / 10) as nat).push(c));
            assert(decimal_nat((m / 10) as nat).push(c) + before.reverse() =~= decimal_nat(
                (m / 10) as nat,
            ) + after.reverse());
        }
        low.push(c);
        m = m / 10;
    }
    let c = digit_of(m);
    proof {
        let before = low@;
        let after = low@.push(c);
        assert(after.reverse() =~= seq![c] + before.reverse());
        assert(decimal_nat(m as nat) =~= seq![c]);
    }
    low.push(c);
    assert(decimal_nat(n as nat) == low@.reverse());
    let mut i: usize = low.len();
    assert(out@ =~= old(out)@ + low@.reverse().subrange(0, low@.len() - i));
    while i > 0
        invariant
            i <= low@.len(),
            out@ == old(out)@ + low@.reverse().subrange(0, low@.len() - i),
        decreases i,
    {
        i -= 1;
        out.push(low[i]);
        assert(out@ =~= old(out)@ + low@.reverse().subrange(0, low@.len() - i));
    }
    assert(low@.reverse().subrange(0, low@.len() as int) =~= low@.reverse());
}

/// Appends the decimal text of an integer.
pub fn push_decimal(out: &mut String, n: i64)
    ensures
        final(out)@ == old(out)@ + decimal(n as int),
{
    if n < 0 {
        out.push('-');
        let magnitude: u64 = ((-(n + 1)) as u64) + 1;
        push_decimal_nat(out, magnitude);
        assert(out@ =~= old(out)@ + decimal(n as int));
    } else {
        push_decimal_nat(out, n as u64);
    }
}

/// Appends the last `width` decimal digits of a number, with leading zeros.
pub fn push_padded(out: &mut String, n: u64, width: usize)
    ensures
        final(out)@ == old(out)@ + padded(n as nat, width as nat),
    decreases width,
{
    if width == 0 {
        assert(out@ =~= old(out)@ + padded(n as nat, 0));
    } else {
        push_padded(out, n / 10, width - 1);
        let c = digit_of(n % 10);
        out.push(c);
        assert(out@ =~= old(out)@ + padded(n as nat, width as nat));
    }
}

/// Whether every character is a decimal digit.
pub open spec fn all_digits(s: Seq<char>) -> bool {
    forall|i: int| 0 <= i < s.len() ==> is_digit(#[trigger] s[i])
}

/// The number that a sequence of decimal digits writes.
pub open spec fn digits_value(s: Seq<char>) -> nat
    decreases s.len(),
{
    if s.len() == 0 {
        0
    } else {
        (digits_value(s.drop_last()) * 10 + digit_value(s.last())) as nat
    }
}

/// The 64-bit signed integer that a text writes: an optional `+` or `-`, then
/// one or more decimal digits, with a value that the type holds. Any other
/// text writes none.
pub open spec fn parse_i64_spec(s: Seq<char>) -> Option<i64> {
    let negative = s.len() > 0 && s[0] == '-';
    let signed = s.len() > 0 && (s[0] == '-' || s[0] == '+');
    let body = if signed {
        s.subrange(1, s.len() as int)
    } else {
        s
    };
    let value = if negative {
        -(digits_value(body) as int)
    } else {
        digits_value(body) as int
    };
    if body.len() > 0 && all_digits(body) && i64::MIN <= value <= i64::MAX {
        Some(value as i64)
    } else {
        None
    }
}

/// Why a text writes no 64-bit signed integer.
#[derive(Clone, Copy, Debug, PartialEq, Eq, Structural)]
pub enum ParseFailure {
    /// The text is empty.
    Empty,
    /// A character is no digit, or a sign stands alone.
    InvalidDigit,
    /// The number is above the largest that the type holds.
    TooLarge,
    /// The number is below the smallest that the type holds.
    TooSmall,
}

/// The largest magnitude that a number of the given sign may have.
pub open spec fn magnitude_limit(negative: bool) -> int {
    if negative {
        9223372036854775808
    } else {
        9223372036854775807
    }
}

/// Whether reading the digits from the left gets through all of them: each
/// is a digit, and the number read never leaves the type's range.
pub open spec fn readable(body: Seq<char>, negative: bool) -> bool {
    all_digits(body) && digits_value(body) <= magnitude_limit(negative)
}

/// Why reading the digits from the left stops: the failure at the first
/// character that is no digit or takes the number out of range.
pub open spec fn digits_failure(body: Seq<char>, negative: bool) -> ParseFailure
    decreases body.len(),
{
    if body.len() == 0 {
        ParseFailure::InvalidDigit
    } else if !readable(body.drop_last(), negative) {
        digits_failure(body.drop_last(), negative)
    } else if !is_digit(body.last()) {
        ParseFailure::InvalidDigit
    } else if negative {
        ParseFailure::TooSmall
    } else {
        ParseFailure::TooLarge
    }
}

/// Why a text writes no 64-bit signed integer: it is empty, or it is a sign
/// alone, or reading its digits from the left stops early.
pub open spec fn number_failure(s: Seq<char>) -> ParseFailure {
    let negative = s.len() > 0 && s[0] == '-';
    let signed = s.len() > 0 && (s[0] == '-' || s[0] == '+');
    let body = if signed {
        s.subrange(1, s.len() as int)
    } else {
        s
    };
    if s.len() == 0 {
        ParseFailure::Empty
    } else {
        digits_failure(body, negative)
    }
}

/// The 64-bit signed integer that a text writes, or why it writes none.
pub open spec fn number_spec(s: Seq<char>) -> Result<i64, ParseFailure> {
    match parse_i64_spec(s) {
        Some(v) => Ok(v),
        None => Err(number_failure(s)),
    }
}

/// Digits that cannot be read up to some place cannot be read further, and
/// stop for the same reason.
pub proof fn lemma_digits_failure_stays(body: Seq<char>, negative: bool, k: int)
    requires
        0 <= k <= body.len(),
        !readable(body.subrange(0, k), negative),
    ensures
        !readable(body, negative),
        digits_failure(body, negative) == digits_failure(body.subrange(0, k), negative),
    decreases body.len() - k,
{
    if k == body.len() {
        assert(body.subrange(0, k) =~= body);
    } else {
        let shorter = body.subrange(0, k);
        let longer = body.subrange(0, k + 1);
        assert(longer.drop_last() =~= shorter);
        assert(!readable(longer, negative)) by {
            if all_digits(longer) {
                assert forall|j: int| 0 <= j < shorter.len() implies is_digit(
                    #[trigger] shorter[j],
                ) by {
                    assert(shorter[j] == longer[j]);
                }
                assert(is_digit(longer[k]));
            }
        }
        lemma_digits_failure_stays(body, negative, k + 1);
    }
}

/// Reads the text `chars[from..to]` as a 64-bit signed integer, or says why
/// it is none.
#[verifier::loop_isolation(false)]
pub fn parse_number(chars: &Vec<char>, from: usize, to: usize) -> (r: Result<i64, ParseFailure>)
    requires
        from <= to <= chars@.len(),
    ensures
        r == number_spec(chars@.subrange(from as int, to as int)),
{
    let ghost s = chars@.subrange(from as int, to as int);
    if from == to {
        return Err(ParseFailure::Empty);
    }
    assert(s[0] == chars@[from as int]);
    let negative = chars[from] == '-';
    let signed = negative || chars[from] == '+';
    let start: usize = if signed {
        from + 1
    } else {
        from
    };
    let ghost body = chars@.subrange(start as int, to as int);
    assert(body =~= if signed {
        s.subrange(1, s.len() as int)
    } else {
        s
    });
    if start == to {
        return Err(ParseFailure::InvalidDigit);
    }
    let limit: u64 = if negative {
        9223372036854775808u64
    } else {
        9223372036854775807u64
    };
    let mut magnitude: u64 = 0;
    let mut i: usize = start;
    assert(body.subrange(0, 0) =~= Seq::<char>::empty());
    while i < to
        invariant
            start <= i <= to <= chars@.len(),
            body == chars@.subrange(start as int, to as int),
            magnitude == digits_value(body.subrange(0, i - start)),
            magnitude <= limit,
            all_digits(body.subrange(0, i - start)),
        decreases to - i,
    {
        let c = chars[i];
        assert(body[i - start] == c);
        let ghost shorter = body.subrange(0, i - start);
        let ghost longer = body.subrange(0, i + 1 - start);
        proof {
            assert(longer.drop_last() =~= shorter);
            assert(longer.last() == c);
            assert(readable(shorter, negative));
        }
        if c < '0' || c > '9' {
            proof {
                assert(!is_digit(longer[i - start]));
                lemma_digits_failure_stays(body, negative, i + 1 - start);
            }
            return Err(ParseFailure::InvalidDigit);
        }
        let d: u64 = (c as u64) - ('0' as u64);
        assert(d < 10);
        proof {
            assert(digits_value(longer) == magnitude * 10 + d);
            assert forall|j: int| 0 <= j < longer.len() implies is_digit(#[trigger] longer[j]) by {
                if j < i - start {
                    assert(shorter[j] == longer[j]);
                }
            }
        }
        if magnitude > (limit - d) / 10 {
            proof {
                lemma_digits_failure_stays(body, negative, i + 1 - start);
            }
            return Err(
                if negative {
                    ParseFailure::TooSmall
                } else {
                    ParseFailure::TooLarge
                },
            );
        }
        magnitude = magnitude * 10 + d;
        i += 1;
    }
    assert(body.subrange(0, to - start) =~= body);
    if negative {
        if magnitude == 9223372036854775808u64 {
            Ok(i64::MIN)
        } else {
            Ok(-(magnitude as i64))
        }
    } else {
        Ok(magnitude as i64)
    }
}

/// Reads the text `chars[from..to]` as a 64-bit signed integer.
pub fn parse_i64(chars: &Vec<char>, from: usize, to: usize) -> (r: Option<i64>)
    requires
        from <= to <= chars@.len(),
    ensures
        r == parse_i64_spec(chars@.subrange(from as int, to as int)),
{
    match parse_number(chars, from, to) {
        Ok(v) => Some(v),
        Err(_) => None,
    }
}

/// Whether a character is white space.
pub open spec fn is_blank(c: char) -> bool {
    let code = c as u32;
    ||| 0x09 <= code <= 0x0d
    ||| code == 0x20
    ||| code == 0x85
    ||| code == 0xa0
    ||| code == 0x1680
    ||| 0x2000 <= code <= 0x200a
    ||| code == 0x2028
    ||| code == 0x2029
    ||| code == 0x202f
    ||| code == 0x205f
    ||| code == 0x3000
}

fn blank(c: char) -> (r: bool)
    ensures
        r == is_blank(c),
{
    let code: u32 = c as u32;
    (0x09 <= code && code <= 0x0d) || code == 0x20 || code == 0x85 || code == 0xa0 || code
        == 0x1680 || (0x2000 <= code && code <= 0x200a) || code == 0x2028 || code == 0x2029
        || code == 0x202f || code == 0x205f || code == 0x3000
}

/// The number of blanks at the start of a text.
pub open spec fn leading_blanks(s: Seq<char>) -> nat
    decreases s.len(),
{
    if s.len() > 0 && is_blank(s[0]) {
        1 + leading_blanks(s.drop_first())
    } else {
        0
    }
}

/// The number of blanks at the end of a text.
pub open spec fn trailing_blanks(s: Seq<char>) -> nat
    decreases s.len(),
{
    if s.len() > 0 && is_blank(s.last()) {
        1 + trailing_blanks(s.drop_last())
    } else {
        0
    }
}

/// A text without the blanks at its start.
pub open spec fn trimmed_start(s: Seq<char>) -> Seq<char> {
    s.subrange(leading_blanks(s) as int, s.len() as int)
}

/// A text without the blanks at its start and at its end.
pub open spec fn trimmed(s: Seq<char>) -> Seq<char> {
    let rest = trimmed_start(s);
    rest.subrange(0, rest.len() - trailing_blanks(rest))
}

/// A run of blanks at the start that ends before a character that is none is
/// all of the leading blanks.
pub proof fn lemma_leading_blanks_is(s: Seq<char>, k: int)
    requires
        0 <= k <= s.len(),
        forall|i: int| 0 <= i < k ==> is_blank(#[trigger] s[i]),
        k < s.len() ==> !is_blank(s[k]),
    ensures
        leading_blanks(s) == k,
    decreases s.len(),
{
    if k > 0 {
        let rest = s.drop_first();
        assert(is_blank(s[0]));
        assert forall|i: int| 0 <= i < k - 1 implies is_blank(#[trigger] rest[i]) by {
            assert(rest[i] == s[i + 1]);
        }
        lemma_leading_blanks_is(rest, k - 1);
    }
}

/// A run of blanks at the end that starts after a character that is none is
/// all of the trailing blanks.
pub proof fn lemma_trailing_blanks_is(s: Seq<char>, k: int)
    requires
        0 <= k <= s.len(),
        forall|i: int| s.len() - k <= i < s.len() ==> is_blank(#[trigger] s[i]),
        k < s.len() ==> !is_blank(s[s.len() - k - 1]),
    ensures
        trailing_blanks(s) == k,
    decreases s.len(),
{
    if k > 0 {
        let rest = s.drop_last();
        assert(is_blank(s[s.len() - 1]));
        assert forall|i: int| rest.len() - (k - 1) <= i < rest.len() implies is_blank(
            #[trigger] rest[i],
        ) by {
            assert(rest[i] == s[i]);
        }
        lemma_trailing_blanks_is(rest, k - 1);
    }
}

/// The bounds of `chars[from..to]` without the blanks at its two ends.
pub fn trim_bounds(chars: &Vec<char>, from: usize, to: usize) -> (r: (usize, usize))
    requires
        from <= to <= chars@.len(),
    ensures
        from <= r.0 <= r.1 <= to,
        r.0 == from + leading_blanks(chars@.subrange(from as int, to as int)),
        r.1 == to - trailing_blanks(trimmed_start(chars@.subrange(from as int, to as int))),
        chars@.subrange(r.0 as int, r.1 as int) == trimmed(chars@.subrange(from as int, to as int)),
{
    let ghost s = chars@.subrange(from as int, to as int);
    let mut a: usize = from;
    while a < to && blank(chars[a])
        invariant
            from <= a <= to <= chars@.len(),
            forall|i: int| from <= i < a ==> is_blank(#[trigger] chars@[i]),
        decreases to - a,
    {
        a += 1;
    }
    proof {
        assert forall|i: int| 0 <= i < a - from implies is_blank(#[trigger] s[i]) by {
            assert(s[i] == chars@[from + i]);
        }
        lemma_leading_blanks_is(s, a - from);
    }
    let ghost rest = chars@.subrange(a as int, to as int);
    assert(rest =~= trimmed_start(s));
    let mut b: usize = to;
    while b > a && blank(chars[b - 1])
        invariant
            a <= b <= to <= chars@.len(),
            forall|i: int| b <= i < to ==> is_blank(#[trigger] chars@[i]),
        decreases b,
    {
        b -= 1;
    }
    proof {
        assert forall|i: int| rest.len() - (to - b) <= i < rest.len() implies is_blank(
            #[trigger] rest[i],
        ) by {
            assert(rest[i] == chars@[a + i]);
        }
        lemma_trailing_blanks_is(rest, to - b);
        assert(chars@.subrange(a as int, b as int) =~= rest.subrange(0, rest.len() - (to - b)));
    }
    (a, b)
}

/// The index of the first occurrence of a character, if it occurs.
pub open spec fn first_index(s: Seq<char>, c: char) -> Option<int>
    decreases s.len(),
{
    if s.len() == 0 {
        None
    } else if s[0] == c {
        Some(0)
    } else {
        match first_index(s.drop_first(), c) {
            Some(i) => Some(i + 1),
            None => None,
        }
    }
}

/// The index of the last occurrence of a character, if it occurs.
pub open spec fn last_index(s: Seq<char>, c: char) -> Option<int>
    decreases s.len(),
{
    if s.len() == 0 {
        None
    } else if s.last() == c {
        Some(s.len() - 1)
    } else {
        last_index(s.drop_last(), c)
    }
}

/// An occurrence with none before it is the first.
pub proof fn lemma_first_index_is(s: Seq<char>, c: char, k: int)
    requires
        0 <= k <= s.len(),
        forall|i: int| 0 <= i < k ==> #[trigger] s[i] != c,
        k < s.len() ==> s[k] == c,
    ensures
        first_index(s, c) == if k < s.len() {
            Some(k)
        } else {
            None
        },
    decreases s.len(),
{
    if s.len() > 0 && k > 0 {
        let rest = s.drop_first();
        assert(s[0] != c);
        assert forall|i: int| 0 <= i < k - 1 implies #[trigger] rest[i] != c by {
            assert(rest[i] == s[i + 1]);
        }
        lemma_first_index_is(rest, c, k - 1);
    }
}

/// An occurrence with none after it is the last.
pub proof fn lemma_last_index_is(s: Seq<char>, c: char, k: int)
    requires
        -1 <= k < s.len(),
        forall|i: int| k < i < s.len() ==> #[trigger] s[i] != c,
        0 <= k ==> s[k] == c,
    ensures
        last_index(s, c) == if 0 <= k {
            Some(k)
        } else {
            None
        },
    decreases s.len(),
{
    if s.len() > 0 && k < s.len() - 1 {
        let rest = s.drop_last();
        assert(s[s.len() - 1] != c);
        assert forall|i: int| k < i < rest.len() implies #[trigger] rest[i] != c by {
            assert(rest[i] == s[i]);
        }
        lemma_last_index_is(rest, c, k);
    }
}

/// Finds the first occurrence of a character in `chars[from..to]`, as an
/// index into `chars`.
pub fn find_first(chars: &Vec<char>, c: char, from: usize, to: usize) -> (r: Option<usize>)
    requires
        from <= to <= chars@.len(),
    ensures
        match first_index(chars@.subrange(from as int, to as int), c) {
            Some(i) => 0 <= i && from + i < to && r == Some((from + i) as usize),
            None => r is None,
        },
{
    let ghost s = chars@.subrange(from as int, to as int);
    let mut i: usize = from;
    while i < to
        invariant
            from <= i <= to <= chars@.len(),
            s == chars@.subrange(from as int, to as int),
            forall|j: int| 0 <= j < i - from ==> #[trigger] s[j] != c,
        decreases to - i,
    {
        if chars[i] == c {
            proof {
                assert(s[i - from] == c);
                lemma_first_index_is(s, c, i - from);
            }
            return Some(i);
        }
        assert(s[i - from] != c);
        i += 1;
    }
    proof {
        lemma_first_index_is(s, c, s.len() as int);
    }
    None
}

/// Finds the last occurrence of a character in `chars[from..to]`, as an index
/// into `chars`.
pub fn find_last(chars: &Vec<char>, c: char, from: usize, to: usize) -> (r: Option<usize>)
    requires
        from <= to <= chars@.len(),
    ensures
        match last_index(chars@.subrange(from as int, to as int), c) {
            Some(i) => 0 <= i && from + i < to && r == Some((from + i) as usize),
            None => r is None,
        },
{
    let ghost s = chars@.subrange(from as int, to as int);
    let mut i: usize = to;
    while i > from
        invariant
            from <= i <= to <= chars@.len(),
            s == chars@.subrange(from as int, to as int),
            forall|j: int| i - from <= j < s.len() ==> #[trigger] s[j] != c,
        decreases i,
    {
        i -= 1;
        if chars[i] == c {
            proof {
                assert(s[i - from] == c);
                lemma_last_index_is(s, c, i - from);
            }
            return Some(i);
        }
        assert(s[i - from] != c);
    }
    proof {
        lemma_last_index_is(s, c, -1);
    }
    None
}

} // verus!
