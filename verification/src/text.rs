//! Text helpers: decimal rendering and parsing of integers.

use vstd::prelude::*;
use vstd::string::StrSliceExecFns;
use vstd::string::StringExecFns;

verus! {

/// Appends one character to a string.
///
/// Trusted: `String::push`, documented to append the character at the end.
#[verifier::external_body]
pub(crate) fn push_char(s: &mut String, c: char)
    ensures
        final(s)@ == old(s)@.push(c),
{
    s.push(c);
}

/// The character of a decimal digit `0 <= d < 10`.
pub open spec fn digit_char(d: int) -> char {
    (('0' as int) + d) as char
}

/// Whether `c` is an ASCII decimal digit.
pub open spec fn is_digit(c: char) -> bool {
    '0' <= c && c <= '9'
}

/// The value of an ASCII decimal digit.
pub open spec fn digit_value(c: char) -> int {
    (c as int) - ('0' as int)
}

/// The shortest decimal representation of `n`, without sign.
pub open spec fn decimal_digits(n: nat) -> Seq<char>
    decreases n,
{
    if n < 10 {
        seq![digit_char(n as int)]
    } else {
        decimal_digits(n / 10).push(digit_char((n % 10) as int))
    }
}

/// The decimal representation of an integer, with a leading `-` when negative.
pub open spec fn int_text(n: int) -> Seq<char> {
    if n < 0 {
        seq!['-'] + decimal_digits((-n) as nat)
    } else {
        decimal_digits(n as nat)
    }
}

/// Appends the decimal digits of `n` to `s`.
pub fn push_decimal(s: &mut String, n: u64)
    ensures
        final(s)@ == old(s)@ + decimal_digits(n as nat),
    decreases n,
{
    if n < 10 {
        let c = digit_to_char(n);
        push_char(s, c);
        assert(decimal_digits(n as nat) == seq![digit_char(n as int)]);
    } else {
        push_decimal(s, n / 10);
        let c = digit_to_char(n % 10);
        push_char(s, c);
    }
}

fn digit_to_char(d: u64) -> (c: char)
    requires
        d < 10,
    ensures
        c == digit_char(d as int),
{
    let b: u8 = 48u8 + (d as u8);
    b as char
}

/// The decimal text of an unsigned integer, as `u64::to_string` renders it.
pub fn format_u64(n: u64) -> (res: String)
    ensures
        res@ == decimal_digits(n as nat),
{
    let mut s = String::new();
    push_decimal(&mut s, n);
    assert(s@ =~= decimal_digits(n as nat));
    s
}

/// The decimal text of a signed integer, as `i64::to_string` renders it.
pub fn format_i64(n: i64) -> (res: String)
    ensures
        res@ == int_text(n as int),
{
    let mut s = String::new();
    if n < 0 {
        push_char(&mut s, '-');
        let wide: i128 = n as i128;
        let mag: u64 = (0i128 - wide) as u64;
        push_decimal(&mut s, mag);
        assert(s@ =~= int_text(n as int));
    } else {
        push_decimal(&mut s, n as u64);
        assert(s@ =~= int_text(n as int));
    }
    s
}


/// The characters of a string slice, in order.
pub fn chars_of(s: &str) -> (res: Vec<char>)
    ensures
        res@ == s@,
{
    let n = s.unicode_len();
    let mut v: Vec<char> = Vec::new();
    let mut i: usize = 0;
    while i < n
        invariant
            i <= n,
            n == s@.len(),
            v@ == s@.take(i as int),
        decreases n - i,
    {
        let c = s.get_char(i);
        v.push(c);
        assert(v@ =~= s@.take(i + 1));
        i = i + 1;
    }
    assert(v@ =~= s@);
    v
}

/// Length of the longest prefix of `s` made of decimal digits.
pub open spec fn leading_digits(s: Seq<char>) -> nat
    decreases s.len(),
{
    if s.len() == 0 || !is_digit(s[0]) {
        0
    } else {
        1 + leading_digits(s.drop_first())
    }
}

/// The value of a string of decimal digits.
pub open spec fn digits_value(s: Seq<char>) -> int
    decreases s.len(),
{
    if s.len() == 0 {
        0
    } else {
        digits_value(s.drop_last()) * 10 + digit_value(s.last())
    }
}

/// Why a string is not the decimal text of an integer of a given range.
#[derive(Debug, Clone, Copy, PartialEq, Eq, Structural)]
pub enum IntErrorKind {
    /// The text is empty.
    Empty,
    /// The text holds a character that is not a digit where a digit is due.
    InvalidDigit,
    /// The value is above the largest value of the range.
    PosOverflow,
    /// The value is below the smallest value of the range.
    NegOverflow,
}

/// What parsing `s` as an integer of the range `min..=max` gives: an optional
/// `+` (or `-` when the range holds negative numbers), then decimal digits.
/// The digits are read from the left; reading stops at the first character
/// that is not a digit, and a value that already leaves the range there is
/// reported as an overflow before the stray character is.
pub open spec fn parse_integer_spec(s: Seq<char>, min: int, max: int) -> Result<int, IntErrorKind> {
    if s.len() == 0 {
        Err(IntErrorKind::Empty)
    } else if s.len() == 1 && (s[0] == '+' || s[0] == '-') {
        Err(IntErrorKind::InvalidDigit)
    } else {
        let negative = min < 0 && s[0] == '-';
        let body = if s[0] == '+' || negative {
            s.drop_first()
        } else {
            s
        };
        let k = leading_digits(body);
        let v = digits_value(body.take(k as int));
        if !negative && v > max {
            Err(IntErrorKind::PosOverflow)
        } else if negative && -v < min {
            Err(IntErrorKind::NegOverflow)
        } else if k < body.len() {
            Err(IntErrorKind::InvalidDigit)
        } else if negative {
            Ok(-v)
        } else {
            Ok(v)
        }
    }
}

proof fn lemma_leading_digits(s: Seq<char>, i: int)
    requires
        0 <= i <= s.len(),
        forall|j: int| 0 <= j < i ==> is_digit(#[trigger] s[j]),
    ensures
        leading_digits(s) >= i,
        leading_digits(s) <= s.len(),
        i < s.len() && !is_digit(s[i]) ==> leading_digits(s) == i,
        i == s.len() ==> leading_digits(s) == s.len(),
    decreases i,
{
    lemma_leading_digits_bound(s);
    if i > 0 {
        let t = s.drop_first();
        assert forall|j: int| 0 <= j < i - 1 implies is_digit(#[trigger] t[j]) by {
            assert(t[j] == s[j + 1]);
        }
        lemma_leading_digits(t, i - 1);
        if i < s.len() {
            assert(t[i - 1] == s[i]);
        }
    }
}

proof fn lemma_leading_digits_bound(s: Seq<char>)
    ensures
        leading_digits(s) <= s.len(),
        forall|k: int| 0 <= k < leading_digits(s) ==> is_digit(#[trigger] s[k]),
    decreases s.len(),
{
    if s.len() > 0 && is_digit(s[0]) {
        let t = s.drop_first();
        lemma_leading_digits_bound(t);
        assert forall|k: int| 0 <= k < leading_digits(s) implies is_digit(#[trigger] s[k]) by {
            if k > 0 {
                assert(s[k] == t[k - 1]);
            }
        }
    }
}

proof fn lemma_digits_step(s: Seq<char>, i: int)
    requires
        0 <= i < s.len(),
    ensures
        digits_value(s.take(i + 1)) == digits_value(s.take(i)) * 10 + digit_value(s[i]),
{
    assert(s.take(i + 1).drop_last() =~= s.take(i));
}

proof fn lemma_digits_nonneg(s: Seq<char>)
    requires
        forall|j: int| 0 <= j < s.len() ==> is_digit(#[trigger] s[j]),
    ensures
        digits_value(s) >= 0,
    decreases s.len(),
{
    if s.len() > 0 {
        let t = s.drop_last();
        assert forall|j: int| 0 <= j < t.len() implies is_digit(#[trigger] t[j]) by {
            assert(t[j] == s[j]);
        }
        lemma_digits_nonneg(t);
    }
}

proof fn lemma_digits_monotone(s: Seq<char>, i: int, j: int)
    requires
        0 <= i <= j <= s.len(),
        forall|k: int| 0 <= k < j ==> is_digit(#[trigger] s[k]),
    ensures
        digits_value(s.take(i)) <= digits_value(s.take(j)),
    decreases j - i,
{
    if i < j {
        lemma_digits_monotone(s, i, j - 1);
        lemma_digits_step(s, j - 1);
        let p = s.take(j - 1);
        assert forall|k: int| 0 <= k < p.len() implies is_digit(#[trigger] p[k]) by {
            assert(p[k] == s[k]);
        }
        lemma_digits_nonneg(p);
        assert(is_digit(s[j - 1]));
    }
}

/// Parses `s` as an integer of the range `min..=max`, as the standard
/// library's `FromStr` for integers does.
pub fn parse_integer(s: &Vec<char>, min: i128, max: i128) -> (res: Result<i128, IntErrorKind>)
    requires
        -0x1_0000_0000_0000_0000 <= min <= 0,
        0 <= max <= 0x1_0000_0000_0000_0000,
    ensures
        match parse_integer_spec(s@, min as int, max as int) {
            Ok(v) => res == Ok::<i128, IntErrorKind>(v as i128),
            Err(e) => res == Err::<i128, IntErrorKind>(e),
        },
{
    let n = s.len();
    if n == 0 {
        return Err(IntErrorKind::Empty);
    }
    let first = s[0];
    if n == 1 && (first == '+' || first == '-') {
        return Err(IntErrorKind::InvalidDigit);
    }
    let negative = min < 0 && first == '-';
    let start: usize = if first == '+' || negative { 1 } else { 0 };
    let limit: u128 = if negative { (0i128 - min) as u128 } else { max as u128 };
    let ghost body = if first == '+' || negative { s@.drop_first() } else { s@ };
    assert(body =~= s@.subrange(start as int, n as int));
    let mut acc: u128 = 0;
    let mut i: usize = start;
    while i < n
        invariant
            start <= i <= n,
            n == s@.len(),
            n > 0,
            !(n == 1 && (s@[0] == '+' || s@[0] == '-')),
            negative == (min < 0 && s@[0] == '-'),
            body == (if s@[0] == '+' || negative { s@.drop_first() } else { s@ }),
            limit == (if negative { -min } else { max as int }),
            -0x1_0000_0000_0000_0000 <= min <= 0,
            0 <= max <= 0x1_0000_0000_0000_0000,
            body == s@.subrange(start as int, n as int),
            limit <= 0x1_0000_0000_0000_0000,
            acc <= limit,
            acc as int == digits_value(body.take(i - start)),
            forall|j: int| 0 <= j < i - start ==> is_digit(#[trigger] body[j]),
        decreases n - i,
    {
        let c = s[i];
        assert(body[i - start] == c);
        if !('0' <= c && c <= '9') {
            proof {
                lemma_leading_digits(body, i - start);
                assert(leading_digits(body) == i - start);
                assert(!(digits_value(body.take(i - start)) > limit));
                assert(i - start < body.len());
            }
            return Err(IntErrorKind::InvalidDigit);
        }
        let d: u128 = ((c as u32) - 48u32) as u128;
        let next: u128 = acc * 10 + d;
        proof {
            lemma_digits_step(body, i - start);
        }
        if next > limit {
            proof {
                lemma_leading_digits(body, i - start + 1);
                lemma_leading_digits_bound(body);
                lemma_digits_monotone(body, i - start + 1, leading_digits(body) as int);
            }
            if negative {
                return Err(IntErrorKind::NegOverflow);
            } else {
                return Err(IntErrorKind::PosOverflow);
            }
        }
        acc = next;
        i = i + 1;
    }
    proof {
        lemma_leading_digits(body, body.len() as int);
        assert(body.take(body.len() as int) =~= body);
    }
    if negative {
        Ok(0i128 - (acc as i128))
    } else {
        Ok(acc as i128)
    }
}


proof fn lemma_digit_char_value(d: int)
    requires
        0 <= d < 10,
    ensures
        digit_value(digit_char(d)) == d,
        is_digit(digit_char(d)),
{
    assert((((48 + d) as char) as int) == 48 + d);
}

/// The digits of `decimal_digits(n)` are decimal digits and denote `n`.
pub proof fn lemma_decimal_digits(n: nat)
    ensures
        decimal_digits(n).len() >= 1,
        forall|j: int| 0 <= j < decimal_digits(n).len() ==> is_digit(#[trigger] decimal_digits(n)[j]),
        digits_value(decimal_digits(n)) == n,
    decreases n,
{
    lemma_digit_char_value((n % 10) as int);
    if n < 10 {
        let q = seq![digit_char(n as int)];
        assert(q.drop_last() =~= Seq::<char>::empty());
        assert(digits_value(q) == digits_value(q.drop_last()) * 10 + digit_value(q.last()));
        assert(n % 10 == n);
    }
    if n >= 10 {
        lemma_decimal_digits(n / 10);
        let p = decimal_digits(n / 10);
        let q = p.push(digit_char((n % 10) as int));
        assert(q.drop_last() =~= p);
        assert(q.last() == digit_char((n % 10) as int));
        assert(digits_value(q) == digits_value(p) * 10 + digit_value(q.last()));
        assert(decimal_digits(n) == q);
        assert((n / 10) * 10 + n % 10 == n);
        assert forall|j: int| 0 <= j < q.len() implies is_digit(#[trigger] q[j]) by {
            if j < p.len() {
                assert(q[j] == p[j]);
            }
        }
    }
}

/// Reading back the decimal text of a value of the range gives the value.
pub proof fn lemma_parse_int_text(v: int, min: int, max: int)
    requires
        min <= 0 <= max,
        min <= v <= max,
    ensures
        parse_integer_spec(int_text(v), min, max) == Ok::<int, IntErrorKind>(v),
{
    let s = int_text(v);
    if v < 0 {
        let d = decimal_digits((-v) as nat);
        lemma_decimal_digits((-v) as nat);
        assert(s.drop_first() =~= d);
        lemma_leading_digits(d, d.len() as int);
        assert(d.take(d.len() as int) =~= d);
    } else {
        let d = decimal_digits(v as nat);
        lemma_decimal_digits(v as nat);
        assert(is_digit(s[0]));
        lemma_leading_digits(d, d.len() as int);
        assert(d.take(d.len() as int) =~= d);
    }
}


/// A successful parse of the range `min..=max` gives a value of the range.
pub proof fn lemma_parse_in_range(s: Seq<char>, min: int, max: int)
    requires
        min <= 0 <= max,
    ensures
        parse_integer_spec(s, min, max) matches Ok(v) ==> min <= v <= max,
{
    if s.len() > 0 && !(s.len() == 1 && (s[0] == '+' || s[0] == '-')) {
        let negative = min < 0 && s[0] == '-';
        let body = if s[0] == '+' || negative { s.drop_first() } else { s };
        let k = leading_digits(body);
        lemma_leading_digits_bound(body);
        let p = body.take(k as int);
        assert forall|j: int| 0 <= j < p.len() implies is_digit(#[trigger] p[j]) by {
            assert(p[j] == body[j]);
        }
        lemma_digits_nonneg(p);
    }
}


/// Whether two byte slices are equal.
pub fn bytes_eq(a: &[u8], b: &[u8]) -> (res: bool)
    ensures
        res == (a@ == b@),
{
    if a.len() != b.len() {
        return false;
    }
    let mut i: usize = 0;
    while i < a.len()
        invariant
            i <= a@.len(),
            a@.len() == b@.len(),
            forall|j: int| 0 <= j < i ==> a@[j] == b@[j],
        decreases a@.len() - i,
    {
        if a[i] != b[i] {
            return false;
        }
        i = i + 1;
    }
    assert(a@ =~= b@);
    true
}

/// Whether two character sequences are equal.
pub fn chars_eq(a: &Vec<char>, b: &Vec<char>) -> (res: bool)
    ensures
        res == (a@ == b@),
{
    if a.len() != b.len() {
        return false;
    }
    let mut i: usize = 0;
    while i < a.len()
        invariant
            i <= a@.len(),
            a@.len() == b@.len(),
            forall|j: int| 0 <= j < i ==> a@[j] == b@[j],
        decreases a@.len() - i,
    {
        if a[i] != b[i] {
            return false;
        }
        i = i + 1;
    }
    assert(a@ =~= b@);
    true
}

/// Whether two strings are equal.
pub fn str_eq(a: &str, b: &str) -> (res: bool)
    ensures
        res == (a@ == b@),
{
    let x = chars_of(a);
    let y = chars_of(b);
    chars_eq(&x, &y)
}

/// Appends a string slice to a string.
pub fn push_str(s: &mut String, t: &str)
    ensures
        final(s)@ == old(s)@ + t@,
{
    s.append(t);
}

/// The concatenation of two string slices.
pub fn concat(a: &str, b: &str) -> (res: String)
    ensures
        res@ == a@ + b@,
{
    let mut s = a.to_owned();
    push_str(&mut s, b);
    s
}


/// The string made of the characters `v[from..to]`.
pub fn string_from_chars(v: &Vec<char>, from: usize, to: usize) -> (res: String)
    requires
        from <= to <= v@.len(),
    ensures
        res@ == v@.subrange(from as int, to as int),
{
    let mut s = String::new();
    let mut i = from;
    while i < to
        invariant
            from <= i <= to <= v@.len(),
            s@ == v@.subrange(from as int, i as int),
        decreases to - i,
    {
        push_char(&mut s, v[i]);
        assert(s@ =~= v@.subrange(from as int, i + 1));
        i = i + 1;
    }
    s
}

/// `Some(rest)` when `s` starts with `prefix` and `rest` follows it.
pub open spec fn strip_prefix_spec(s: Seq<char>, prefix: Seq<char>) -> Option<Seq<char>> {
    if prefix.len() <= s.len() && s.take(prefix.len() as int) == prefix {
        Some(s.skip(prefix.len() as int))
    } else {
        None
    }
}

/// Removes a prefix, as `str::strip_prefix` does.
pub fn strip_prefix(s: &str, prefix: &str) -> (res: Option<String>)
    ensures
        match strip_prefix_spec(s@, prefix@) {
            Some(r) => res matches Some(x) && x@ == r,
            None => res is None,
        },
{
    let a = chars_of(s);
    let p = chars_of(prefix);
    if p.len() > a.len() {
        return None;
    }
    let mut i: usize = 0;
    while i < p.len()
        invariant
            a@ == s@,
            p@ == prefix@,
            p@.len() <= a@.len(),
            i <= p@.len(),
            forall|j: int| 0 <= j < i ==> a@[j] == p@[j],
        decreases p@.len() - i,
    {
        if a[i] != p[i] {
            assert(a@.take(p@.len() as int)[i as int] != p@[i as int]);
            return None;
        }
        i = i + 1;
    }
    assert(a@.take(p@.len() as int) =~= p@);
    let rest = string_from_chars(&a, p.len(), a.len());
    assert(rest@ =~= a@.skip(p@.len() as int));
    Some(rest)
}

/// The index of the last occurrence of `c` in `s`, or `-1`.
pub open spec fn last_index_of(s: Seq<char>, c: char) -> int
    decreases s.len(),
{
    if s.len() == 0 {
        -1
    } else if s.last() == c {
        s.len() - 1
    } else {
        last_index_of(s.drop_last(), c)
    }
}

/// Splits at the last occurrence of `c`, as `str::rsplit_once` does.
pub open spec fn rsplit_once_spec(s: Seq<char>, c: char) -> Option<(Seq<char>, Seq<char>)> {
    let i = last_index_of(s, c);
    if i < 0 {
        None
    } else {
        Some((s.take(i), s.skip(i + 1)))
    }
}

proof fn lemma_last_index_of(s: Seq<char>, c: char, i: int)
    requires
        0 <= i <= s.len(),
        forall|j: int| i <= j < s.len() ==> s[j] != c,
    ensures
        last_index_of(s, c) == last_index_of(s.take(i), c),
    decreases s.len() - i,
{
    if i < s.len() {
        lemma_last_index_of(s.drop_last(), c, i);
        assert(s.drop_last().take(i) =~= s.take(i));
    } else {
        assert(s.take(i) =~= s);
    }
}

/// Splits a string at the last occurrence of a character.
pub fn rsplit_once(s: &str, c: char) -> (res: Option<(String, String)>)
    ensures
        match rsplit_once_spec(s@, c) {
            Some((a, b)) => res matches Some(r) && r.0@ == a && r.1@ == b,
            None => res is None,
        },
{
    let v = chars_of(s);
    let mut i: usize = v.len();
    while i > 0
        invariant
            i <= v@.len(),
            v@ == s@,
            forall|j: int| i <= j < v@.len() ==> v@[j] != c,
        decreases i,
    {
        if v[i - 1] == c {
            proof {
                lemma_last_index_of(v@, c, i as int);
                assert(v@.take(i as int).last() == c);
            }
            let a = string_from_chars(&v, 0, i - 1);
            let b = string_from_chars(&v, i, v.len());
            assert(a@ =~= v@.take(i - 1));
            assert(b@ =~= v@.skip(i as int));
            return Some((a, b));
        }
        i = i - 1;
    }
    proof {
        lemma_last_index_of(v@, c, 0);
    }
    None
}

/// The lower-case hexadecimal digit of `0 <= n < 16`.
pub open spec fn hex_digit(n: int) -> char {
    if n < 10 {
        (48 + n) as char
    } else {
        (87 + n) as char
    }
}

/// The lower-case hexadecimal text of bytes, two digits per byte.
pub open spec fn hex_lower(bytes: Seq<u8>) -> Seq<char>
    decreases bytes.len(),
{
    if bytes.len() == 0 {
        Seq::empty()
    } else {
        hex_lower(bytes.drop_last()) + seq![hex_digit((bytes.last() / 16) as int), hex_digit((bytes.last() % 16) as int)]
    }
}

/// Whether `hi` and `lo` are the lower-case hexadecimal digits of `b`, the
/// high half first.
pub open spec fn hex_pair(b: u8, hi: char, lo: char) -> bool {
    &&& ('0' <= hi <= '9' || 'a' <= hi <= 'f')
    &&& ('0' <= lo <= '9' || 'a' <= lo <= 'f')
    &&& b == hex_value(hi) * 16 + hex_value(lo)
}

/// Lower-case hexadecimal: each byte is written as two digits, the high
/// half first, each digit `0`-`9` or `a`-`f`, and the digits read back
/// give the byte.
pub proof fn law_hex_lower(bytes: Seq<u8>)
    ensures
        hex_lower(bytes).len() == 2 * bytes.len(),
        forall|i: int| 0 <= i < bytes.len() ==> hex_pair(#[trigger] bytes[i], hex_lower(bytes)[2 * i], hex_lower(bytes)[2 * i + 1]),
    decreases bytes.len(),
{
    if bytes.len() > 0 {
        let rest = bytes.drop_last();
        law_hex_lower(rest);
        let h = hex_lower(bytes);
        let b = bytes.last();
        assert(h == hex_lower(rest) + seq![hex_digit((b / 16) as int), hex_digit((b % 16) as int)]);
        lemma_hex_digit((b / 16) as int);
        lemma_hex_digit((b % 16) as int);
        assert forall|i: int| 0 <= i < bytes.len() implies hex_pair(#[trigger] bytes[i], h[2 * i], h[2 * i + 1]) by {
            if i < bytes.len() - 1 {
                assert(h[2 * i] == hex_lower(rest)[2 * i]);
                assert(h[2 * i + 1] == hex_lower(rest)[2 * i + 1]);
                assert(bytes[i] == rest[i]);
            } else {
                assert(h[2 * i] == hex_digit((b / 16) as int));
                assert(h[2 * i + 1] == hex_digit((b % 16) as int));
            }
        }
    }
}

/// The value of a hexadecimal digit.
pub open spec fn hex_value(c: char) -> int {
    if '0' <= c <= '9' {
        c as int - 48
    } else {
        c as int - 87
    }
}

proof fn lemma_hex_digit(n: int)
    requires
        0 <= n < 16,
    ensures
        '0' <= hex_digit(n) <= '9' || 'a' <= hex_digit(n) <= 'f',
        hex_value(hex_digit(n)) == n,
{
}

fn hex_char(n: u8) -> (c: char)
    requires
        n < 16,
    ensures
        c == hex_digit(n as int),
{
    if n < 10 {
        (48u8 + n) as char
    } else {
        (87u8 + n) as char
    }
}

/// Writes bytes as lower-case hexadecimal text, as `{:x}` renders a digest.
pub fn to_hex_lower(bytes: &[u8]) -> (res: String)
    ensures
        res@ == hex_lower(bytes@),
{
    let mut s = String::new();
    let mut i: usize = 0;
    while i < bytes.len()
        invariant
            i <= bytes@.len(),
            s@ == hex_lower(bytes@.take(i as int)),
        decreases bytes@.len() - i,
    {
        let b = bytes[i];
        push_char(&mut s, hex_char(b / 16));
        push_char(&mut s, hex_char(b % 16));
        assert(bytes@.take(i + 1).drop_last() =~= bytes@.take(i as int));
        assert(s@ =~= hex_lower(bytes@.take(i + 1)));
        i = i + 1;
    }
    assert(bytes@.take(bytes@.len() as int) =~= bytes@);
    s
}

/// The text `String::from_utf8_lossy` decodes from `bytes`.
pub uninterp spec fn utf8_lossy_text(bytes: Seq<u8>) -> Seq<char>;

/// Decodes bytes as UTF-8 with `String::from_utf8_lossy`. The contract
/// says that the text depends on the bytes alone, and states the documented
/// behaviour on valid UTF-8, where the text is decoded as it is; on other
/// input the replacement characters it puts in are not stated.
#[verifier::external_body]
pub(crate) fn utf8_lossy(bytes: &[u8]) -> (res: String)
    ensures
        res@ == utf8_lossy_text(bytes@),
        vstd::utf8::valid_utf8(bytes@) ==> res@ == vstd::utf8::decode_utf8(bytes@),
{
    String::from_utf8_lossy(bytes).to_string()
}

} // verus!
