//! Text building blocks: comparison, decimal and hexadecimal notation, trimming, searching.

use vstd::prelude::*;
use vstd::string::*;
use vstd::utf8::{encode_utf8, encode_utf8_decode_utf8, is_ascii_chars};

verus! {

/// `String::push` appends one character to the end of the string.
pub assume_specification[ String::push ](s: &mut String, c: char)
    ensures
        final(s)@ == old(s)@.push(c),
;

// ---- results ----

/// What a fallible step comes to: a value, or the text of its error.
pub type Outcome<T> = Result<T, Seq<char>>;

/// The outcome of a step that gives bytes.
pub open spec fn bytes_outcome(r: Result<Vec<u8>, String>) -> Outcome<Seq<u8>> {
    match r {
        Ok(b) => Ok(b@),
        Err(e) => Err(e@),
    }
}

/// The outcome of a step that gives a text.
pub open spec fn text_outcome(r: Result<String, String>) -> Outcome<Seq<char>> {
    match r {
        Ok(s) => Ok(s@),
        Err(e) => Err(e@),
    }
}

/// The outcome of a step that only succeeds or fails.
pub open spec fn unit_outcome(r: Result<(), String>) -> Outcome<()> {
    match r {
        Ok(()) => Ok(()),
        Err(e) => Err(e@),
    }
}

/// The text behind an optional string.
pub open spec fn opt_text(s: Option<String>) -> Option<Seq<char>> {
    match s {
        Some(t) => Some(t@),
        None => None,
    }
}

/// The text behind an optional string slice.
pub open spec fn opt_str(s: Option<&str>) -> Option<Seq<char>> {
    match s {
        Some(t) => Some(t@),
        None => None,
    }
}

// ---- characters and comparison ----

/// The characters of `s`, in order.
pub fn chars_of(s: &str) -> (r: Vec<char>)
    ensures
        r@ == s@,
{
    let mut v: Vec<char> = Vec::new();
    for c in it: s.chars()
        invariant
            it.seq() == s@,
            v@ == s@.take(it.index()),
    {
        v.push(c);
    }
    v
}

/// The string made of `chars`.
pub fn string_of(chars: &[char]) -> (r: String)
    ensures
        r@ == chars@,
{
    let mut s: String = String::new();
    let mut i: usize = 0;
    while i < chars.len()
        invariant
            i <= chars.len(),
            s@ == chars@.take(i as int),
        decreases chars.len() - i,
    {
        s.push(chars[i]);
        i = i + 1;
        assert(chars@.take(i as int) =~= chars@.take(i - 1).push(chars@[i - 1]));
    }
    assert(chars@.take(i as int) =~= chars@);
    s
}

/// Two character sequences with the same UTF-8 form are the same.
pub proof fn lemma_utf8_injective(a: Seq<char>, b: Seq<char>)
    requires
        encode_utf8(a) == encode_utf8(b),
    ensures
        a == b,
{
    encode_utf8_decode_utf8(a);
    encode_utf8_decode_utf8(b);
}

/// Whether two texts are equal.
pub fn same(a: &str, b: &str) -> (r: bool)
    ensures
        r == (a@ == b@),
{
    let x: &[u8] = a.as_bytes();
    let y: &[u8] = b.as_bytes();
    if x.len() != y.len() {
        return false;
    }
    let mut i: usize = 0;
    while i < x.len()
        invariant
            i <= x.len(),
            x.len() == y.len(),
            x@ == a.spec_bytes(),
            y@ == b.spec_bytes(),
            x@.take(i as int) == y@.take(i as int),
        decreases x.len() - i,
    {
        if x[i] != y[i] {
            return false;
        }
        i = i + 1;
        assert(x@.take(i as int) =~= x@.take(i - 1).push(x@[i - 1]));
        assert(y@.take(i as int) =~= y@.take(i - 1).push(y@[i - 1]));
    }
    proof {
        assert(x@.take(i as int) =~= x@);
        assert(y@.take(i as int) =~= y@);
        lemma_utf8_injective(a@, b@);
    }
    true
}

/// Lexicographic order by code point.
pub open spec fn text_le(a: Seq<char>, b: Seq<char>) -> bool
    decreases a.len(),
{
    if a.len() == 0 {
        true
    } else if b.len() == 0 {
        false
    } else if a[0] == b[0] {
        text_le(a.drop_first(), b.drop_first())
    } else {
        (a[0] as int) < (b[0] as int)
    }
}

/// Strict lexicographic order.
pub open spec fn text_lt(a: Seq<char>, b: Seq<char>) -> bool {
    !text_le(b, a)
}

pub proof fn lemma_text_le_total(a: Seq<char>, b: Seq<char>)
    ensures
        text_le(a, b) || text_le(b, a),
    decreases a.len(),
{
    if a.len() > 0 && b.len() > 0 && a[0] == b[0] {
        lemma_text_le_total(a.drop_first(), b.drop_first());
    }
}

pub proof fn lemma_text_le_antisymmetric(a: Seq<char>, b: Seq<char>)
    requires
        text_le(a, b),
        text_le(b, a),
    ensures
        a == b,
    decreases a.len(),
{
    if a.len() > 0 && b.len() > 0 {
        assert(a[0] == b[0]);
        lemma_text_le_antisymmetric(a.drop_first(), b.drop_first());
        assert(a =~= seq![a[0]] + a.drop_first());
        assert(b =~= seq![b[0]] + b.drop_first());
    } else {
        assert(a =~= b);
    }
}

pub proof fn lemma_text_le_transitive(a: Seq<char>, b: Seq<char>, c: Seq<char>)
    requires
        text_le(a, b),
        text_le(b, c),
    ensures
        text_le(a, c),
    decreases a.len(),
{
    if a.len() > 0 && b.len() > 0 && c.len() > 0 && a[0] == b[0] && b[0] == c[0] {
        lemma_text_le_transitive(a.drop_first(), b.drop_first(), c.drop_first());
    }
}

/// Texts are ordered by the first character in which they differ, and a text stands before its
/// continuations.
pub proof fn law_text_order(a: Seq<char>, b: Seq<char>, i: int)
    requires
        0 <= i <= a.len(),
        i <= b.len(),
        a.take(i) == b.take(i),
    ensures
        i == a.len() ==> text_le(a, b),
        i == a.len() && i < b.len() ==> text_lt(a, b),
        i < a.len() && i < b.len() && (a[i] as int) < (b[i] as int) ==> text_lt(a, b) && text_le(
            a,
            b,
        ),
    decreases i,
{
    if i > 0 {
        assert(a[0] == a.take(i)[0] && b[0] == b.take(i)[0]);
        let x = a.drop_first();
        let y = b.drop_first();
        assert(x.take(i - 1) =~= a.take(i).drop_first());
        assert(y.take(i - 1) =~= b.take(i).drop_first());
        law_text_order(x, y, i - 1);
    }
}

/// Whether `a` comes no later than `b` in lexicographic order.
pub fn le(a: &str, b: &str) -> (r: bool)
    ensures
        r == text_le(a@, b@),
{
    let x: Vec<char> = chars_of(a);
    let y: Vec<char> = chars_of(b);
    let mut i: usize = 0;
    assert(x@.skip(0) =~= x@);
    assert(y@.skip(0) =~= y@);
    while i < x.len() && i < y.len()
        invariant
            i <= x.len(),
            i <= y.len(),
            x@ == a@,
            y@ == b@,
            text_le(a@, b@) == text_le(x@.skip(i as int), y@.skip(i as int)),
        decreases x.len() - i,
    {
        let p: char = x[i];
        let q: char = y[i];
        assert(x@.skip(i as int)[0] == p && y@.skip(i as int)[0] == q);
        if p != q {
            return p < q;
        }
        assert(x@.skip(i as int).drop_first() =~= x@.skip(i + 1));
        assert(y@.skip(i as int).drop_first() =~= y@.skip(i + 1));
        i = i + 1;
    }
    i >= x.len()
}

// ---- decimal notation ----

/// The digit `d` (0 to 9) as a character.
pub open spec fn digit_char(d: int) -> char {
    (48 + d) as char
}

/// The decimal digits of `n`, without leading zeros.
pub open spec fn digits(n: nat) -> Seq<char>
    decreases n,
{
    if n < 10 {
        seq![digit_char(n as int)]
    } else {
        digits(n / 10).push(digit_char((n % 10) as int))
    }
}

/// `n` in decimal notation, with a leading minus sign where it is negative.
pub open spec fn decimal(n: int) -> Seq<char> {
    if n < 0 {
        seq!['-'] + digits((-n) as nat)
    } else {
        digits(n as nat)
    }
}

fn push_digits(s: &mut String, n: u128)
    ensures
        final(s)@ == old(s)@ + digits(n as nat),
    decreases n,
{
    if n >= 10 {
        push_digits(s, n / 10);
    }
    let d: u8 = (n % 10) as u8;
    s.push((48u8 + d) as char);
}

/// Appends `n` in decimal notation.
pub fn push_decimal(s: &mut String, n: i128)
    requires
        n > i128::MIN,
    ensures
        final(s)@ == old(s)@ + decimal(n as int),
{
    if n < 0 {
        s.push('-');
        push_digits(s, (-n) as u128);
    } else {
        push_digits(s, n as u128);
    }
}

/// `n` in decimal notation.
pub fn decimal_of(n: i128) -> (r: String)
    requires
        n > i128::MIN,
    ensures
        r@ == decimal(n as int),
{
    let mut s: String = String::new();
    push_decimal(&mut s, n);
    s
}

pub open spec fn is_digit(c: char) -> bool {
    '0' <= c <= '9'
}

pub open spec fn all_digits(s: Seq<char>) -> bool {
    forall|i: int| 0 <= i < s.len() ==> is_digit(#[trigger] s[i])
}

/// The number that a sequence of decimal digits stands for.
pub open spec fn digits_value(s: Seq<char>) -> int
    decreases s.len(),
{
    if s.len() == 0 {
        0
    } else {
        digits_value(s.drop_last()) * 10 + (s.last() as int - 48)
    }
}

/// The integer that `s` writes out: an optional sign, of which minus only where `signed`,
/// and at least one digit; nothing else may stand in it, and the value must lie in `lo..=hi`.
pub open spec fn parsed_integer(s: Seq<char>, signed: bool, lo: int, hi: int) -> Option<int> {
    let sign = s.len() > 0 && (s[0] == '+' || (signed && s[0] == '-'));
    let body = if sign { s.drop_first() } else { s };
    let magnitude = digits_value(body);
    let value = if sign && s[0] == '-' { -magnitude } else { magnitude };
    if body.len() > 0 && all_digits(body) && lo <= value <= hi {
        Some(value)
    } else {
        None
    }
}

proof fn lemma_digits_value_step(s: Seq<char>, k: int)
    requires
        0 <= k < s.len(),
    ensures
        digits_value(s.take(k + 1)) == digits_value(s.take(k)) * 10 + (s[k] as int - 48),
{
    assert(s.take(k + 1).drop_last() =~= s.take(k));
}

proof fn lemma_digits_value_grows(s: Seq<char>, k: int)
    requires
        0 <= k <= s.len(),
        all_digits(s),
    ensures
        0 <= digits_value(s.take(k)) <= digits_value(s),
    decreases s.len() - k, s.len(),
{
    if k < s.len() {
        lemma_digits_value_step(s, k);
        lemma_digits_value_grows(s, k + 1);
        lemma_digits_value_nonnegative(s.take(k));
    } else {
        assert(s.take(k) =~= s);
        lemma_digits_value_nonnegative(s);
    }
}

proof fn lemma_digits_value_nonnegative(s: Seq<char>)
    requires
        all_digits(s),
    ensures
        digits_value(s) >= 0,
    decreases s.len(),
{
    if s.len() > 0 {
        lemma_digits_value_nonnegative(s.drop_last());
        assert(is_digit(s[s.len() - 1]));
    }
}

/// The value of the digits in `chars[from..to]`, cut off at `cap`.
fn capped_digits(chars: &Vec<char>, from: usize, to: usize, cap: u128) -> (r: u128)
    requires
        from <= to <= chars.len(),
        all_digits(chars@.subrange(from as int, to as int)),
        cap <= 0x1_0000_0000_0000_0000_0000,
    ensures
        r as int == (if digits_value(chars@.subrange(from as int, to as int)) <= cap {
            digits_value(chars@.subrange(from as int, to as int))
        } else {
            cap as int
        }),
{
    let ghost body = chars@.subrange(from as int, to as int);
    let mut acc: u128 = 0;
    let mut i: usize = from;
    while i < to
        invariant
            from <= i <= to <= chars.len(),
            body == chars@.subrange(from as int, to as int),
            all_digits(body),
            cap <= 0x1_0000_0000_0000_0000_0000,
            acc <= cap,
            acc as int == digits_value(body.take(i - from)),
        decreases to - i,
    {
        let c: char = chars[i];
        proof {
            assert(body[i - from] == c);
            assert(is_digit(body[i - from]));
            lemma_digits_value_step(body, i - from);
            lemma_digits_value_grows(body, i - from + 1);
        }
        let d: u32 = c as u32 - 48;
        let next: u128 = acc * 10 + d as u128;
        if next > cap {
            return cap;
        }
        acc = next;
        i = i + 1;
    }
    assert(body.take(i - from) =~= body);
    acc
}

/// Reads a decimal integer; see [`parsed_integer`].
#[verifier::loop_isolation(false)]
pub fn parse_integer(s: &str, signed: bool, lo: i128, hi: i128) -> (r: Option<i128>)
    requires
        -0x1_0000_0000_0000_0000 <= lo <= 0,
        0 <= hi <= 0x1_0000_0000_0000_0000,
    ensures
        r is Some <==> parsed_integer(s@, signed, lo as int, hi as int) is Some,
        r matches Some(v) ==> parsed_integer(s@, signed, lo as int, hi as int) == Some(v as int),
{
    let chars: Vec<char> = chars_of(s);
    let sign: bool = chars.len() > 0 && (chars[0] == '+' || (signed && chars[0] == '-'));
    let from: usize = if sign { 1 } else { 0 };
    let ghost body = if sign { s@.drop_first() } else { s@ };
    assert(body =~= chars@.subrange(from as int, chars.len() as int));
    if chars.len() == from {
        return None;
    }
    let mut i: usize = from;
    while i < chars.len()
        invariant
            from <= i <= chars.len(),
            forall|j: int| 0 <= j < i - from ==> is_digit(#[trigger] body[j]),
        decreases chars.len() - i,
    {
        let c: char = chars[i];
        assert(body[i - from] == c);
        if !('0' <= c && c <= '9') {
            assert(!is_digit(body[i - from]));
            return None;
        }
        i = i + 1;
    }
    let cap: u128 = 0x1_0000_0000_0000_0001;
    let m: u128 = capped_digits(&chars, from, chars.len(), cap);
    let v: i128 = if sign && chars[0] == '-' { -(m as i128) } else { m as i128 };
    if lo <= v && v <= hi {
        Some(v)
    } else {
        None
    }
}

pub proof fn lemma_digits(n: nat)
    ensures
        digits(n).len() > 0,
        all_digits(digits(n)),
        digits_value(digits(n)) == n,
    decreases n,
{
    reveal_with_fuel(digits_value, 2);
    if n < 10 {
        assert(digits(n).drop_last() =~= Seq::<char>::empty());
        assert(digits(n).last() == digit_char(n as int));
    } else {
        lemma_digits(n / 10);
        let d = digit_char((n % 10) as int);
        assert(digits(n).drop_last() =~= digits(n / 10));
        assert(digits(n).last() == d);
        assert forall|i: int| 0 <= i < digits(n).len() implies is_digit(
            #[trigger] digits(n)[i],
        ) by {
            if i < digits(n / 10).len() {
                assert(digits(n)[i] == digits(n / 10)[i]);
            }
        }
    }
}

/// An integer reads back from its decimal notation.
pub proof fn law_decimal_reads_back(n: int, signed: bool, lo: int, hi: int)
    requires
        lo <= n <= hi,
        n < 0 ==> signed,
    ensures
        parsed_integer(decimal(n), signed, lo, hi) == Some(n),
{
    if n < 0 {
        lemma_digits((-n) as nat);
        assert(decimal(n).drop_first() =~= digits((-n) as nat));
    } else {
        lemma_digits(n as nat);
        assert(is_digit(digits(n as nat)[0]));
    }
}

/// Different integers have different decimal notations.
pub proof fn law_decimal_injective(a: int, b: int)
    requires
        decimal(a) == decimal(b),
    ensures
        a == b,
{
    let lo = if a < b { a } else { b };
    let hi = if a < b { b } else { a };
    law_decimal_reads_back(a, true, lo, hi);
    law_decimal_reads_back(b, true, lo, hi);
}

// ---- hexadecimal notation ----

/// The value `d` (0 to 15) as a lower-case hexadecimal digit.
pub open spec fn hex_char(d: int) -> char {
    if d < 10 {
        (48 + d) as char
    } else {
        (87 + d) as char
    }
}

/// The value `d` (0 to 15) as an upper-case hexadecimal digit.
pub open spec fn upper_hex_char(d: int) -> char {
    if d < 10 {
        (48 + d) as char
    } else {
        (55 + d) as char
    }
}

/// Two lower-case hexadecimal digits for each byte.
pub open spec fn hex_text(bytes: Seq<u8>) -> Seq<char> {
    Seq::new(
        2 * bytes.len(),
        |i: int|
            if i % 2 == 0 {
                hex_char(bytes[i / 2] as int / 16)
            } else {
                hex_char(bytes[i / 2] as int % 16)
            },
    )
}

/// Two upper-case hexadecimal digits for each byte.
pub open spec fn upper_hex_text(bytes: Seq<u8>) -> Seq<char> {
    Seq::new(
        2 * bytes.len(),
        |i: int|
            if i % 2 == 0 {
                upper_hex_char(bytes[i / 2] as int / 16)
            } else {
                upper_hex_char(bytes[i / 2] as int % 16)
            },
    )
}

/// The value of a hexadecimal digit in either case, given as an ASCII byte.
pub open spec fn hex_value(b: u8) -> Option<int> {
    if 48 <= b <= 57 {
        Some(b as int - 48)
    } else if 97 <= b <= 102 {
        Some(b as int - 87)
    } else if 65 <= b <= 70 {
        Some(b as int - 55)
    } else {
        None
    }
}

fn hex_digit(d: u8) -> (c: char)
    requires
        d < 16,
    ensures
        c == hex_char(d as int),
{
    if d < 10 {
        (48u8 + d) as char
    } else {
        (87u8 + d) as char
    }
}

fn upper_hex_digit(d: u8) -> (c: char)
    requires
        d < 16,
    ensures
        c == upper_hex_char(d as int),
{
    if d < 10 {
        (48u8 + d) as char
    } else {
        (55u8 + d) as char
    }
}

/// The bytes in lower-case hexadecimal notation.
pub fn to_hex(bytes: &[u8]) -> (r: String)
    ensures
        r@ == hex_text(bytes@),
{
    let mut s: String = String::new();
    let mut i: usize = 0;
    while i < bytes.len()
        invariant
            i <= bytes.len(),
            s@ == hex_text(bytes@.take(i as int)),
        decreases bytes.len() - i,
    {
        let b: u8 = bytes[i];
        s.push(hex_digit(b / 16));
        s.push(hex_digit(b % 16));
        i = i + 1;
        assert(s@ =~= hex_text(bytes@.take(i as int)));
    }
    assert(bytes@.take(i as int) =~= bytes@);
    s
}

/// The bytes in upper-case hexadecimal notation.
pub fn to_upper_hex(bytes: &[u8]) -> (r: String)
    ensures
        r@ == upper_hex_text(bytes@),
{
    let mut s: String = String::new();
    let mut i: usize = 0;
    while i < bytes.len()
        invariant
            i <= bytes.len(),
            s@ == upper_hex_text(bytes@.take(i as int)),
        decreases bytes.len() - i,
    {
        let b: u8 = bytes[i];
        s.push(upper_hex_digit(b / 16));
        s.push(upper_hex_digit(b % 16));
        i = i + 1;
        assert(s@ =~= upper_hex_text(bytes@.take(i as int)));
    }
    assert(bytes@.take(i as int) =~= bytes@);
    s
}

/// The value of a hexadecimal digit; see [`hex_value`].
pub fn hex_digit_value(b: u8) -> (r: Option<u8>)
    ensures
        r is Some <==> hex_value(b) is Some,
        r matches Some(v) ==> hex_value(b) == Some(v as int) && v < 16,
{
    if 48 <= b && b <= 57 {
        Some(b - 48)
    } else if 97 <= b && b <= 102 {
        Some(b - 87)
    } else if 65 <= b && b <= 70 {
        Some(b - 55)
    } else {
        None
    }
}

/// The characters of the lower-case hexadecimal alphabet.
pub open spec fn is_lower_hex(c: char) -> bool {
    ('0' <= c <= '9') || ('a' <= c <= 'f')
}

/// The characters of the upper-case hexadecimal alphabet.
pub open spec fn is_upper_hex(c: char) -> bool {
    ('0' <= c <= '9') || ('A' <= c <= 'F')
}

pub proof fn lemma_upper_hex_alphabet(bytes: Seq<u8>)
    ensures
        upper_hex_text(bytes).len() == 2 * bytes.len(),
        forall|i: int|
            0 <= i < upper_hex_text(bytes).len() ==> is_upper_hex(
                #[trigger] upper_hex_text(bytes)[i],
            ),
{
}

pub proof fn lemma_hex_text_alphabet(bytes: Seq<u8>)
    ensures
        hex_text(bytes).len() == 2 * bytes.len(),
        forall|i: int| 0 <= i < hex_text(bytes).len() ==> is_lower_hex(#[trigger] hex_text(bytes)[i]),
{
}

// ---- trimming, searching, case ----

/// The characters with the Unicode property White_Space.
pub open spec fn is_white_space(c: char) -> bool {
    let n = c as int;
    ||| 9 <= n <= 13
    ||| n == 32
    ||| n == 0x85
    ||| n == 0xa0
    ||| n == 0x1680
    ||| 0x2000 <= n <= 0x200a
    ||| n == 0x2028
    ||| n == 0x2029
    ||| n == 0x202f
    ||| n == 0x205f
    ||| n == 0x3000
}

fn white_space(c: char) -> (r: bool)
    ensures
        r == is_white_space(c),
{
    let n: u32 = c as u32;
    (9 <= n && n <= 13) || n == 32 || n == 0x85 || n == 0xa0 || n == 0x1680 || (0x2000 <= n && n
        <= 0x200a) || n == 0x2028 || n == 0x2029 || n == 0x202f || n == 0x205f || n == 0x3000
}

/// `s` without its leading white space.
pub open spec fn trimmed_start(s: Seq<char>) -> Seq<char>
    decreases s.len(),
{
    if s.len() > 0 && is_white_space(s[0]) {
        trimmed_start(s.drop_first())
    } else {
        s
    }
}

/// `s` without its trailing white space.
pub open spec fn trimmed_end(s: Seq<char>) -> Seq<char>
    decreases s.len(),
{
    if s.len() > 0 && is_white_space(s.last()) {
        trimmed_end(s.drop_last())
    } else {
        s
    }
}

/// `s` without leading and trailing white space.
pub open spec fn trimmed(s: Seq<char>) -> Seq<char> {
    trimmed_end(trimmed_start(s))
}

/// What is left without trailing white space begins as it began, and ends in none.
proof fn lemma_trimmed_end(s: Seq<char>)
    ensures
        trimmed_end(s).len() <= s.len(),
        trimmed_end(s) == s.take(trimmed_end(s).len() as int),
        trimmed_end(s).len() > 0 ==> !is_white_space(trimmed_end(s).last()),
    decreases s.len(),
{
    if s.len() > 0 && is_white_space(s.last()) {
        lemma_trimmed_end(s.drop_last());
    }
    assert(trimmed_end(s) =~= s.take(trimmed_end(s).len() as int));
}

proof fn lemma_trimmed_start(s: Seq<char>)
    ensures
        trimmed_start(s).len() > 0 ==> !is_white_space(trimmed_start(s)[0]),
    decreases s.len(),
{
    if s.len() > 0 && is_white_space(s[0]) {
        lemma_trimmed_start(s.drop_first());
    }
}

/// A text without white space around it stays as it is.
pub proof fn lemma_trimmed_twice(s: Seq<char>)
    ensures
        trimmed(trimmed(s)) == trimmed(s),
{
    lemma_trimmed_start(s);
    lemma_trimmed_end(trimmed_start(s));
}

/// Removes leading and trailing white space.
#[verifier::loop_isolation(false)]
pub fn trim(s: &str) -> (r: String)
    ensures
        r@ == trimmed(s@),
{
    let chars: Vec<char> = chars_of(s);
    let mut i: usize = 0;
    assert(chars@.skip(0) =~= s@);
    while i < chars.len() && white_space(chars[i])
        invariant
            i <= chars.len(),
            trimmed_start(s@) == trimmed_start(chars@.skip(i as int)),
        decreases chars.len() - i,
    {
        assert(chars@.skip(i as int).drop_first() =~= chars@.skip(i + 1));
        i = i + 1;
    }
    assert(trimmed_start(s@) == chars@.skip(i as int));
    let mut j: usize = chars.len();
    assert(chars@.skip(i as int) =~= chars@.subrange(i as int, j as int));
    while i < j && white_space(chars[j - 1])
        invariant
            i <= j <= chars.len(),
            trimmed(s@) == trimmed_end(chars@.subrange(i as int, j as int)),
        decreases j - i,
    {
        assert(chars@.subrange(i as int, j as int).drop_last() =~= chars@.subrange(i as int, j - 1));
        j = j - 1;
    }
    string_of(&chars.as_slice()[i..j])
}

/// `s` without the NUL characters at its end.
pub open spec fn without_trailing_nul(s: Seq<char>) -> Seq<char>
    decreases s.len(),
{
    if s.len() > 0 && s.last() == '\0' {
        without_trailing_nul(s.drop_last())
    } else {
        s
    }
}

/// Removes the NUL characters at the end.
#[verifier::loop_isolation(false)]
pub fn trim_nul(s: &str) -> (r: String)
    ensures
        r@ == without_trailing_nul(s@),
{
    let chars: Vec<char> = chars_of(s);
    let mut j: usize = chars.len();
    assert(chars@.take(j as int) =~= s@);
    while 0 < j && chars[j - 1] == '\0'
        invariant
            j <= chars.len(),
            without_trailing_nul(s@) == without_trailing_nul(chars@.take(j as int)),
        decreases j,
    {
        assert(chars@.take(j as int).drop_last() =~= chars@.take(j - 1));
        j = j - 1;
    }
    assert(chars@.subrange(0, j as int) =~= chars@.take(j as int));
    string_of(&chars.as_slice()[0..j])
}

/// Whether `s` begins with `p`.
pub open spec fn begins_with(s: Seq<char>, p: Seq<char>) -> bool {
    p.len() <= s.len() && s.take(p.len() as int) == p
}

/// Whether `p` occurs in `s`.
pub open spec fn occurs_in(p: Seq<char>, s: Seq<char>) -> bool {
    exists|i: int| 0 <= i <= s.len() - p.len() && #[trigger] s.subrange(i, i + p.len()) == p
}

fn matches_at(s: &Vec<char>, at: usize, p: &Vec<char>) -> (r: bool)
    requires
        at + p.len() <= s.len(),
    ensures
        r == (s@.subrange(at as int, at + p.len()) == p@),
{
    let mut k: usize = 0;
    while k < p.len()
        invariant
            k <= p.len(),
            at + p.len() <= s.len(),
            forall|j: int| 0 <= j < k ==> s@[at + j] == #[trigger] p@[j],
        decreases p.len() - k,
    {
        if s[at + k] != p[k] {
            assert(s@.subrange(at as int, at + p.len())[k as int] != p@[k as int]);
            return false;
        }
        k = k + 1;
    }
    assert(s@.subrange(at as int, at + p.len()) =~= p@);
    true
}

/// Whether `s` begins with `p`.
pub fn starts_with(s: &str, p: &str) -> (r: bool)
    ensures
        r == begins_with(s@, p@),
{
    let a: Vec<char> = chars_of(s);
    let b: Vec<char> = chars_of(p);
    if b.len() > a.len() {
        return false;
    }
    assert(a@.subrange(0, b.len() as int) =~= s@.take(p@.len() as int));
    matches_at(&a, 0, &b)
}

/// What follows the first `n` characters of `s`.
pub fn skip_chars(s: &str, n: usize) -> (r: String)
    requires
        n <= s@.len(),
    ensures
        r@ == s@.skip(n as int),
{
    let a: Vec<char> = chars_of(s);
    assert(a@.subrange(n as int, a.len() as int) =~= s@.skip(n as int));
    string_of(&a.as_slice()[n..a.len()])
}

/// Whether `p` occurs in `s`.
#[verifier::loop_isolation(false)]
pub fn contains(s: &str, p: &str) -> (r: bool)
    ensures
        r == occurs_in(p@, s@),
{
    let a: Vec<char> = chars_of(s);
    let b: Vec<char> = chars_of(p);
    if b.len() > a.len() {
        return false;
    }
    let last: usize = a.len() - b.len();
    let mut i: usize = 0;
    while i <= last
        invariant
            i <= last + 1,
            last == a.len() - b.len(),
            forall|j: int| 0 <= j < i ==> #[trigger] s@.subrange(j, j + p@.len()) != p@,
        decreases last + 1 - i,
    {
        if matches_at(&a, i, &b) {
            return true;
        }
        if i == last {
            return false;
        }
        i = i + 1;
    }
    false
}

/// How many bytes a character takes in UTF-8.
pub open spec fn utf8_width(c: char) -> int {
    let n = c as int;
    if n < 0x80 {
        1
    } else if n < 0x800 {
        2
    } else if n < 0x10000 {
        3
    } else {
        4
    }
}

/// The longest prefix of `s` that takes no more than `n` bytes.
pub open spec fn byte_prefix(s: Seq<char>, n: int) -> Seq<char>
    decreases s.len(),
{
    if s.len() > 0 && utf8_width(s[0]) <= n {
        seq![s[0]] + byte_prefix(s.drop_first(), n - utf8_width(s[0]))
    } else {
        Seq::empty()
    }
}

fn width_of(c: char) -> (w: usize)
    ensures
        w == utf8_width(c),
{
    let code: u32 = c as u32;
    if code < 0x80 {
        1
    } else if code < 0x800 {
        2
    } else if code < 0x10000 {
        3
    } else {
        4
    }
}

/// The longest prefix of `s` that takes no more than `n` bytes.
pub fn take_bytes(s: &str, n: usize) -> (r: String)
    ensures
        r@ == byte_prefix(s@, n as int),
{
    let a: Vec<char> = chars_of(s);
    let mut left: usize = n;
    let mut i: usize = 0;
    let mut out: String = String::new();
    assert(a@.skip(0) =~= s@);
    assert(out@ + byte_prefix(s@, n as int) =~= byte_prefix(s@, n as int));
    while i < a.len()
        invariant
            i <= a.len(),
            out@ + byte_prefix(a@.skip(i as int), left as int) == byte_prefix(s@, n as int),
        decreases a.len() - i,
    {
        let c: char = a[i];
        let w: usize = width_of(c);
        let ghost rest = a@.skip(i as int);
        assert(rest[0] == c);
        assert(rest.drop_first() =~= a@.skip(i + 1));
        if w > left {
            assert(out@ =~= byte_prefix(s@, n as int));
            return out;
        }
        let ghost before = out@;
        out.push(c);
        left = left - w;
        i = i + 1;
        assert(before + (seq![c] + byte_prefix(a@.skip(i as int), left as int)) =~= out@
            + byte_prefix(a@.skip(i as int), left as int));
    }
    assert(out@ =~= byte_prefix(s@, n as int));
    out
}

/// A text of ASCII characters is cut at the number of characters.
pub proof fn law_byte_prefix_of_ascii(s: Seq<char>, n: int)
    requires
        is_ascii_chars(s),
        0 <= n,
    ensures
        byte_prefix(s, n) == s.take(if n <= s.len() { n } else { s.len() as int }),
    decreases s.len(),
{
    if s.len() > 0 && n > 0 {
        law_byte_prefix_of_ascii(s.drop_first(), n - 1);
        let m = if n <= s.len() { n } else { s.len() as int };
        assert(seq![s[0]] + s.drop_first().take(m - 1) =~= s.take(m));
    } else {
        assert(s.take(0) =~= Seq::empty());
    }
}

/// The ASCII lower-case form of a character.
pub open spec fn ascii_lower(c: char) -> char {
    if 'A' <= c <= 'Z' {
        (c as int + 32) as char
    } else {
        c
    }
}

/// `s` with its ASCII letters in lower case.
pub open spec fn ascii_lowered(s: Seq<char>) -> Seq<char> {
    s.map_values(|c: char| ascii_lower(c))
}

/// Turns the ASCII letters of `s` into lower case.
pub fn to_ascii_lower(s: &str) -> (r: String)
    ensures
        r@ == ascii_lowered(s@),
{
    let a: Vec<char> = chars_of(s);
    let mut out: String = String::new();
    let mut i: usize = 0;
    while i < a.len()
        invariant
            i <= a.len(),
            a@ == s@,
            out@ == ascii_lowered(s@.take(i as int)),
        decreases a.len() - i,
    {
        let c: char = a[i];
        if 'A' <= c && c <= 'Z' {
            let b: u8 = c as u8;
            out.push((b + 32) as char);
        } else {
            out.push(c);
        }
        i = i + 1;
        assert(out@ =~= ascii_lowered(s@.take(i as int)));
    }
    assert(s@.take(i as int) =~= s@);
    out
}

/// The test for characters other than `c`.
pub open spec fn other_than(c: char) -> spec_fn(char) -> bool {
    |x: char| x != c
}

/// `s` without the occurrences of `c`.
pub open spec fn without_char(s: Seq<char>, c: char) -> Seq<char> {
    s.filter(other_than(c))
}

/// Removes every occurrence of `c`.
pub fn remove_char(s: &str, c: char) -> (r: String)
    ensures
        r@ == without_char(s@, c),
{
    let a: Vec<char> = chars_of(s);
    let mut out: String = String::new();
    let mut i: usize = 0;
    let ghost keep = other_than(c);
    assert(s@.take(0).filter(keep) =~= Seq::<char>::empty()) by {
        reveal(Seq::filter);
    }
    while i < a.len()
        invariant
            i <= a.len(),
            a@ == s@,
            keep == other_than(c),
            out@ == s@.take(i as int).filter(keep),
        decreases a.len() - i,
    {
        proof {
            assert(s@.take(i + 1) =~= s@.take(i as int).push(s@[i as int]));
            s@.take(i as int).lemma_filter_push(s@[i as int], keep);
        }
        if a[i] != c {
            out.push(a[i]);
        }
        i = i + 1;
    }
    assert(s@.take(i as int) =~= s@);
    out
}

// ---- laws ----

/// Whether a text is white space alone.
pub open spec fn all_white(s: Seq<char>) -> bool {
    forall|i: int| 0 <= i < s.len() ==> is_white_space(#[trigger] s[i])
}

/// Trimming takes the white space off both ends of a text and leaves what is between.
pub proof fn law_trimming(a: Seq<char>, core: Seq<char>, b: Seq<char>)
    requires
        all_white(a),
        all_white(b),
        core.len() > 0 ==> !is_white_space(core[0]) && !is_white_space(core.last()),
    ensures
        trimmed(a + core + b) == core,
{
    lemma_start_off(a, core + b);
    assert(a + core + b =~= a + (core + b));
    if core.len() > 0 {
        assert((core + b)[0] == core[0]);
        lemma_end_off(core, b);
    } else {
        assert(core + b =~= b);
        lemma_start_off(b, Seq::empty());
        assert(b + Seq::<char>::empty() =~= b);
        assert(core =~= Seq::empty());
    }
}

proof fn lemma_start_off(a: Seq<char>, rest: Seq<char>)
    requires
        all_white(a),
    ensures
        trimmed_start(a + rest) == trimmed_start(rest),
    decreases a.len(),
{
    if a.len() > 0 {
        let t = a.drop_first();
        assert((a + rest)[0] == a[0]);
        assert((a + rest).drop_first() =~= t + rest);
        assert forall|i: int| 0 <= i < t.len() implies is_white_space(#[trigger] t[i]) by {
            assert(t[i] == a[i + 1]);
        }
        lemma_start_off(t, rest);
    } else {
        assert(a + rest =~= rest);
    }
}

proof fn lemma_end_off(core: Seq<char>, b: Seq<char>)
    requires
        all_white(b),
        core.len() > 0,
        !is_white_space(core.last()),
    ensures
        trimmed_end(core + b) == core,
    decreases b.len(),
{
    if b.len() > 0 {
        let t = b.drop_last();
        assert((core + b).last() == b.last());
        assert((core + b).drop_last() =~= core + t);
        assert(is_white_space(b[b.len() - 1]));
        assert forall|i: int| 0 <= i < t.len() implies is_white_space(#[trigger] t[i]) by {
            assert(t[i] == b[i]);
        }
        lemma_end_off(core, t);
    } else {
        assert(core + b =~= core);
    }
}

/// Blanks, tabs, the ends of lines and the wide blank are white space; what is seen of ASCII, and
/// NUL, are not.
pub proof fn law_white_space(c: char)
    ensures
        c == ' ' || c == '\t' || c == '\n' || c == '\r' || c as int == 0x3000 || c as int == 0xa0
            ==> is_white_space(c),
        33 <= c as int <= 126 || c as int == 0 ==> !is_white_space(c),
{
}

/// The NUL characters at the end of a text are taken off, however many, and nothing else is.
pub proof fn law_nul_is_taken_off(s: Seq<char>)
    ensures
        without_trailing_nul(s.push('\0')) == without_trailing_nul(s),
        s.len() == 0 || s.last() != '\0' ==> without_trailing_nul(s) == s,
{
    assert(s.push('\0').drop_last() =~= s);
}

/// A text occurs in every text that has it between others, and in no other.
pub proof fn law_occurrence(a: Seq<char>, p: Seq<char>, b: Seq<char>, s: Seq<char>)
    ensures
        occurs_in(p, a + p + b),
        occurs_in(p, s) ==> exists|i: int|
            0 <= i <= s.len() - p.len() && s == #[trigger] s.take(i) + p + s.skip(i + p.len()),
        begins_with(p + b, p),
        begins_with(s, p) ==> s == p + s.skip(p.len() as int),
{
    let t = a + p + b;
    let n = a.len() as int;
    assert(t.subrange(n, n + p.len()) =~= p);
    if occurs_in(p, s) {
        let i = choose|i: int|
            0 <= i <= s.len() - p.len() && #[trigger] s.subrange(i, i + p.len()) == p;
        assert(s =~= s.take(i) + s.subrange(i, i + p.len()) + s.skip(i + p.len()));
    }
    assert((p + b).take(p.len() as int) =~= p);
    if begins_with(s, p) {
        assert(s =~= s.take(p.len() as int) + s.skip(p.len() as int));
    }
}

/// Turning letters into lower case changes the capital letters of ASCII and nothing else.
pub proof fn law_lower_case(s: Seq<char>, i: int)
    requires
        0 <= i < s.len(),
    ensures
        ascii_lowered(s).len() == s.len(),
        'A' <= s[i] <= 'Z' ==> ascii_lowered(s)[i] as int == s[i] as int + 32,
        !('A' <= s[i] <= 'Z') ==> ascii_lowered(s)[i] == s[i],
        ascii_lowered(ascii_lowered(s)) == ascii_lowered(s),
{
    assert(ascii_lowered(ascii_lowered(s)) =~= ascii_lowered(s));
}

/// Removing a character removes all of it and nothing else.
pub proof fn law_character_is_removed(s: Seq<char>, c: char, x: char)
    ensures
        without_char(s, c).contains(x) <==> s.contains(x) && x != c,
        !s.contains(c) ==> without_char(s, c) == s,
        without_char(s.push(x), c) == (if x == c {
            without_char(s, c)
        } else {
            without_char(s, c).push(x)
        }),
    decreases s.len(),
{
    let p = other_than(c);
    s.lemma_filter_push(x, p);
    reveal(Seq::filter);
    if s.len() > 0 {
        let rest = s.drop_last();
        let l = s.last();
        law_character_is_removed(rest, c, x);
        assert(s =~= rest.push(l));
        if s.contains(x) && x != l {
            let i = choose|i: int| 0 <= i < s.len() && s[i] == x;
            assert(rest[i] == x);
        }
        if rest.contains(x) {
            let i = choose|i: int| 0 <= i < rest.len() && rest[i] == x;
            assert(s[i] == x);
        }
        assert(s[s.len() - 1] == l);
        let kept = rest.filter(p);
        if p(l) {
            assert(s.filter(p) == kept.push(l));
            assert(kept.push(l)[kept.len() as int] == l);
            if kept.contains(x) {
                let k = choose|k: int| 0 <= k < kept.len() && kept[k] == x;
                assert(kept.push(l)[k] == x);
            }
            if kept.push(l).contains(x) && x != l {
                let k = choose|k: int| 0 <= k < kept.push(l).len() && kept.push(l)[k] == x;
                assert(kept[k] == x);
            }
        }
        if !s.contains(c) {
            if rest.contains(c) {
                let i = choose|i: int| 0 <= i < rest.len() && rest[i] == c;
                assert(s[i] == c);
            }
        }
    } else {
        assert(s.filter(p) =~= s);
    }
}

/// What is cut off at a number of bytes begins the text.
pub proof fn law_byte_prefix_begins_the_text(s: Seq<char>, n: int)
    ensures
        begins_with(s, byte_prefix(s, n)),
        n <= 0 ==> byte_prefix(s, n).len() == 0,
    decreases s.len(),
{
    if s.len() > 0 && utf8_width(s[0]) <= n {
        let rest = s.drop_first();
        law_byte_prefix_begins_the_text(rest, n - utf8_width(s[0]));
        let q = byte_prefix(rest, n - utf8_width(s[0]));
        assert(s.take(1 + q.len() as int) =~= seq![s[0]] + rest.take(q.len() as int));
    } else {
        assert(s.take(0) =~= Seq::empty());
    }
}

/// A number has no leading zeros, and a minus sign exactly where it is negative.
pub proof fn law_decimal_form(n: int)
    ensures
        decimal(n).len() > 0,
        n < 0 <==> decimal(n)[0] == '-',
        n > 0 ==> decimal(n)[0] != '0',
        n == 0 ==> decimal(n) == seq!['0'],
{
    if n < 0 {
        lemma_leading_digit((-n) as nat);
        lemma_digits((-n) as nat);
    } else {
        lemma_leading_digit(n as nat);
        lemma_digits(n as nat);
        assert(is_digit(digits(n as nat)[0]));
    }
}

proof fn lemma_leading_digit(n: nat)
    ensures
        digits(n).len() > 0,
        n > 0 ==> digits(n)[0] != '0',
    decreases n,
{
    if n >= 10 {
        lemma_leading_digit(n / 10);
    }
}

/// A text is read as a number only where it is digits with a sign before them or without, a minus
/// only where one is allowed, and only within the bounds.
pub proof fn law_what_is_no_number(s: Seq<char>, signed: bool, lo: int, hi: int)
    ensures
        parsed_integer(s, signed, lo, hi) matches Some(n) ==> lo <= n <= hi && s.len() > 0 && (
        is_digit(s[0]) || s[0] == '+' || (signed && s[0] == '-')) && forall|i: int|
            1 <= i < s.len() ==> is_digit(#[trigger] s[i]),
        s.len() == 0 ==> parsed_integer(s, signed, lo, hi) is None,
        s.len() == 1 && !is_digit(s[0]) ==> parsed_integer(s, signed, lo, hi) is None,
{
    if parsed_integer(s, signed, lo, hi) is Some {
        let sign = s[0] == '+' || (signed && s[0] == '-');
        let body = if sign {
            s.drop_first()
        } else {
            s
        };
        assert forall|i: int| 1 <= i < s.len() implies is_digit(#[trigger] s[i]) by {
            if sign {
                assert(body[i - 1] == s[i]);
            } else {
                assert(body[i] == s[i]);
            }
        }
        if !sign {
            assert(is_digit(body[0]));
        }
    }
}

/// A plus sign before a number does not change it.
pub proof fn law_plus_sign(n: int, signed: bool, lo: int, hi: int)
    requires
        0 <= n,
        lo <= n <= hi,
    ensures
        parsed_integer(seq!['+'] + decimal(n), signed, lo, hi) == Some(n),
{
    lemma_digits(n as nat);
    let s = seq!['+'] + decimal(n);
    assert(s.drop_first() =~= decimal(n));
}

} // verus!
