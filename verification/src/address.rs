//! Addresses: IPv4, and the IPv6 addresses that reach no other machine.

use vstd::prelude::*;
use vstd::string::*;

use crate::text::{all_digits, chars_of, decimal, digits, digits_value, is_digit, lemma_digits, push_decimal, same};

verus! {

/// An IPv4 address, by its four bytes.
#[derive(Debug, Clone, Copy, PartialEq, Eq, Structural)]
pub struct Ipv4 {
    pub a: u8,
    pub b: u8,
    pub c: u8,
    pub d: u8,
}

impl Ipv4 {
    /// Addresses of the machine itself.
    pub open spec fn loopback(self) -> bool {
        self.a == 127
    }

    /// The address that stands for none.
    pub open spec fn unspecified(self) -> bool {
        self.a == 0 && self.b == 0 && self.c == 0 && self.d == 0
    }

    /// Addresses that reach no further than the link.
    pub open spec fn link_local(self) -> bool {
        self.a == 169 && self.b == 254
    }

    /// Addresses that another device can be reached under.
    pub open spec fn reachable(self) -> bool {
        !self.loopback() && !self.unspecified() && !self.link_local()
    }

    /// The address as a number.
    pub open spec fn number(self) -> int {
        self.a * 16777216 + self.b * 65536 + self.c * 256 + self.d
    }

    /// The address in dotted notation.
    pub open spec fn dotted(self) -> Seq<char> {
        decimal(self.a as int) + "."@ + decimal(self.b as int) + "."@ + decimal(self.c as int)
            + "."@ + decimal(self.d as int)
    }

    /// The address in dotted notation.
    pub fn to_text(&self) -> (r: String)
        ensures
            r@ == self.dotted(),
    {
        let mut s: String = String::new();
        push_decimal(&mut s, self.a as i128);
        s.append(".");
        push_decimal(&mut s, self.b as i128);
        s.append(".");
        push_decimal(&mut s, self.c as i128);
        s.append(".");
        push_decimal(&mut s, self.d as i128);
        assert(s@ =~= self.dotted());
        s
    }

    /// Whether the address is one of the machine itself.
    pub fn is_loopback(&self) -> (r: bool)
        ensures
            r == self.loopback(),
    {
        self.a == 127
    }

    /// Whether the address stands for none.
    pub fn is_unspecified(&self) -> (r: bool)
        ensures
            r == self.unspecified(),
    {
        self.a == 0 && self.b == 0 && self.c == 0 && self.d == 0
    }

    /// Whether another device can be reached under the address.
    pub fn is_reachable(&self) -> (r: bool)
        ensures
            r == self.reachable(),
    {
        !self.is_loopback() && !self.is_unspecified() && !(self.a == 169 && self.b == 254)
    }

    /// Whether the address comes before another as a number.
    pub fn less_than(&self, other: &Ipv4) -> (r: bool)
        ensures
            r == (self.number() < other.number()),
    {
        self.as_number() < other.as_number()
    }

    fn as_number(&self) -> (n: u64)
        ensures
            n == self.number(),
    {
        self.a as u64 * 16777216 + self.b as u64 * 65536 + self.c as u64 * 256 + self.d as u64
    }
}

/// The digits at the start of `s` as a number continued from `acc`, and what follows them.
spec fn run(s: Seq<char>, acc: int) -> (int, Seq<char>)
    decreases s.len(),
{
    if s.len() > 0 && is_digit(s[0]) {
        run(s.drop_first(), acc * 10 + (s[0] as int - 48))
    } else {
        (acc, s)
    }
}

spec fn starts_with_digit(s: Seq<char>) -> bool {
    s.len() > 0 && is_digit(s[0])
}

proof fn lemma_run(w: Seq<char>, rest: Seq<char>, acc: int, before: Seq<char>)
    requires
        all_digits(w),
        all_digits(before),
        acc == digits_value(before),
        !starts_with_digit(rest),
    ensures
        run(w + rest, acc) == (digits_value(before + w), rest),
    decreases w.len(),
{
    if w.len() == 0 {
        assert(w + rest =~= rest);
        assert(before + w =~= before);
    } else {
        assert(is_digit(w[0]));
        let s = w + rest;
        let next = before.push(w[0]);
        assert(s.drop_first() =~= w.drop_first() + rest);
        assert(next.drop_last() =~= before);
        assert(before + w =~= next + w.drop_first());
        lemma_run(w.drop_first(), rest, digits_value(next), next);
    }
}

/// Reads the digits from position `i` on: their value, which is cut off, and where they end.
fn read_run(chars: &Vec<char>, i: usize) -> (r: (u32, usize))
    requires
        i <= chars.len(),
    ensures
        i <= r.1 <= chars.len(),
        run(chars@.skip(i as int), 0).1 == chars@.skip(r.1 as int),
        run(chars@.skip(i as int), 0).0 <= 255 ==> r.0 == run(chars@.skip(i as int), 0).0,
{
    let mut acc: u32 = 0;
    let mut k: usize = i;
    let ghost target = run(chars@.skip(i as int), 0);
    let ghost mut exact: int = 0;
    while k < chars.len() && '0' <= chars[k] && chars[k] <= '9'
        invariant
            i <= k <= chars.len(),
            target == run(chars@.skip(k as int), exact),
            acc <= 1000,
            0 <= exact,
            acc as int == (if exact <= 1000 {
                exact
            } else {
                1000
            }),
        decreases chars.len() - k,
    {
        let c: char = chars[k];
        assert(chars@.skip(k as int)[0] == c);
        assert(chars@.skip(k as int).drop_first() =~= chars@.skip(k + 1));
        let d: u32 = c as u32 - 48;
        let next: u32 = acc * 10 + d;
        acc = if next > 1000 { 1000 } else { next };
        proof {
            exact = exact * 10 + (c as int - 48);
        }
        k = k + 1;
    }
    assert(k < chars.len() ==> chars@.skip(k as int)[0] == chars@[k as int]);
    (acc, k)
}

proof fn lemma_octet(n: u8, rest: Seq<char>)
    requires
        !starts_with_digit(rest),
    ensures
        run(decimal(n as int) + rest, 0) == (n as int, rest),
{
    lemma_digits(n as nat);
    let none = Seq::<char>::empty();
    lemma_run(digits(n as nat), rest, 0, none);
    assert(none + digits(n as nat) =~= digits(n as nat));
}

/// A dot, a number and what follows.
spec fn dot(n: u8, rest: Seq<char>) -> Seq<char> {
    seq!['.'] + decimal(n as int) + rest
}

proof fn lemma_dot(n: u8, rest: Seq<char>)
    ensures
        dot(n, rest).len() > 0,
        !starts_with_digit(dot(n, rest)),
        dot(n, rest).drop_first() == decimal(n as int) + rest,
{
    assert(dot(n, rest)[0] == '.');
    assert(dot(n, rest).drop_first() =~= decimal(n as int) + rest);
}

spec fn tail3(ip: Ipv4) -> Seq<char> {
    dot(ip.d, Seq::empty())
}

spec fn tail2(ip: Ipv4) -> Seq<char> {
    dot(ip.c, tail3(ip))
}

spec fn tail1(ip: Ipv4) -> Seq<char> {
    dot(ip.b, tail2(ip))
}

proof fn lemma_shape(ip: Ipv4)
    ensures
        ip.dotted() == decimal(ip.a as int) + tail1(ip),
{
    reveal_strlit(".");
    assert("."@ =~= seq!['.']);
    assert(ip.dotted() =~= decimal(ip.a as int) + tail1(ip));
}

/// How an address in dotted notation falls apart into its numbers.
proof fn lemma_parts(ip: Ipv4)
    ensures
        run(ip.dotted(), 0) == (ip.a as int, tail1(ip)),
        tail1(ip).len() > 0,
        run(tail1(ip).drop_first(), 0) == (ip.b as int, tail2(ip)),
        tail2(ip).len() > 0,
        run(tail2(ip).drop_first(), 0) == (ip.c as int, tail3(ip)),
        tail3(ip).len() > 0,
        run(tail3(ip).drop_first(), 0) == (ip.d as int, Seq::<char>::empty()),
{
    let none = Seq::<char>::empty();
    lemma_shape(ip);
    lemma_dot(ip.d, none);
    lemma_dot(ip.c, tail3(ip));
    lemma_dot(ip.b, tail2(ip));
    lemma_octet(ip.a, tail1(ip));
    lemma_octet(ip.b, tail2(ip));
    lemma_octet(ip.c, tail3(ip));
    lemma_octet(ip.d, none);
}

/// Different addresses have different dotted notations.
pub proof fn law_dotted_injective(x: Ipv4, y: Ipv4)
    requires
        x.dotted() == y.dotted(),
    ensures
        x == y,
{
    lemma_parts(x);
    lemma_parts(y);
}

fn past(i: usize, len: usize) -> (r: usize)
    requires
        i <= len,
    ensures
        r <= len,
        i < len ==> r == i + 1,
{
    if i < len {
        i + 1
    } else {
        i
    }
}

/// The address that a text gives in dotted notation.
pub open spec fn ipv4_of(s: Seq<char>) -> Option<Ipv4> {
    if exists|ip: Ipv4| s == #[trigger] ip.dotted() {
        Some(choose|ip: Ipv4| s == #[trigger] ip.dotted())
    } else {
        None
    }
}

/// An address in dotted notation begins with a digit.
pub proof fn lemma_dotted_begins_with_digit(ip: Ipv4)
    ensures
        ip.dotted().len() > 0,
        is_digit(ip.dotted()[0]),
{
    crate::text::lemma_digits(ip.a as nat);
    assert(ip.dotted()[0] == digits(ip.a as nat)[0]);
}

/// An address reads back from its dotted notation.
pub proof fn law_dotted_reads_back(ip: Ipv4)
    ensures
        ipv4_of(ip.dotted()) == Some(ip),
{
    let found = choose|x: Ipv4| ip.dotted() == #[trigger] x.dotted();
    law_dotted_injective(found, ip);
}

/// Reads an address in dotted notation: four numbers up to 255 without leading zeros.
pub fn parse_ipv4(s: &str) -> (r: Option<Ipv4>)
    ensures
        r == ipv4_of(s@),
        r matches Some(ip) ==> s@ == ip.dotted(),
{
    let chars: Vec<char> = chars_of(s);
    let len: usize = chars.len();
    let (a, i): (u32, usize) = read_run(&chars, 0);
    let i2: usize = past(i, len);
    let (b, j): (u32, usize) = read_run(&chars, i2);
    let j2: usize = past(j, len);
    let (c, k): (u32, usize) = read_run(&chars, j2);
    let k2: usize = past(k, len);
    let (d, e): (u32, usize) = read_run(&chars, k2);
    assert forall|ip: Ipv4| s@ == #[trigger] ip.dotted() implies a == ip.a && b == ip.b && c == ip.c
        && d == ip.d by {
        lemma_parts(ip);
        assert(chars@.skip(0) =~= s@);
        assert(chars@.skip(i as int) == tail1(ip));
        assert(chars@.skip(i2 as int) =~= tail1(ip).drop_first());
        assert(chars@.skip(j as int) == tail2(ip));
        assert(chars@.skip(j2 as int) =~= tail2(ip).drop_first());
        assert(chars@.skip(k as int) == tail3(ip));
        assert(chars@.skip(k2 as int) =~= tail3(ip).drop_first());
    }
    if a > 255 || b > 255 || c > 255 || d > 255 {
        return None;
    }
    let ip: Ipv4 = Ipv4 { a: a as u8, b: b as u8, c: c as u8, d: d as u8 };
    if same(s, ip.to_text().as_str()) {
        proof {
            law_dotted_reads_back(ip);
        }
        Some(ip)
    } else {
        None
    }
}

// ---- IPv6 ----

/// The texts between the occurrences of a character.
pub open spec fn pieces(s: Seq<char>, c: char) -> Seq<Seq<char>>
    decreases s.len(),
{
    if s.len() == 0 {
        seq![Seq::empty()]
    } else {
        let before = pieces(s.drop_last(), c);
        if s.last() == c {
            before.push(Seq::empty())
        } else {
            before.update(before.len() - 1, before.last().push(s.last()))
        }
    }
}

/// One to four zeros.
pub open spec fn zero_group(g: Seq<char>) -> bool {
    1 <= g.len() <= 4 && forall|i: int| 0 <= i < g.len() ==> #[trigger] g[i] == '0'
}

/// A one with up to three zeros before it.
pub open spec fn one_group(g: Seq<char>) -> bool {
    1 <= g.len() <= 4 && g.last() == '1' && forall|i: int|
        0 <= i < g.len() - 1 ==> #[trigger] g[i] == '0'
}

/// The numbers zero and one in dotted notation, which can stand for the last two groups.
pub open spec fn dotted_end(g: Seq<char>) -> bool {
    g == "0.0.0.0"@ || g == "0.0.0.1"@
}

/// Whether `::` stands at the piece `k`, and nowhere else does a group lack.
pub open spec fn gap_at(p: Seq<Seq<char>>, k: int) -> bool {
    &&& 0 < k < p.len() - 1
    &&& p[k].len() == 0
    &&& forall|i: int|
        0 <= i < p.len() && (#[trigger] p[i]).len() == 0 ==> i == k || (i == 0 && k == 1) || (i
            == p.len() - 1 && k == p.len() - 2)
}

/// The number of groups that are written out, of pieces with a gap or without.
pub open spec fn groups_written(p: Seq<Seq<char>>, gap: bool) -> int {
    let extra: int = if dotted_end(p.last()) {
        1
    } else {
        0
    };
    let start: int = if p[0].len() == 0 {
        1
    } else {
        0
    };
    let end: int = if p.last().len() == 0 {
        1
    } else {
        0
    };
    if gap {
        p.len() - 1 - start - end + extra
    } else {
        p.len() + extra
    }
}

/// Whether a text is an IPv6 notation of `::`, which stands for none, or of `::1`, the machine
/// itself: eight groups of which all are zero, but for the last one, which may be one; `::` may
/// stand once for one or more of them.
pub open spec fn null_ipv6(s: Seq<char>) -> bool {
    let p = pieces(s, ':');
    &&& forall|i: int|
        0 <= i < p.len() - 1 ==> (#[trigger] p[i]).len() == 0 || zero_group(p[i])
    &&& p.last().len() == 0 || zero_group(p.last()) || one_group(p.last()) || dotted_end(p.last())
    &&& (forall|i: int| 0 <= i < p.len() ==> (#[trigger] p[i]).len() > 0) && groups_written(p, false)
        == 8 || (exists|k: int| gap_at(p, k)) && groups_written(p, true) <= 7
}

fn split_at_colons(s: &str) -> (r: Vec<Vec<char>>)
    ensures
        views_of(r@) == pieces(s@, ':'),
        r@.len() > 0,
{
    let chars: Vec<char> = chars_of(s);
    let mut out: Vec<Vec<char>> = Vec::new();
    let mut cur: Vec<char> = Vec::new();
    let mut i: usize = 0;
    assert(chars@.take(0) =~= Seq::empty());
    assert(views_of(out@).push(cur@) =~= pieces(chars@.take(0), ':'));
    while i < chars.len()
        invariant
            i <= chars.len(),
            chars@ == s@,
            views_of(out@).push(cur@) == pieces(chars@.take(i as int), ':'),
        decreases chars.len() - i,
    {
        let c: char = chars[i];
        let ghost before = views_of(out@);
        let ghost part = cur@;
        assert(chars@.take(i + 1).drop_last() =~= chars@.take(i as int));
        if c == ':' {
            out.push(cur);
            cur = Vec::new();
            assert(views_of(out@) =~= before.push(part));
        } else {
            cur.push(c);
            assert(before.push(part).update(before.len() as int, part.push(c)) =~= before.push(
                cur@,
            ));
        }
        i = i + 1;
    }
    assert(chars@.take(i as int) =~= s@);
    let ghost before = views_of(out@);
    let ghost part = cur@;
    out.push(cur);
    assert(views_of(out@) =~= before.push(part));
    out
}

/// The contents of lists of characters.
pub open spec fn views_of(list: Seq<Vec<char>>) -> Seq<Seq<char>> {
    Seq::new(list.len(), |i: int| list[i]@)
}

fn zeros_before(g: &Vec<char>, n: usize) -> (r: bool)
    requires
        n <= g.len(),
    ensures
        r == (forall|i: int| 0 <= i < n ==> #[trigger] g@[i] == '0'),
{
    let mut i: usize = 0;
    while i < n
        invariant
            i <= n <= g.len(),
            forall|j: int| 0 <= j < i ==> #[trigger] g@[j] == '0',
        decreases n - i,
    {
        if g[i] != '0' {
            return false;
        }
        i = i + 1;
    }
    true
}

fn is_zero_group(g: &Vec<char>) -> (r: bool)
    ensures
        r == zero_group(g@),
{
    1 <= g.len() && g.len() <= 4 && zeros_before(g, g.len())
}

fn is_one_group(g: &Vec<char>) -> (r: bool)
    ensures
        r == one_group(g@),
{
    1 <= g.len() && g.len() <= 4 && g[g.len() - 1] == '1' && zeros_before(g, g.len() - 1)
}

fn is_dotted_end(g: &Vec<char>) -> (r: bool)
    ensures
        r == dotted_end(g@),
{
    proof {
        reveal_strlit("0.0.0.0");
        reveal_strlit("0.0.0.1");
    }
    let fits: bool = g.len() == 7 && g[0] == '0' && g[1] == '.' && g[2] == '0' && g[3] == '.'
        && g[4] == '0' && g[5] == '.' && (g[6] == '0' || g[6] == '1');
    proof {
        if fits {
            if g@[6] == '0' {
                assert(g@ =~= "0.0.0.0"@);
            } else {
                assert(g@ =~= "0.0.0.1"@);
            }
        }
    }
    fits
}

/// Whether a text is an IPv6 notation of no address or of the machine itself.
pub fn is_null_ipv6(s: &str) -> (r: bool)
    ensures
        r == null_ipv6(s@),
{
    let list: Vec<Vec<char>> = split_at_colons(s);
    let ghost p = pieces(s@, ':');
    let n: usize = list.len();
    assert(forall|i: int| 0 <= i < n ==> #[trigger] p[i] == list@[i]@);
    let mut i: usize = 0;
    let mut inner: usize = 0;
    let mut at: usize = 0;
    while i < n - 1
        invariant
            0 < n == list.len() == p.len(),
            p == pieces(s@, ':'),
            i <= n - 1,
            inner <= i,
            forall|j: int| 0 <= j < n ==> #[trigger] p[j] == list@[j]@,
            forall|j: int| 0 <= j < i ==> (#[trigger] p[j]).len() == 0 || zero_group(p[j]),
            inner == 0 ==> forall|j: int| 0 < j < i ==> (#[trigger] p[j]).len() > 0,
            inner >= 1 ==> 0 < at < i && p[at as int].len() == 0,
            inner == 1 ==> forall|j: int| 0 < j < i && (#[trigger] p[j]).len() == 0 ==> j == at,
            inner >= 2 ==> exists|j: int|
                0 < j < i && j != at && (#[trigger] p[j]).len() == 0,
        decreases n - i,
    {
        assert(p[i as int] == list@[i as int]@);
        if list[i].len() == 0 {
            if i > 0 {
                proof {
                    if inner >= 1 {
                        assert(at != i && p[i as int].len() == 0);
                    }
                }
                if inner == 0 {
                    at = i;
                }
                inner = inner + 1;
            }
        } else if !is_zero_group(&list[i]) {
            return false;
        }
        i = i + 1;
    }
    let last: &Vec<char> = &list[n - 1];
    assert(p.last() == last@);
    assert(p[0] == list@[0]@);
    let dotted: bool = is_dotted_end(last);
    let extra: usize = if dotted { 1 } else { 0 };
    if !(last.len() == 0 || is_zero_group(last) || is_one_group(last) || dotted) {
        return false;
    }
    let open_start: bool = list[0].len() == 0;
    let open_end: bool = last.len() == 0;
    if inner == 0 {
        proof {
            assert(forall|k: int| !gap_at(p, k));
            if !open_start && !open_end {
                assert(forall|j: int| 0 <= j < p.len() ==> (#[trigger] p[j]).len() > 0);
            } else if open_start {
                assert(p[0].len() == 0);
            } else {
                assert(p[n - 1].len() == 0);
            }
        }
        return !open_start && !open_end && (n == 8 && !dotted || n == 7 && dotted);
    }
    if inner > 1 {
        proof {
            let j = choose|j: int| 0 < j < n - 1 && j != at && (#[trigger] p[j]).len() == 0;
            assert forall|k: int| !gap_at(p, k) by {
                if gap_at(p, k) {
                    assert(p[j].len() == 0 && p[at as int].len() == 0);
                }
            }
            assert(p[at as int].len() == 0);
        }
        return false;
    }
    let fits: bool = (!open_start || at == 1) && (!open_end || at == n - 2);
    proof {
        assert(p[at as int].len() == 0);
        if fits {
            assert(gap_at(p, at as int));
        } else {
            assert forall|k: int| !gap_at(p, k) by {
                if gap_at(p, k) {
                    assert(k == at);
                    assert(p[0].len() == 0 || p[n - 1].len() == 0);
                }
            }
        }
    }
    if !fits {
        return false;
    }
    let start: usize = if open_start { 1 } else { 0 };
    let end: usize = if open_end { 1 } else { 0 };
    n <= 10 && n - 1 + extra <= 7 + start + end
}

proof fn lemma_one_piece(s: Seq<char>, c: char)
    requires
        forall|i: int| 0 <= i < s.len() ==> #[trigger] s[i] != c,
    ensures
        pieces(s, c) == seq![s],
    decreases s.len(),
{
    if s.len() > 0 {
        let rest = s.drop_last();
        assert forall|i: int| 0 <= i < rest.len() implies #[trigger] rest[i] != c by {
            assert(rest[i] == s[i]);
        }
        lemma_one_piece(rest, c);
        assert(s[s.len() - 1] != c);
        assert(pieces(s, c) =~= seq![rest.push(s.last())]);
        assert(rest.push(s.last()) =~= s);
    } else {
        assert(s =~= Seq::empty());
    }
}

/// What has no colon is no IPv6 address of the machine itself, and so no IPv4 address is.
pub proof fn law_null_ipv6_has_colons(s: Seq<char>, ip: Ipv4)
    ensures
        (forall|i: int| 0 <= i < s.len() ==> #[trigger] s[i] != ':') ==> !null_ipv6(s),
        !null_ipv6(ip.dotted()),
{
    let t = ip.dotted();
    reveal_strlit(".");
    lemma_digits(ip.a as nat);
    lemma_digits(ip.b as nat);
    lemma_digits(ip.c as nat);
    lemma_digits(ip.d as nat);
    assert forall|i: int| 0 <= i < t.len() implies #[trigger] t[i] != ':' by {
        let (a, b, c, d) = (
            digits(ip.a as nat),
            digits(ip.b as nat),
            digits(ip.c as nat),
            digits(ip.d as nat),
        );
        let nb = a.len() + 1;
        let nc = nb + b.len() + 1;
        let nd = nc + c.len() + 1;
        if i < a.len() {
            assert(t[i] == a[i]);
        } else if i < nb {
            assert(t[i] == '.');
        } else if i < nb + b.len() {
            assert(t[i] == b[i - nb]);
        } else if i < nc {
            assert(t[i] == '.');
        } else if i < nc + c.len() {
            assert(t[i] == c[i - nc]);
        } else if i < nd {
            assert(t[i] == '.');
        } else {
            assert(t[i] == d[i - nd]);
        }
    }
    lemma_one_piece(t, ':');
    if forall|i: int| 0 <= i < s.len() ==> #[trigger] s[i] != ':' {
        lemma_one_piece(s, ':');
    }
}

/// Addresses are ordered by their bytes, the first one first.
pub proof fn law_address_order(x: Ipv4, y: Ipv4)
    ensures
        x.number() < y.number() <==> x.a < y.a || (x.a == y.a && (x.b < y.b || (x.b == y.b && (x.c
            < y.c || (x.c == y.c && x.d < y.d))))),
        x.reachable() <==> x.a != 127 && !(x.a == 0 && x.b == 0 && x.c == 0 && x.d == 0) && !(x.a
            == 169 && x.b == 254),
{
}

proof fn lemma_pieces_of_one_more(s: Seq<char>, c: char, x: char)
    ensures
        pieces(s, c).len() > 0,
        pieces(s.push(x), c) == (if x == c {
            pieces(s, c).push(Seq::empty())
        } else {
            pieces(s, c).update(pieces(s, c).len() - 1, pieces(s, c).last().push(x))
        }),
    decreases s.len(),
{
    assert(s.push(x).drop_last() =~= s);
    if s.len() > 0 {
        lemma_pieces_of_one_more(s.drop_last(), c, s.last());
        assert(s.drop_last().push(s.last()) =~= s);
    }
}

/// There is one piece more than there are separators, and no piece has one in it.
pub proof fn law_pieces_have_no_separator(s: Seq<char>, c: char)
    ensures
        pieces(s, c).len() == s.filter(|x: char| x == c).len() + 1,
        forall|i: int| 0 <= i < pieces(s, c).len() ==> !(#[trigger] pieces(s, c)[i]).contains(c),
    decreases s.len(),
{
    reveal(Seq::filter);
    if s.len() > 0 {
        let rest = s.drop_last();
        let before = pieces(rest, c);
        let after = pieces(s, c);
        law_pieces_have_no_separator(rest, c);
        lemma_pieces_of_one_more(rest, c, s.last());
        assert(rest.push(s.last()) =~= s);
        assert forall|i: int| 0 <= i < after.len() implies !(#[trigger] after[i]).contains(c) by {
            if s.last() == c {
                if i < before.len() {
                    assert(after[i] == before[i]);
                }
            } else if i == before.len() - 1 {
                let p = before[i].push(s.last());
                if p.contains(c) {
                    let k = choose|k: int| 0 <= k < p.len() && p[k] == c;
                    assert(before[i][k] == c);
                }
            } else {
                assert(after[i] == before[i]);
            }
        }
    }
}

/// Eight groups of zeros, of which the last may end in a one, stand for no other machine; a text
/// with any other digit before its last group does not stand for one that is none or the own one.
pub proof fn law_null_ipv6_is_zeros(s: Seq<char>, i: int, k: int)
    ensures
        ({
            let p = pieces(s, ':');
            &&& p.len() == 8 && zero_group(p[7]) && (forall|j: int|
                0 <= j < 7 ==> zero_group(#[trigger] p[j])) ==> null_ipv6(s)
            &&& p.len() == 8 && one_group(p[7]) && (forall|j: int|
                0 <= j < 7 ==> zero_group(#[trigger] p[j])) ==> null_ipv6(s)
            &&& 0 <= i < p.len() - 1 && 0 <= k < p[i].len() && p[i][k] != '0' ==> !null_ipv6(s)
            &&& p.len() > 9 ==> !null_ipv6(s)
        }),
        zero_group(s) ==> 1 <= s.len() <= 4 && s[0] == '0',
        one_group(s) ==> 1 <= s.len() <= 4 && s.last() == '1',
{
    let p = pieces(s, ':');
    if p.len() == 8 {
        assert(p.last() == p[7]);
        if (zero_group(p[7]) || one_group(p[7])) && forall|j: int|
            0 <= j < 7 ==> zero_group(#[trigger] p[j]) {
            assert(!dotted_end(p[7])) by {
                reveal_strlit("0.0.0.0");
                reveal_strlit("0.0.0.1");
                assert("0.0.0.0"@.len() == 7 && "0.0.0.1"@.len() == 7);
            }
            assert forall|j: int| 0 <= j < p.len() implies (#[trigger] p[j]).len() > 0 by {
                if j < 7 {
                    assert(zero_group(p[j]));
                }
            }
        }
    }
}

} // verus!
