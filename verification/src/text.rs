//! Building text.

use vstd::arithmetic::div_mod::lemma_fundamental_div_mod_converse;
use vstd::prelude::*;
use vstd::string::{StrSliceExecFns, StringExecFns};

verus! {

/// An owned copy of a text.
pub(crate) fn owned(s: &str) -> (r: String)
    ensures
        r@ == s@,
{
    s.to_owned()
}

/// Two texts, one after the other.
pub(crate) fn join(a: &str, b: &str) -> (r: String)
    ensures
        r@ == a@ + b@,
{
    let mut r = a.to_owned();
    r.append(b);
    r
}

/// A copy of an optional text.
pub(crate) fn dup_text(s: &Option<String>) -> (r: Option<String>)
    ensures
        r == *s,
{
    match s {
        Some(s) => Some(s.clone()),
        None => None,
    }
}

/// What an optional text holds.
pub open spec fn opt_text(s: Option<String>) -> Option<Seq<char>> {
    match s {
        Some(s) => Some(s@),
        None => None,
    }
}

/// The texts of a sequence.
pub open spec fn texts(s: Seq<String>) -> Seq<Seq<char>> {
    Seq::new(s.len(), |x: int| s[x]@)
}

/// Whether a text occurs in another at a position.
pub open spec fn occurs_at(s: Seq<char>, part: Seq<char>, at: int) -> bool {
    0 <= at && at + part.len() <= s.len() && s.subrange(at, at + part.len()) == part
}

fn matches_at(s: &str, part: &str, at: usize) -> (r: bool)
    requires
        at + part@.len() <= s@.len(),
    ensures
        r == occurs_at(s@, part@, at as int),
{
    let total: usize = s.unicode_len();
    let n: usize = part.unicode_len();
    let mut i: usize = 0;
    while i < n
        invariant
            i <= n,
            n == part@.len(),
            at + n <= total,
            total == s@.len(),
            forall|j: int| 0 <= j < i ==> s@[at + j] == #[trigger] part@[j],
        decreases n - i,
    {
        if s.get_char(at + i) != part.get_char(i) {
            assert(s@.subrange(at as int, at + n)[i as int] != part@[i as int]);
            return false;
        }
        i = i + 1;
    }
    assert(s@.subrange(at as int, at + n) =~= part@);
    true
}

pub(crate) fn starts_with(s: &str, part: &str) -> (r: bool)
    ensures
        r == occurs_at(s@, part@, 0),
{
    if part.unicode_len() > s.unicode_len() {
        return false;
    }
    matches_at(s, part, 0)
}

/// A text without its ending, where it ends that way.
pub open spec fn without_suffix(s: Seq<char>, suffix: Seq<char>) -> Option<Seq<char>> {
    if occurs_at(s, suffix, s.len() - suffix.len()) {
        Some(s.take(s.len() - suffix.len()))
    } else {
        None
    }
}

pub(crate) fn strip_suffix(s: &str, suffix: &str) -> (r: Option<String>)
    ensures
        opt_text(r) == without_suffix(s@, suffix@),
{
    let n: usize = s.unicode_len();
    let m: usize = suffix.unicode_len();
    if m > n || !matches_at(s, suffix, n - m) {
        return None;
    }
    let r = owned(s.substring_char(0, n - m));
    assert(r@ =~= s@.take(s@.len() - suffix@.len()));
    Some(r)
}

/// Whether a text occurs somewhere in another.
pub open spec fn occurs_in(s: Seq<char>, part: Seq<char>) -> bool {
    exists|at: int| occurs_at(s, part, at)
}

pub(crate) fn contains(s: &str, part: &str) -> (r: bool)
    ensures
        r == occurs_in(s@, part@),
{
    let n: usize = s.unicode_len();
    let m: usize = part.unicode_len();
    if m > n {
        return false;
    }
    let mut at: usize = 0;
    while at <= n - m
        invariant
            at <= n - m + 1,
            n == s@.len(),
            m == part@.len(),
            m <= n,
            forall|x: int| 0 <= x < at ==> !occurs_at(s@, part@, x),
        decreases n - m + 1 - at,
    {
        if matches_at(s, part, at) {
            return true;
        }
        if at == n - m {
            return false;
        }
        at = at + 1;
    }
    false
}

/// A decimal digit.
pub open spec fn digit(n: nat) -> char {
    if n == 0 {
        '0'
    } else if n == 1 {
        '1'
    } else if n == 2 {
        '2'
    } else if n == 3 {
        '3'
    } else if n == 4 {
        '4'
    } else if n == 5 {
        '5'
    } else if n == 6 {
        '6'
    } else if n == 7 {
        '7'
    } else if n == 8 {
        '8'
    } else {
        '9'
    }
}

/// A number in decimal notation.
pub open spec fn decimal(n: nat) -> Seq<char>
    decreases n,
{
    if n < 10 {
        seq![digit(n)]
    } else {
        decimal(n / 10).push(digit(n % 10))
    }
}

fn push_digit(s: &mut String, n: u64)
    requires
        n < 10,
    ensures
        final(s)@ == old(s)@.push(digit(n as nat)),
{
    proof {
        reveal_strlit("0");
        reveal_strlit("1");
        reveal_strlit("2");
        reveal_strlit("3");
        reveal_strlit("4");
        reveal_strlit("5");
        reveal_strlit("6");
        reveal_strlit("7");
        reveal_strlit("8");
        reveal_strlit("9");
    }
    let ghost s0 = s@;
    if n == 0 {
        s.append("0");
    } else if n == 1 {
        s.append("1");
    } else if n == 2 {
        s.append("2");
    } else if n == 3 {
        s.append("3");
    } else if n == 4 {
        s.append("4");
    } else if n == 5 {
        s.append("5");
    } else if n == 6 {
        s.append("6");
    } else if n == 7 {
        s.append("7");
    } else if n == 8 {
        s.append("8");
    } else {
        s.append("9");
    }
    assert(s@ =~= s0.push(digit(n as nat)));
}

/// Appends a number in decimal notation.
pub(crate) fn push_decimal(s: &mut String, n: u64)
    ensures
        final(s)@ == old(s)@ + decimal(n as nat),
    decreases n,
{
    let ghost s0 = s@;
    if n < 10 {
        push_digit(s, n);
        assert(s@ =~= s0 + decimal(n as nat));
    } else {
        push_decimal(s, n / 10);
        push_digit(s, n % 10);
        assert(s@ =~= s0 + decimal(n as nat));
    }
}

/// An IPv4 address in dotted notation.
pub open spec fn ipv4_text(addr: u32) -> Seq<char> {
    decimal((addr / 0x100_0000) as nat) + "."@ + decimal(((addr / 0x1_0000) % 0x100) as nat) + "."@ + decimal(
        ((addr / 0x100) % 0x100) as nat,
    ) + "."@ + decimal((addr % 0x100) as nat)
}

/// Appends an IPv4 address in dotted notation.
pub(crate) fn push_ipv4(s: &mut String, addr: u32)
    ensures
        final(s)@ == old(s)@ + ipv4_text(addr),
{
    let ghost s0 = s@;
    push_decimal(s, (addr / 0x100_0000) as u64);
    s.append(".");
    push_decimal(s, ((addr / 0x1_0000) % 0x100) as u64);
    s.append(".");
    push_decimal(s, ((addr / 0x100) % 0x100) as u64);
    s.append(".");
    push_decimal(s, (addr % 0x100) as u64);
    assert(s@ =~= s0 + ipv4_text(addr));
}

// ===== laws =====

/// Digits are the characters from zero on, in order.
pub proof fn digits_count_from_zero(n: nat)
    requires
        n < 10,
    ensures
        digit(n) as int == '0' as int + n,
{
}

/// A number with one more digit is written with that digit at the end.
pub proof fn decimals_write_digits_in_order(n: nat, d: nat)
    requires
        d < 10,
    ensures
        decimal(d) == seq![digit(d)],
        n > 0 ==> decimal(n * 10 + d) == decimal(n).push(digit(d)),
{
    assert((n * 10 + d) / 10 == n);
    assert((n * 10 + d) % 10 == d);
}

proof fn octets_make_up_a_number(a: int, b: int, c: int, d: int, n: int)
    requires
        0 <= a < 0x100,
        0 <= b < 0x100,
        0 <= c < 0x100,
        0 <= d < 0x100,
        n == a * 0x100_0000 + b * 0x1_0000 + c * 0x100 + d,
    ensures
        0 <= n <= u32::MAX,
        n / 0x100_0000 == a,
        (n / 0x1_0000) % 0x100 == b,
        (n / 0x100) % 0x100 == c,
        n % 0x100 == d,
{
    lemma_fundamental_div_mod_converse(n, 0x100_0000, a, b * 0x1_0000 + c * 0x100 + d);
    lemma_fundamental_div_mod_converse(n, 0x1_0000, a * 0x100 + b, c * 0x100 + d);
    lemma_fundamental_div_mod_converse(a * 0x100 + b, 0x100, a, b);
    lemma_fundamental_div_mod_converse(n, 0x100, a * 0x1_0000 + b * 0x100 + c, d);
    lemma_fundamental_div_mod_converse(a * 0x1_0000 + b * 0x100 + c, 0x100, a * 0x100 + b, c);
}

/// An IPv4 address is written by its octets, with dots between them.
pub proof fn ipv4_addresses_are_written_by_octet(a: u8, b: u8, c: u8, d: u8, addr: u32)
    requires
        addr == a * 0x100_0000 + b * 0x1_0000 + c * 0x100 + d,
    ensures
        ipv4_text(addr) == decimal(a as nat) + "."@ + decimal(b as nat) + "."@ + decimal(c as nat) + "."@ + decimal(
            d as nat,
        ),
{
    octets_make_up_a_number(a as int, b as int, c as int, d as int, addr as int);
}

/// Whatever stands before or after a part, the part occurs in it, and where it stands last
/// it can be taken off.
pub proof fn parts_are_found(a: Seq<char>, part: Seq<char>, b: Seq<char>)
    ensures
        occurs_at(a + part + b, part, a.len() as int),
        occurs_in(a + part + b, part),
        without_suffix(a + part, part) == Some(a),
        part.len() > a.len() ==> !occurs_in(a, part) && without_suffix(a, part) is None,
{
    let s = a + part + b;
    assert(s.subrange(a.len() as int, a.len() as int + part.len()) =~= part);
    assert(occurs_at(s, part, a.len() as int));
    let t = a + part;
    assert(t.subrange(t.len() - part.len(), t.len() as int) =~= part);
    assert(t.take(t.len() - part.len()) =~= a);
}

} // verus!
