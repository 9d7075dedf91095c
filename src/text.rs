//! Character-level helpers shared by the value codecs: digits in base ten and
//! sixteen, searching for a character, and the round trip between an integer
//! and its digits.
use vstd::prelude::*;
use vstd::std_specs::iter::IteratorSpec;
use vstd::string::*;

verus! {

/// Whether `c` is a digit in base `base` (ten or sixteen; both letter cases).
pub open spec fn is_radix_digit(c: char, base: nat) -> bool {
    if base == 16 {
        ('0' <= c && c <= '9') || ('a' <= c && c <= 'f') || ('A' <= c && c <= 'F')
    } else {
        '0' <= c && c <= '9'
    }
}

/// The value of a digit character.
pub open spec fn digit_value(c: char) -> nat {
    if '0' <= c && c <= '9' {
        (c as u32 - '0' as u32) as nat
    } else if 'a' <= c && c <= 'f' {
        (c as u32 - 'a' as u32 + 10) as nat
    } else if 'A' <= c && c <= 'F' {
        (c as u32 - 'A' as u32 + 10) as nat
    } else {
        0
    }
}

/// Whether every character of `s` is a digit in base `base`.
pub open spec fn all_radix_digits(s: Seq<char>, base: nat) -> bool {
    forall|i: int| 0 <= i < s.len() ==> is_radix_digit(#[trigger] s[i], base)
}

/// The value of the digit string `s`, most significant digit first.
pub open spec fn radix_value(s: Seq<char>, base: nat) -> nat
    decreases s.len(),
{
    if s.len() == 0 {
        0
    } else {
        radix_value(s.drop_last(), base) * base + digit_value(s.last())
    }
}

/// The lowercase digit character for `d < 16`.
pub open spec fn digit_char(d: nat) -> char {
    if d == 0 { '0' } else if d == 1 { '1' } else if d == 2 { '2' } else if d == 3 { '3' }
    else if d == 4 { '4' } else if d == 5 { '5' } else if d == 6 { '6' } else if d == 7 { '7' }
    else if d == 8 { '8' } else if d == 9 { '9' } else if d == 10 { 'a' } else if d == 11 { 'b' }
    else if d == 12 { 'c' } else if d == 13 { 'd' } else if d == 14 { 'e' } else { 'f' }
}

/// The shortest digit string of `n` in base `base`, lowercase, without a sign.
/// Any base but sixteen is taken as ten.
pub open spec fn radix_text(n: nat, base: nat) -> Seq<char>
    decreases n,
{
    if base == 16 {
        if n < 16 {
            seq![digit_char(n)]
        } else {
            radix_text(n / 16, base).push(digit_char(n % 16))
        }
    } else {
        if n < 10 {
            seq![digit_char(n)]
        } else {
            radix_text(n / 10, base).push(digit_char(n % 10))
        }
    }
}

pub proof fn lemma_digit_char(d: nat, base: nat)
    requires
        d < base,
        base == 10 || base == 16,
    ensures
        digit_value(digit_char(d)) == d,
        is_radix_digit(digit_char(d), base),
{
}

/// Shorthand for the decimal text of `n`.
pub open spec fn decimal_text(n: nat) -> Seq<char> {
    radix_text(n, 10)
}

/// A string of one or more digits of base `base` whose value fits in a `u64`.
pub open spec fn digits_fit(s: Seq<char>, base: nat) -> bool {
    &&& s.len() > 0
    &&& all_radix_digits(s, base)
    &&& radix_value(s, base) <= u64::MAX
}

/// The index of the first `c` in `s`, if any.
pub open spec fn find_char(s: Seq<char>, c: char) -> Option<nat>
    decreases s.len(),
{
    if s.len() == 0 {
        None
    } else if s[0] == c {
        Some(0)
    } else {
        match find_char(s.drop_first(), c) {
            Some(i) => Some(i + 1),
            None => None,
        }
    }
}

pub proof fn lemma_find_char_some(s: Seq<char>, c: char, i: int)
    requires
        0 <= i < s.len(),
        s[i] == c,
        forall|j: int| 0 <= j < i ==> s[j] != c,
    ensures
        find_char(s, c) == Some(i as nat),
    decreases i,
{
    if i > 0 {
        lemma_find_char_some(s.drop_first(), c, i - 1);
    }
}

pub proof fn lemma_find_char_none(s: Seq<char>, c: char)
    requires
        forall|j: int| 0 <= j < s.len() ==> s[j] != c,
    ensures
        find_char(s, c) is None,
    decreases s.len(),
{
    if s.len() > 0 {
        lemma_find_char_none(s.drop_first(), c);
    }
}

/// What `find_char` returns, as a property of the string.
pub proof fn lemma_find_char_facts(s: Seq<char>, c: char)
    ensures
        find_char(s, c) matches Some(i) ==> i < s.len() && s[i as int] == c && forall|j: int|
            0 <= j < i ==> s[j] != c,
        find_char(s, c) is None ==> forall|j: int| 0 <= j < s.len() ==> s[j] != c,
    decreases s.len(),
{
    if s.len() > 0 {
        lemma_find_char_facts(s.drop_first(), c);
        if s[0] != c {
            assert forall|j: int| 0 < j < s.len() implies s[j] == s.drop_first()[j - 1] by {}
        }
    }
}

/// Finds the first `c` in `s`.
pub fn find_char_in(s: &str, c: char) -> (r: Option<usize>)
    ensures
        r matches Some(i) ==> find_char(s@, c) == Some(i as nat) && i < s@.len(),
        r is None ==> find_char(s@, c) is None,
{
    let n = s.unicode_len();
    let mut i: usize = 0;
    while i < n
        invariant
            n == s@.len(),
            i <= n,
            forall|j: int| 0 <= j < i ==> s@[j] != c,
        decreases n - i,
    {
        if s.get_char(i) == c {
            proof {
                lemma_find_char_some(s@, c, i as int);
            }
            return Some(i);
        }
        i = i + 1;
    }
    proof {
        lemma_find_char_none(s@, c);
    }
    None
}

/// Whether `s` contains `c`.
pub open spec fn contains_char(s: Seq<char>, c: char) -> bool {
    exists|i: int| 0 <= i < s.len() && s[i] == c
}

pub proof fn lemma_contains_find(s: Seq<char>, c: char)
    ensures
        contains_char(s, c) <==> find_char(s, c) is Some,
{
    lemma_find_char_facts(s, c);
    if let Some(i) = find_char(s, c) {
        assert(s[i as int] == c);
    }
}

proof fn lemma_radix_value_step(s: Seq<char>, i: int, base: nat)
    requires
        0 <= i < s.len(),
    ensures
        radix_value(s.subrange(0, i + 1), base) == radix_value(s.subrange(0, i), base) * base
            + digit_value(s[i]),
{
    assert(s.subrange(0, i + 1).drop_last() =~= s.subrange(0, i));
}

proof fn lemma_radix_value_grows(s: Seq<char>, i: int, base: nat)
    requires
        0 <= i <= s.len(),
        base >= 1,
    ensures
        radix_value(s.subrange(0, i), base) <= radix_value(s, base),
    decreases s.len() - i,
{
    if i < s.len() {
        lemma_radix_value_step(s, i, base);
        lemma_radix_value_grows(s, i + 1, base);
        assert(radix_value(s.subrange(0, i), base) <= radix_value(s.subrange(0, i), base) * base)
            by (nonlinear_arith)
            requires base >= 1;
    } else {
        assert(s.subrange(0, i) =~= s);
    }
}

/// The value of one digit character, for a character known to be a digit.
fn digit_of(c: char) -> (r: u64)
    requires
        is_radix_digit(c, 16),
    ensures
        r == digit_value(c),
        r < 16,
{
    if '0' <= c && c <= '9' {
        (c as u32 - '0' as u32) as u64
    } else if 'a' <= c && c <= 'f' {
        (c as u32 - 'a' as u32 + 10) as u64
    } else {
        (c as u32 - 'A' as u32 + 10) as u64
    }
}

/// Parses `s` as digits of base ten or sixteen. Fails on an empty string, on
/// any character that is not a digit (no sign, no prefix), and on a value over
/// `u64::MAX`.
pub fn parse_digits(s: &str, base: u64) -> (r: Option<u64>)
    requires
        base == 10 || base == 16,
    ensures
        r matches Some(v) ==> digits_fit(s@, base as nat) && v == radix_value(s@, base as nat),
        r is None ==> !digits_fit(s@, base as nat),
{
    let n = s.unicode_len();
    if n == 0 {
        return None;
    }
    let mut acc: u64 = 0;
    let mut i: usize = 0;
    while i < n
        invariant
            base == 10 || base == 16,
            n == s@.len(),
            i <= n,
            all_radix_digits(s@.subrange(0, i as int), base as nat),
            acc == radix_value(s@.subrange(0, i as int), base as nat),
        decreases n - i,
    {
        let c = s.get_char(i);
        if !(('0' <= c && c <= '9') || (base == 16 && (('a' <= c && c <= 'f') || ('A' <= c
            && c <= 'F')))) {
            assert(!is_radix_digit(s@[i as int], base as nat));
            return None;
        }
        let d = digit_of(c);
        proof {
            lemma_radix_value_step(s@, i as int, base as nat);
        }
        if base == 10 && d >= 10 {
            return None;
        }
        let limit: u64 = (u64::MAX - d) / base;
        if acc > limit {
            proof {
                assert(acc * base + d > u64::MAX) by (nonlinear_arith)
                    requires
                        acc > limit,
                        limit == (u64::MAX - d) as int / base as int,
                        base >= 10,
                        d < 16;
                if all_radix_digits(s@, base as nat) {
                    lemma_radix_value_grows(s@, i + 1, base as nat);
                }
            }
            return None;
        }
        assert(acc * base + d <= u64::MAX) by (nonlinear_arith)
            requires
                acc <= limit,
                limit == (u64::MAX - d) as int / base as int,
                base >= 10,
                d < 16;
        acc = acc * base + d;
        assert(all_radix_digits(s@.subrange(0, i + 1), base as nat)) by {
            assert forall|j: int| 0 <= j < i + 1 implies is_radix_digit(
                #[trigger] s@.subrange(0, i + 1)[j],
                base as nat,
            ) by {
                if j < i {
                    assert(s@.subrange(0, i + 1)[j] == s@.subrange(0, i as int)[j]);
                }
            }
        }
        i = i + 1;
    }
    assert(s@.subrange(0, n as int) =~= s@);
    Some(acc)
}

/// The one-character string of digit `d`.
pub fn digit_str(d: u64) -> (r: &'static str)
    requires
        d < 16,
    ensures
        r@ == seq![digit_char(d as nat)],
{
    proof {
        reveal_strlit("0"); reveal_strlit("1"); reveal_strlit("2"); reveal_strlit("3");
        reveal_strlit("4"); reveal_strlit("5"); reveal_strlit("6"); reveal_strlit("7");
        reveal_strlit("8"); reveal_strlit("9"); reveal_strlit("a"); reveal_strlit("b");
        reveal_strlit("c"); reveal_strlit("d"); reveal_strlit("e"); reveal_strlit("f");
    }
    match d {
        0 => "0", 1 => "1", 2 => "2", 3 => "3", 4 => "4", 5 => "5", 6 => "6", 7 => "7",
        8 => "8", 9 => "9", 10 => "a", 11 => "b", 12 => "c", 13 => "d", 14 => "e", _ => "f",
    }
}

/// The digits of `n` in base ten or sixteen (lowercase), without a prefix.
pub fn format_radix(n: u64, base: u64) -> (r: String)
    requires
        base == 10 || base == 16,
    ensures
        r@ == radix_text(n as nat, base as nat),
    decreases n,
{
    if n < base {
        String::from_str(digit_str(n))
    } else {
        let mut s = format_radix(n / base, base);
        s.append(digit_str(n % base));
        s
    }
}

/// The digits of a number parse back to it.
pub proof fn lemma_radix_round_trip(n: nat, base: nat)
    requires
        base == 10 || base == 16,
    ensures
        radix_text(n, base).len() > 0,
        all_radix_digits(radix_text(n, base), base),
        radix_value(radix_text(n, base), base) == n,
        radix_text(n, base).last() != '%' && radix_text(n, base).last() != ':',
    decreases n,
{
    if n < base {
        lemma_digit_char(n, base);
        let t = radix_text(n, base);
        assert(t == seq![digit_char(n)]);
        assert(t.drop_last() =~= Seq::<char>::empty());
        assert(radix_value(t.drop_last(), base) == 0);
        assert(radix_value(t, base) == 0 * base + digit_value(digit_char(n)));
    } else {
        lemma_digit_char(n % base, base);
        lemma_radix_round_trip(n / base, base);
        let t = radix_text(n, base);
        assert(t == radix_text(n / base, base).push(digit_char(n % base)));
        assert(t.drop_last() =~= radix_text(n / base, base));
        assert(n == (n / base) * base + n % base) by (nonlinear_arith)
            requires base > 0;
        assert(radix_value(t, base) == radix_value(t.drop_last(), base) * base + digit_value(
            digit_char(n % base),
        ));
        assert forall|i: int| 0 <= i < t.len() implies is_radix_digit(#[trigger] t[i], base) by {
            if i < t.len() - 1 {
                assert(t[i] == radix_text(n / base, base)[i]);
            }
        }
    }
}

/// The index of the last `c` in `s`, if any.
pub open spec fn rfind_char(s: Seq<char>, c: char) -> Option<nat>
    decreases s.len(),
{
    if s.len() == 0 {
        None
    } else if s.last() == c {
        Some((s.len() - 1) as nat)
    } else {
        rfind_char(s.drop_last(), c)
    }
}

proof fn lemma_rfind_char_some(s: Seq<char>, c: char, i: int)
    requires
        0 <= i < s.len(),
        s[i] == c,
        forall|j: int| i < j < s.len() ==> s[j] != c,
    ensures
        rfind_char(s, c) == Some(i as nat),
    decreases s.len(),
{
    if i < s.len() - 1 {
        lemma_rfind_char_some(s.drop_last(), c, i);
    }
}

proof fn lemma_rfind_char_none(s: Seq<char>, c: char)
    requires
        forall|j: int| 0 <= j < s.len() ==> s[j] != c,
    ensures
        rfind_char(s, c) is None,
    decreases s.len(),
{
    if s.len() > 0 {
        lemma_rfind_char_none(s.drop_last(), c);
    }
}

/// Finds the last `c` in `s`.
pub fn rfind_char_in(s: &str, c: char) -> (r: Option<usize>)
    ensures
        r matches Some(i) ==> rfind_char(s@, c) == Some(i as nat) && i < s@.len(),
        r is None ==> rfind_char(s@, c) is None,
{
    let n = s.unicode_len();
    let mut i: usize = n;
    while i > 0
        invariant
            n == s@.len(),
            i <= n,
            forall|j: int| i <= j < n ==> s@[j] != c,
        decreases i,
    {
        if s.get_char(i - 1) == c {
            proof {
                lemma_rfind_char_some(s@, c, i - 1);
            }
            return Some(i - 1);
        }
        i = i - 1;
    }
    proof {
        lemma_rfind_char_none(s@, c);
    }
    None
}

/// Whether `s` begins with `p`.
pub open spec fn has_prefix(s: Seq<char>, p: Seq<char>) -> bool {
    p.len() <= s.len() && s.subrange(0, p.len() as int) == p
}

/// Whether `s` begins with `p`.
pub fn starts_with(s: &str, p: &str) -> (r: bool)
    ensures
        r == has_prefix(s@, p@),
{
    let n = s.unicode_len();
    let m = p.unicode_len();
    if m > n {
        return false;
    }
    let mut i: usize = 0;
    while i < m
        invariant
            n == s@.len(),
            m == p@.len(),
            m <= n,
            i <= m,
            forall|j: int| 0 <= j < i ==> s@[j] == p@[j],
        decreases m - i,
    {
        if s.get_char(i) != p.get_char(i) {
            assert(s@.subrange(0, m as int)[i as int] != p@[i as int]);
            return false;
        }
        i = i + 1;
    }
    assert(s@.subrange(0, m as int) =~= p@);
    true
}

/// Whether `a` and `b` hold the same characters.
pub fn str_eq(a: &str, b: &str) -> (r: bool)
    ensures
        r == (a@ == b@),
{
    if a.unicode_len() != b.unicode_len() {
        return false;
    }
    let r = starts_with(a, b);
    assert(a@ =~= a@.subrange(0, b@.len() as int));
    r
}

/// Where `a` holds no `c`, the first `c` of `a + [c] + b` is the one between
/// them, and splitting there gives back `a` and `b`.
pub proof fn lemma_split_at_sep(a: Seq<char>, c: char, b: Seq<char>)
    requires
        !contains_char(a, c),
    ensures
        find_char(a + seq![c] + b, c) == Some(a.len()),
        (a + seq![c] + b).subrange(0, a.len() as int) == a,
        (a + seq![c] + b).subrange(a.len() as int + 1, (a + seq![c] + b).len() as int) == b,
{
    let s = a + seq![c] + b;
    assert forall|j: int| 0 <= j < a.len() implies s[j] != c by {
        assert(s[j] == a[j]);
    }
    lemma_find_char_some(s, c, a.len() as int);
    assert(s.subrange(0, a.len() as int) =~= a);
    assert(s.subrange(a.len() as int + 1, s.len() as int) =~= b);
}

/// A string of digits holds no character that is not a digit.
pub proof fn lemma_digits_lack_char(s: Seq<char>, base: nat, c: char)
    requires
        all_radix_digits(s, base),
        !is_radix_digit(c, base),
    ensures
        !contains_char(s, c),
{
}

/// The value of a two-digit string.
pub proof fn lemma_two_digit_value(p: Seq<char>, base: nat)
    requires
        p.len() == 2,
    ensures
        radix_value(p, base) == digit_value(p[0]) * base + digit_value(p[1]),
        base == 16 && is_radix_digit(p[0], 16) && is_radix_digit(p[1], 16) ==> radix_value(p, base)
            < 256,
{
    let q = p.drop_last();
    assert(q.drop_last() =~= Seq::<char>::empty());
    assert(q.last() == p[0]);
    assert(radix_value(q.drop_last(), base) == 0);
    assert(radix_value(q, base) == radix_value(q.drop_last(), base) * base + digit_value(q.last()));
    assert(radix_value(q, base) == digit_value(p[0]));
    assert(radix_value(p, base) == radix_value(q, base) * base + digit_value(p.last()));
    if base == 16 && is_radix_digit(p[0], 16) && is_radix_digit(p[1], 16) {
        assert(digit_value(p[0]) < 16 && digit_value(p[1]) < 16);
        assert(digit_value(p[0]) * 16 + digit_value(p[1]) < 256) by (nonlinear_arith)
            requires digit_value(p[0]) < 16, digit_value(p[1]) < 16;
    }
}

/// The characters of `s`, in one pass.
pub fn chars_of(s: &str) -> (r: Vec<char>)
    ensures
        r@ == s@,
{
    broadcast use vstd::string::axiom_spec_iter, vstd::string::next_postcondition;

    let mut it = s.chars();
    let mut v: Vec<char> = Vec::new();
    assert(v@ + it.remaining() =~= s@);
    loop
        invariant
            v@ + it.remaining() == s@,
            it.obeys_prophetic_iter_laws(),
            it.decrease() is Some,
        ensures
            v@ == s@,
        decreases it.decrease()->0,
    {
        let ghost before = it.remaining();
        match it.next() {
            Some(c) => {
                let ghost old_v = v@;
                v.push(c);
                assert(v@ + it.remaining() =~= old_v + before);
            },
            None => {
                assert(v@ =~= s@);
                break;
            },
        }
    }
    v
}

/// The text without one leading `+`.
pub open spec fn strip_plus(s: Seq<char>) -> Seq<char> {
    if s.len() > 0 && s[0] == '+' {
        s.drop_first()
    } else {
        s
    }
}

/// An unsigned integer's text: one optional `+`, then one or more digits of
/// base `base` whose value fits in a `u64`.
pub open spec fn parses_as_u64(s: Seq<char>, base: nat) -> bool {
    digits_fit(strip_plus(s), base)
}

/// The value of an unsigned integer's text.
pub open spec fn u64_value(s: Seq<char>, base: nat) -> nat {
    radix_value(strip_plus(s), base)
}

/// Parses `s` as an unsigned integer of base ten or sixteen: one optional
/// leading `+`, then digits; see [`parses_as_u64`].
pub fn parse_radix(s: &str, base: u64) -> (r: Option<u64>)
    requires
        base == 10 || base == 16,
    ensures
        r matches Some(v) ==> parses_as_u64(s@, base as nat) && v == u64_value(s@, base as nat),
        r is None ==> !parses_as_u64(s@, base as nat),
{
    let n = s.unicode_len();
    if n > 0 && s.get_char(0) == '+' {
        assert(s@.subrange(1, n as int) =~= s@.drop_first());
        parse_digits(s.substring_char(1, n), base)
    } else {
        parse_digits(s, base)
    }
}

/// Digits do not begin with `+`, so they read the same with or without the
/// optional sign.
pub proof fn lemma_strip_plus_digits(s: Seq<char>, base: nat)
    requires
        s.len() > 0,
        all_radix_digits(s, base),
    ensures
        strip_plus(s) == s,
{
    assert(is_radix_digit(s[0], base));
}

} // verus!
