//! Unsigned integers written as digit strings: the parsing `str::parse` and
//! `from_str_radix` do, and decimal formatting.

use vstd::prelude::*;

verus! {

/// Value of one digit in `radix` (10 or 16); None when `c` is no digit.
pub open spec fn digit_val(c: char, radix: nat) -> Option<nat> {
    if '0' <= c && c <= '9' {
        Some((c as nat - '0' as nat) as nat)
    } else if radix == 16 && 'a' <= c && c <= 'f' {
        Some((c as nat - 'a' as nat + 10) as nat)
    } else if radix == 16 && 'A' <= c && c <= 'F' {
        Some((c as nat - 'A' as nat + 10) as nat)
    } else {
        None
    }
}

/// Every character of `s` is a digit in `radix`.
pub open spec fn all_digits(s: Seq<char>, radix: nat) -> bool {
    forall|i: int| 0 <= i < s.len() ==> (#[trigger] digit_val(s[i], radix)) is Some
}

/// The number a digit sequence denotes (most significant digit first).
pub open spec fn digits_value(s: Seq<char>, radix: nat) -> nat
    decreases s.len(),
{
    if s.len() == 0 {
        0
    } else {
        digits_value(s.drop_last(), radix) * radix + match digit_val(s.last(), radix) {
            Some(d) => d,
            None => 0,
        }
    }
}

/// What `u*::from_str_radix` (and `str::parse` for radix 10) returns for an
/// unsigned type whose largest value is `max`: an optional `+`, then one or
/// more digits, denoting a value not above `max`.
pub open spec fn parse_uint(s: Seq<char>, radix: nat, max: nat) -> Option<nat> {
    let d = if s.len() > 0 && s[0] == '+' { s.drop_first() } else { s };
    if d.len() == 0 || !all_digits(d, radix) || digits_value(d, radix) > max {
        None
    } else {
        Some(digits_value(d, radix))
    }
}

/// The decimal digit character for `d < 10`.
pub open spec fn digit_char(d: nat) -> char {
    if d == 0 { '0' } else if d == 1 { '1' } else if d == 2 { '2' } else if d == 3 { '3' }
    else if d == 4 { '4' } else if d == 5 { '5' } else if d == 6 { '6' } else if d == 7 { '7' }
    else if d == 8 { '8' } else { '9' }
}

/// The decimal representation of `n`, as `to_string` writes it.
pub open spec fn dec(n: nat) -> Seq<char>
    decreases n,
{
    if n < 10 {
        seq![digit_char(n)]
    } else {
        dec(n / 10).push(digit_char(n % 10))
    }
}

proof fn lemma_digits_value_prefix(s: Seq<char>, k: int, radix: nat)
    requires
        0 <= k <= s.len(),
        radix >= 1,
        all_digits(s, radix),
    ensures
        digits_value(s.subrange(0, k), radix) <= digits_value(s, radix),
    decreases s.len() - k,
{
    if k < s.len() {
        let t = s.drop_last();
        assert(all_digits(t, radix)) by {
            assert forall|i: int| 0 <= i < t.len() implies (#[trigger] digit_val(t[i], radix)) is Some by {
                assert(t[i] == s[i]);
            }
        }
        lemma_digits_value_prefix(t, k, radix);
        assert(t.subrange(0, k) =~= s.subrange(0, k));
        let a = digits_value(t, radix);
        assert(a <= a * radix) by (nonlinear_arith)
            requires
                radix >= 1,
        ;
    } else {
        assert(s.subrange(0, k) =~= s);
    }
}

/// The digit value of one character, as `char::to_digit` gives it.
fn digit_of(c: char, radix: u32) -> (r: Option<u32>)
    requires
        radix == 10 || radix == 16,
    ensures
        match r {
            Some(d) => digit_val(c, radix as nat) == Some(d as nat) && d < radix,
            None => digit_val(c, radix as nat) is None,
        },
{
    if '0' <= c && c <= '9' {
        Some((c as u32) - ('0' as u32))
    } else if radix == 16 && 'a' <= c && c <= 'f' {
        Some((c as u32) - ('a' as u32) + 10)
    } else if radix == 16 && 'A' <= c && c <= 'F' {
        Some((c as u32) - ('A' as u32) + 10)
    } else {
        None
    }
}

/// Parses an unsigned number with the rules of `from_str_radix`, for a
/// type whose largest value is `max`.
pub fn parse_uint_chars(s: &[char], radix: u32, max: u64) -> (r: Option<u64>)
    requires
        radix == 10 || radix == 16,
    ensures
        match parse_uint(s@, radix as nat, max as nat) {
            Some(v) => r == Some(v as u64),
            None => r is None,
        },
{
    let start: usize = if s.len() > 0 && s[0] == '+' { 1 } else { 0 };
    let ghost d = if s@.len() > 0 && s@[0] == '+' { s@.drop_first() } else { s@ };
    assert(d =~= s@.subrange(start as int, s@.len() as int));
    if start == s.len() {
        return None;
    }
    let mut v: u64 = 0;
    let mut i: usize = start;
    let mut over = false;
    while i < s.len()
        invariant
            start <= i <= s@.len(),
            d == s@.subrange(start as int, s@.len() as int),
            d == (if s@.len() > 0 && s@[0] == '+' { s@.drop_first() } else { s@ }),
            radix == 10 || radix == 16,
            forall|k: int| start <= k < i ==> (#[trigger] digit_val(s@[k], radix as nat)) is Some,
            !over ==> v as nat == digits_value(s@.subrange(start as int, i as int), radix as nat),
            !over ==> v <= max,
            over ==> digits_value(s@.subrange(start as int, i as int), radix as nat) > max,
        decreases s.len() - i,
    {
        let ghost pre = s@.subrange(start as int, i as int);
        let ghost nxt = s@.subrange(start as int, i + 1);
        assert(nxt.drop_last() =~= pre);
        assert(nxt.last() == s@[i as int]);
        match digit_of(s[i], radix) {
            None => {
                proof {
                    assert(d[i - start] == s@[i as int]);
                    assert(digit_val(d[i - start], radix as nat) is None);
                    assert(!all_digits(d, radix as nat));
                    assert(parse_uint(s@, radix as nat, max as nat) is None);
                }
                return None;
            },
            Some(dg) => {
                let ghost old_val = digits_value(pre, radix as nat);
                if over {
                    assert(old_val * (radix as nat) + dg >= old_val) by (nonlinear_arith)
                        requires
                            radix >= 1,
                    ;
                } else if v > max / (radix as u64) {
                    assert(v * (radix as nat) > max) by (nonlinear_arith)
                        requires
                            v > max / (radix as u64),
                            radix >= 1,
                    ;
                    over = true;
                } else {
                    assert(v * (radix as nat) <= max) by (nonlinear_arith)
                        requires
                            v <= max / (radix as u64),
                            radix >= 1,
                    ;
                    let m = v * (radix as u64);
                    if (dg as u64) > max || m > max - (dg as u64) {
                        over = true;
                    } else {
                        v = m + (dg as u64);
                    }
                }
            },
        }
        i = i + 1;
    }
    assert(s@.subrange(start as int, s@.len() as int) =~= d);
    if over {
        proof {
            assert(all_digits(d, radix as nat)) by {
                assert forall|k: int| 0 <= k < d.len() implies (#[trigger] digit_val(d[k], radix as nat)) is Some by {
                    assert(d[k] == s@[k + start]);
                }
            }
        }
        return None;
    }
    proof {
        assert forall|k: int| 0 <= k < d.len() implies (#[trigger] digit_val(d[k], radix as nat)) is Some by {
            assert(d[k] == s@[k + start]);
        }
    }
    Some(v)
}

/// Appends the decimal representation of `n`.
pub fn push_dec(s: &mut String, n: u64)
    ensures
        final(s)@ == old(s)@ + dec(n as nat),
    decreases n,
{
    if n >= 10 {
        push_dec(s, n / 10);
    }
    let c = char_from_digit((n % 10) as u32);
    crate::text::push_char(s, c);
    proof {
        if n < 10 {
            assert(dec(n as nat) =~= seq![digit_char(n as nat)]);
        }
    }
}

/// The decimal digit character for `d < 10`.
fn char_from_digit(d: u32) -> (c: char)
    requires
        d < 10,
    ensures
        c == digit_char(d as nat),
{
    if d == 0 { '0' } else if d == 1 { '1' } else if d == 2 { '2' } else if d == 3 { '3' }
    else if d == 4 { '4' } else if d == 5 { '5' } else if d == 6 { '6' } else if d == 7 { '7' }
    else if d == 8 { '8' } else { '9' }
}

/// The decimal representation of `n`.
pub fn dec_string(n: u64) -> (s: String)
    ensures
        s@ == dec(n as nat),
{
    let mut s = String::new();
    push_dec(&mut s, n);
    assert(s@ =~= dec(n as nat));
    s
}

proof fn lemma_digit_char(d: nat)
    requires
        d < 10,
    ensures
        digit_val(digit_char(d), 10) == Some(d),
        digit_char(d) != '+',
{
}

proof fn lemma_dec_digits(n: nat)
    ensures
        dec(n).len() >= 1,
        all_digits(dec(n), 10),
        digits_value(dec(n), 10) == n,
        dec(n)[0] != '+',
    decreases n,
{
    if n >= 10 {
        lemma_dec_digits(n / 10);
        lemma_digit_char(n % 10);
        let t = dec(n / 10);
        let s = t.push(digit_char(n % 10));
        assert(s.drop_last() =~= t);
        assert forall|i: int| 0 <= i < s.len() implies (#[trigger] digit_val(s[i], 10)) is Some by {
            if i < t.len() {
                assert(s[i] == t[i]);
            }
        }
        assert(s[0] == t[0]);
        assert(s.last() == digit_char(n % 10));
        assert(dec(n) == s);
        assert(digits_value(s, 10) == digits_value(t, 10) * 10 + n % 10);
    } else {
        lemma_digit_char(n);
        let s = seq![digit_char(n)];
        assert(s.drop_last() =~= Seq::<char>::empty());
        assert(digits_value(Seq::<char>::empty(), 10) == 0);
        assert(dec(n) == s);
        assert(s.last() == digit_char(n));
    }
}

/// Writing a number in decimal and parsing it back gives the number again,
/// for every type wide enough to hold it.
pub proof fn lemma_parse_dec_round_trip(n: nat, max: nat)
    requires
        n <= max,
    ensures
        parse_uint(dec(n), 10, max) == Some(n),
{
    lemma_dec_digits(n);
}

/// What `i64::from_str` returns: an optional sign, then one or more
/// digits, the value in range (down to -2^63).
pub open spec fn parse_int(s: Seq<char>) -> Option<int> {
    if s.len() > 0 && s[0] == '-' {
        let rest = s.drop_first();
        if rest.len() > 0 && rest[0] == '+' {
            None
        } else {
            match parse_uint(rest, 10, 0x8000_0000_0000_0000) {
                Some(v) => Some(-v),
                None => None,
            }
        }
    } else {
        match parse_uint(s, 10, 0x7fff_ffff_ffff_ffff) {
            Some(v) => Some(v as int),
            None => None,
        }
    }
}

/// The decimal representation of a signed number: a `-` before negative
/// ones.
pub open spec fn signed_dec(n: int) -> Seq<char> {
    if n < 0 {
        seq!['-'] + dec((-n) as nat)
    } else {
        dec(n as nat)
    }
}

/// Parses a signed 64-bit number as `i64::from_str` does.
pub fn parse_i64_chars(s: &[char]) -> (r: Option<i64>)
    ensures
        match parse_int(s@) {
            Some(v) => r == Some(v as i64),
            None => r is None,
        },
{
    if s.len() > 0 && s[0] == '-' {
        let rest = crate::text::sub_chars(s, 1, s.len());
        assert(rest@ =~= s@.drop_first());
        if rest.len() > 0 && rest[0] == '+' {
            return None;
        }
        match parse_uint_chars(rest.as_slice(), 10, 0x8000_0000_0000_0000) {
            Some(v) => {
                if v == 0x8000_0000_0000_0000 {
                    Some(i64::MIN)
                } else {
                    Some(-(v as i64))
                }
            },
            None => None,
        }
    } else {
        match parse_uint_chars(s, 10, 0x7fff_ffff_ffff_ffff) {
            Some(v) => Some(v as i64),
            None => None,
        }
    }
}

/// The decimal representation of a signed 64-bit number.
pub fn signed_dec_string(n: i64) -> (s: String)
    ensures
        s@ == signed_dec(n as int),
{
    if n < 0 {
        let m: u64 = if n == i64::MIN { 0x8000_0000_0000_0000 } else { (-n) as u64 };
        let mut s = String::new();
        crate::text::push_char(&mut s, '-');
        push_dec(&mut s, m);
        assert(s@ =~= seq!['-'] + dec((-n) as nat));
        s
    } else {
        dec_string(n as u64)
    }
}

/// The first character of a decimal representation is a digit.
pub proof fn lemma_dec_first(n: nat)
    ensures
        dec(n).len() > 0,
        '0' <= dec(n)[0] <= '9',
    decreases n,
{
    if n >= 10 {
        lemma_dec_first(n / 10);
        assert(dec(n)[0] == dec(n / 10)[0]);
    } else {
        assert(dec(n) == seq![digit_char(n)]);
    }
}

/// Writing a signed number in decimal and parsing it back gives the number
/// again.
pub proof fn lemma_signed_round_trip(n: i64)
    ensures
        parse_int(signed_dec(n as int)) == Some(n as int),
{
    if n < 0 {
        let m = (-(n as int)) as nat;
        lemma_parse_dec_round_trip(m, 0x8000_0000_0000_0000);
        lemma_dec_first(m);
        let s = signed_dec(n as int);
        assert(s.drop_first() =~= dec(m));
    } else {
        lemma_parse_dec_round_trip(n as nat, 0x7fff_ffff_ffff_ffff);
        lemma_dec_first(n as nat);
    }
}

} // verus!
