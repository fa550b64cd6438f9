//! Small text utilities: string equality, decimal rendering and decimal
//! parsing, each against an exact specification.

use vstd::prelude::*;

verus! {

/// Relies on String::push from std: appends exactly the given character to
/// the end of the string.
#[verifier::external_body]
pub(crate) fn push_char(s: &mut String, c: char)
    ensures
        final(s)@ == old(s)@.push(c),
{
    s.push(c)
}

/// String equality over the character sequences of two string slices.
pub fn str_eq(a: &str, b: &str) -> (r: bool)
    ensures
        r == (a@ == b@),
{
    let x = a.to_owned();
    let y = b.to_owned();
    x == y
}

/// The decimal digit character for a value below ten.
pub open spec fn dec_digit(d: nat) -> char {
    if d == 0 {
        '0'
    } else if d == 1 {
        '1'
    } else if d == 2 {
        '2'
    } else if d == 3 {
        '3'
    } else if d == 4 {
        '4'
    } else if d == 5 {
        '5'
    } else if d == 6 {
        '6'
    } else if d == 7 {
        '7'
    } else if d == 8 {
        '8'
    } else {
        '9'
    }
}

/// The decimal rendering of a natural number, without leading zeros
/// (except for the number zero itself).
pub open spec fn dec_str(n: nat) -> Seq<char>
    decreases n,
{
    if n < 10 {
        seq![dec_digit(n)]
    } else {
        dec_str(n / 10).push(dec_digit(n % 10))
    }
}

fn digit_char(d: u8) -> (c: char)
    requires
        d < 10,
    ensures
        c == dec_digit(d as nat),
{
    match d {
        0 => '0',
        1 => '1',
        2 => '2',
        3 => '3',
        4 => '4',
        5 => '5',
        6 => '6',
        7 => '7',
        8 => '8',
        _ => '9',
    }
}

/// Appends the decimal rendering of `n` to `s`.
pub fn push_u64_dec(s: &mut String, n: u64)
    ensures
        final(s)@ == old(s)@ + dec_str(n as nat),
    decreases n,
{
    if n < 10 {
        push_char(s, digit_char(n as u8));
    } else {
        push_u64_dec(s, n / 10);
        push_char(s, digit_char((n % 10) as u8));
    }
}

/// The decimal rendering of `n` as a fresh string.
pub fn u64_to_string(n: u64) -> (r: String)
    ensures
        r@ == dec_str(n as nat),
{
    let mut s = String::new();
    push_u64_dec(&mut s, n);
    s
}

/// The lowercase hexadecimal digit character for a value below sixteen.
pub open spec fn hex_digit(d: nat) -> char {
    if d < 10 {
        dec_digit(d)
    } else if d == 10 {
        'a'
    } else if d == 11 {
        'b'
    } else if d == 12 {
        'c'
    } else if d == 13 {
        'd'
    } else if d == 14 {
        'e'
    } else {
        'f'
    }
}

/// The lowercase hexadecimal rendering of a natural number, without
/// leading zeros (except for the number zero itself).
pub open spec fn hex_str(n: nat) -> Seq<char>
    decreases n,
{
    if n < 16 {
        seq![hex_digit(n)]
    } else {
        hex_str(n / 16).push(hex_digit(n % 16))
    }
}

fn hex_digit_char(d: u8) -> (c: char)
    requires
        d < 16,
    ensures
        c == hex_digit(d as nat),
{
    match d {
        0 => '0',
        1 => '1',
        2 => '2',
        3 => '3',
        4 => '4',
        5 => '5',
        6 => '6',
        7 => '7',
        8 => '8',
        9 => '9',
        10 => 'a',
        11 => 'b',
        12 => 'c',
        13 => 'd',
        14 => 'e',
        _ => 'f',
    }
}

/// Appends the lowercase hexadecimal rendering of `n` to `s`.
pub fn push_u16_hex(s: &mut String, n: u16)
    ensures
        final(s)@ == old(s)@ + hex_str(n as nat),
    decreases n,
{
    if n < 16 {
        push_char(s, hex_digit_char(n as u8));
    } else {
        push_u16_hex(s, n / 16);
        push_char(s, hex_digit_char((n % 16) as u8));
    }
}

/// Whether `c` is a decimal digit.
pub open spec fn is_dec_digit(c: char) -> bool {
    '0' <= c && c <= '9'
}

/// The value of a decimal digit character.
pub open spec fn digit_val(c: char) -> nat {
    (c as nat - '0' as nat) as nat
}

/// Whether a character sequence is a non-empty run of decimal digits.
pub open spec fn is_dec_seq(s: Seq<char>) -> bool {
    s.len() > 0 && forall|i: int| 0 <= i < s.len() ==> is_dec_digit(#[trigger] s[i])
}

/// The numeric value of a run of decimal digits.
pub open spec fn dec_val(s: Seq<char>) -> nat
    decreases s.len(),
{
    if s.len() == 0 {
        0
    } else {
        dec_val(s.drop_last()) * 10 + digit_val(s.last())
    }
}

/// The value of a digit run never drops when the run is extended on the
/// right.
proof fn lemma_dec_val_prefix_le(s: Seq<char>, i: int)
    requires
        0 <= i <= s.len(),
    ensures
        dec_val(s.subrange(0, i)) <= dec_val(s),
    decreases s.len() - i,
{
    if i < s.len() {
        let t = s.subrange(0, i + 1);
        assert(t.drop_last() =~= s.subrange(0, i));
        lemma_dec_val_prefix_le(s, i + 1);
        assert(s.subrange(0, s.len() as int) =~= s);
    } else {
        assert(s.subrange(0, i) =~= s);
    }
}

/// Whether a digit run is the canonical rendering of its value: non-empty,
/// and without a leading zero unless it is the single digit zero.
pub open spec fn is_canonical_dec(t: Seq<char>) -> bool {
    is_dec_seq(t) && (t.len() == 1 || t[0] != '0')
}

/// Every character of a decimal rendering is a digit.
pub proof fn lemma_dec_str_is_digits(n: nat)
    ensures
        dec_str(n).len() >= 1,
        forall|k: int| 0 <= k < dec_str(n).len() ==> is_dec_digit(#[trigger] dec_str(n)[k]),
    decreases n,
{
    if n >= 10 {
        lemma_dec_str_is_digits(n / 10);
    }
}

/// A decimal rendering is canonical: it never starts with a superfluous
/// zero.
pub proof fn lemma_dec_str_canonical(n: nat)
    ensures
        is_canonical_dec(dec_str(n)),
        n >= 10 ==> dec_str(n).len() >= 2,
    decreases n,
{
    lemma_dec_str_is_digits(n);
    if n >= 10 {
        lemma_dec_str_canonical(n / 10);
        assert(dec_str(n)[0] == dec_str(n / 10)[0]);
    }
}

/// Reading a decimal rendering back gives the value it was made from.
pub proof fn lemma_dec_val_round_trip(n: nat)
    ensures
        dec_val(dec_str(n)) == n,
    decreases n,
{
    if n < 10 {
        assert(dec_str(n).drop_last() =~= Seq::<char>::empty());
        assert(dec_val(Seq::<char>::empty()) == 0);
        assert(digit_val(dec_digit(n)) == n);
        assert(dec_str(n).last() == dec_digit(n));
    } else {
        lemma_dec_val_round_trip(n / 10);
        assert(dec_str(n).drop_last() =~= dec_str(n / 10));
        assert(dec_str(n).last() == dec_digit(n % 10));
        assert(digit_val(dec_digit(n % 10)) == n % 10);
    }
}

/// A digit run that does not start with a zero has a positive value.
proof fn lemma_dec_val_pos(t: Seq<char>)
    requires
        is_dec_seq(t),
        t[0] != '0',
    ensures
        dec_val(t) >= 1,
    decreases t.len(),
{
    if t.len() == 1 {
        assert(digit_val(t[0]) >= 1);
    } else {
        assert(is_dec_seq(t.drop_last()));
        assert(t.drop_last()[0] == t[0]);
        lemma_dec_val_pos(t.drop_last());
    }
}

/// Rendering the value of a canonical digit run gives the run back.
pub proof fn lemma_canonical_round_trip(t: Seq<char>)
    requires
        is_canonical_dec(t),
    ensures
        dec_str(dec_val(t)) == t,
    decreases t.len(),
{
    if t.len() == 1 {
        assert(t.drop_last() =~= Seq::<char>::empty());
        assert(dec_val(Seq::<char>::empty()) == 0);
        assert(t.last() == t[0]);
        assert(dec_val(t) == digit_val(t[0]));
        assert(dec_digit(digit_val(t[0])) == t[0]);
        assert(dec_str(dec_val(t)) =~= t);
    } else {
        let p = t.drop_last();
        assert(is_dec_seq(p));
        assert(p[0] == t[0]);
        assert(is_canonical_dec(p));
        lemma_canonical_round_trip(p);
        lemma_dec_val_pos(p);
        let v = dec_val(t);
        let d = digit_val(t.last());
        assert(v == dec_val(p) * 10 + d);
        assert(v / 10 == dec_val(p) && v % 10 == d) by (nonlinear_arith)
            requires
                v == dec_val(p) * 10 + d,
                d < 10,
        ;
        assert(v >= 10);
        assert(dec_digit(digit_val(t.last())) == t.last());
        assert(dec_str(v) =~= t);
    }
}

/// Parses a non-empty run of decimal digits as a `u64`. Returns `None`
/// exactly when the input is not such a run or its value does not fit.
pub fn parse_u64_dec(s: &str) -> (r: Option<u64>)
    ensures
        r matches Some(v) ==> is_dec_seq(s@) && v as nat == dec_val(s@),
        r is None ==> !is_dec_seq(s@) || dec_val(s@) > u64::MAX,
{
    let n = s.unicode_len();
    if n == 0 {
        return None;
    }
    let mut val: u64 = 0;
    let mut i: usize = 0;
    while i < n
        invariant
            0 < n == s@.len(),
            0 <= i <= n,
            forall|j: int| 0 <= j < i ==> is_dec_digit(#[trigger] s@[j]),
            val as nat == dec_val(s@.subrange(0, i as int)),
        decreases n - i,
    {
        let c = s.get_char(i);
        let cv = c as u32;
        if cv < 48 || cv > 57 {
            assert(!is_dec_digit(s@[i as int]));
            return None;
        }
        let d = (cv - 48) as u64;
        assert(d == digit_val(s@[i as int]));
        if val > (u64::MAX - d) / 10 {
            proof {
                assert(s@.subrange(0, i + 1).drop_last() =~= s@.subrange(0, i as int));
                assert(dec_val(s@.subrange(0, i + 1)) == val * 10 + d);
                assert(val * 10 + d > u64::MAX) by (nonlinear_arith)
                    requires
                        val > (u64::MAX - d) / 10,
                        d < 10,
                ;
                lemma_dec_val_prefix_le(s@, i + 1);
            }
            return None;
        }
        proof {
            assert(s@.subrange(0, i + 1).drop_last() =~= s@.subrange(0, i as int));
            assert(val * 10 + d <= u64::MAX) by (nonlinear_arith)
                requires
                    val <= (u64::MAX - d) / 10,
                    d < 10,
            ;
        }
        val = val * 10 + d;
        i = i + 1;
    }
    proof {
        assert(s@.subrange(0, n as int) =~= s@);
    }
    Some(val)
}

} // verus!
