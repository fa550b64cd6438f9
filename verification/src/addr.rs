//! Addresses and CIDR prefixes for the two address families.
//!
//! An address is a 32-bit or 128-bit unsigned integer. For matching, every
//! address is viewed as a 128-bit value whose significant bits are left
//! aligned, so that taking the first `len` bits works the same way for both
//! families.

use vstd::prelude::*;

use crate::text::{dec_str, hex_str, push_char, push_u16_hex, push_u64_dec};

verus! {

/// An IP address: one variant per address family.
#[derive(Clone, Copy, Debug, PartialEq, Eq, Structural)]
pub enum Addr {
    V4(u32),
    V6(u128),
}

/// A CIDR prefix: an address plus the number of leading bits that are
/// significant. Bits beyond `len` are kept as given but never affect
/// matching.
#[derive(Clone, Copy, Debug, PartialEq, Eq, Structural)]
pub struct Prefix {
    pub addr: Addr,
    pub len: u8,
}

impl Addr {
    /// Bit width of the address family this address belongs to.
    pub open spec fn spec_width(self) -> u8 {
        match self {
            Addr::V4(_) => 32,
            Addr::V6(_) => 128,
        }
    }

    /// The address bits, left aligned in a 128-bit value.
    pub open spec fn spec_bits(self) -> u128 {
        match self {
            Addr::V4(a) => (a as u128) << 96,
            Addr::V6(a) => a,
        }
    }

    /// Bit width of the address family this address belongs to.
    pub fn width(&self) -> (w: u8)
        ensures
            w == self.spec_width(),
    {
        match self {
            Addr::V4(_) => 32,
            Addr::V6(_) => 128,
        }
    }

    /// The address bits, left aligned in a 128-bit value.
    pub fn bits(&self) -> (b: u128)
        ensures
            b == self.spec_bits(),
    {
        match self {
            Addr::V4(a) => (*a as u128) << 96u128,
            Addr::V6(a) => *a,
        }
    }
}

/// The dotted-quad text of a 32-bit address.
pub open spec fn v4_text(a: u32) -> Seq<char> {
    dec_str(((a >> 24u32) & 0xFF) as nat) + seq!['.'] + dec_str(((a >> 16u32) & 0xFF) as nat)
        + seq!['.'] + dec_str(((a >> 8u32) & 0xFF) as nat) + seq!['.'] + dec_str((a & 0xFF) as nat)
}

/// One 16-bit group of a 128-bit address, counted from the left.
pub open spec fn v6_group(a: u128, k: nat) -> nat {
    ((a >> ((112 - 16 * k) as u128)) & 0xFFFF) as nat
}

/// The length of the run of zero groups starting at group `k`.
pub open spec fn zero_run_at(a: u128, k: nat) -> nat
    decreases 8 - k,
{
    if k >= 8 {
        0
    } else if v6_group(a, k) != 0 {
        0
    } else {
        1 + zero_run_at(a, k + 1)
    }
}

/// The start of the leftmost longest run of zero groups at or after `k`
/// (eight when no group is left).
pub open spec fn best_zero_run(a: u128, k: nat) -> nat
    decreases 8 - k,
{
    if k >= 8 {
        8
    } else {
        let rest = best_zero_run(a, k + 1);
        if zero_run_at(a, k) >= zero_run_at(a, rest) {
            k
        } else {
            rest
        }
    }
}

/// The hex groups `lo` up to `hi`, joined by colons.
pub open spec fn groups_text(a: u128, lo: nat, hi: nat) -> Seq<char>
    decreases hi - lo,
{
    if lo >= hi {
        Seq::empty()
    } else if hi - lo == 1 {
        hex_str(v6_group(a, lo))
    } else {
        groups_text(a, lo, (hi - 1) as nat) + seq![':'] + hex_str(v6_group(a, (hi - 1) as nat))
    }
}

/// Whether a 128-bit address embeds a 32-bit one in the mapped form: five
/// zero groups, one all-ones group, and the address itself.
pub open spec fn is_v4_mapped(a: u128) -> bool {
    &&& v6_group(a, 0) == 0
    &&& v6_group(a, 1) == 0
    &&& v6_group(a, 2) == 0
    &&& v6_group(a, 3) == 0
    &&& v6_group(a, 4) == 0
    &&& v6_group(a, 5) == 0xFFFF
}

/// The text of a 128-bit address: its 16-bit groups in lowercase
/// hexadecimal, with the leftmost longest run of at least two zero groups
/// compressed to a double colon, and an address that embeds a 32-bit one
/// written in the mapped form.
pub open spec fn v6_text(a: u128) -> Seq<char> {
    if is_v4_mapped(a) {
        "::ffff:"@ + v4_text((a & 0xFFFF_FFFF) as u32)
    } else {
        let st = best_zero_run(a, 0);
        if st < 8 && zero_run_at(a, st) >= 2 {
            groups_text(a, 0, st) + "::"@ + groups_text(a, st + zero_run_at(a, st), 8)
        } else {
            groups_text(a, 0, 8)
        }
    }
}

/// The text of an address.
pub open spec fn addr_text(a: Addr) -> Seq<char> {
    match a {
        Addr::V4(x) => v4_text(x),
        Addr::V6(x) => v6_text(x),
    }
}

/// The text of a prefix: the address, a slash, the length in decimal.
pub open spec fn prefix_text(p: Prefix) -> Seq<char> {
    addr_text(p.addr) + seq!['/'] + dec_str(p.len as nat)
}

/// One 16-bit group, from the left.
fn v6_group_exec(a: u128, k: u8) -> (g: u16)
    requires
        k < 8,
    ensures
        g as nat == v6_group(a, k as nat),
{
    let sh: u128 = (112 - 16 * (k as u128));
    proof {
        let x = a >> sh;
        assert(x & 0xFFFF < 65536) by (bit_vector);
    }
    ((a >> sh) & 0xFFFF) as u16
}

/// The length of the run of zero groups starting at group `k`.
fn zero_run_exec(a: u128, k: u8) -> (r: u8)
    requires
        k <= 8,
    ensures
        r as nat == zero_run_at(a, k as nat),
        r <= 8 - k,
    decreases 8 - k,
{
    if k >= 8 {
        0
    } else if v6_group_exec(a, k) != 0 {
        0
    } else {
        1 + zero_run_exec(a, k + 1)
    }
}

/// The start of the leftmost longest run of zero groups at or after `k`.
fn best_zero_run_exec(a: u128, k: u8) -> (r: u8)
    requires
        k <= 8,
    ensures
        r as nat == best_zero_run(a, k as nat),
        k <= r <= 8,
    decreases 8 - k,
{
    if k >= 8 {
        8
    } else {
        let rest = best_zero_run_exec(a, k + 1);
        if zero_run_exec(a, k) >= zero_run_exec(a, rest) {
            k
        } else {
            rest
        }
    }
}

/// Appends the hex groups `lo` up to `hi`, joined by colons.
fn push_groups(s: &mut String, a: u128, lo: u8, hi: u8)
    requires
        lo <= hi <= 8,
    ensures
        final(s)@ == old(s)@ + groups_text(a, lo as nat, hi as nat),
    decreases hi - lo,
{
    if lo >= hi {
        proof {
            assert(old(s)@ + groups_text(a, lo as nat, hi as nat) =~= old(s)@);
        }
    } else if hi - lo == 1 {
        push_u16_hex(s, v6_group_exec(a, lo));
    } else {
        push_groups(s, a, lo, hi - 1);
        push_char(s, ':');
        push_u16_hex(s, v6_group_exec(a, hi - 1));
    }
}

/// Appends the dotted-quad text of a 32-bit address.
fn push_v4_text(s: &mut String, a: u32)
    ensures
        final(s)@ == old(s)@ + v4_text(a),
{
    push_u64_dec(s, ((a >> 24u32) & 0xFF) as u64);
    push_char(s, '.');
    push_u64_dec(s, ((a >> 16u32) & 0xFF) as u64);
    push_char(s, '.');
    push_u64_dec(s, ((a >> 8u32) & 0xFF) as u64);
    push_char(s, '.');
    push_u64_dec(s, (a & 0xFF) as u64);
    proof {
        assert(s@ =~= old(s)@ + v4_text(a));
    }
}

impl Addr {
    /// The textual form of this address.
    pub fn to_string(&self) -> (r: String)
        ensures
            r@ == addr_text(*self),
    {
        match self {
            Addr::V4(a) => {
                let mut s = String::new();
                push_v4_text(&mut s, *a);
                proof {
                    assert(s@ =~= v4_text(*a));
                }
                s
            },
            Addr::V6(a) => {
                let a = *a;
                let mut s = String::new();
                let mapped = v6_group_exec(a, 0) == 0 && v6_group_exec(a, 1) == 0
                    && v6_group_exec(a, 2) == 0 && v6_group_exec(a, 3) == 0 && v6_group_exec(a, 4)
                    == 0 && v6_group_exec(a, 5) == 0xFFFF;
                if mapped {
                    s.append("::ffff:");
                    proof {
                        assert(a & 0xFFFF_FFFF <= u32::MAX) by (bit_vector);
                    }
                    push_v4_text(&mut s, (a & 0xFFFF_FFFF) as u32);
                    proof {
                        assert(s@ =~= v6_text(a));
                    }
                } else {
                    let st = best_zero_run_exec(a, 0);
                    let run = zero_run_exec(a, st);
                    if st < 8 && run >= 2 {
                        push_groups(&mut s, a, 0, st);
                        s.append("::");
                        push_groups(&mut s, a, st + run, 8);
                        proof {
                            assert(s@ =~= v6_text(a));
                        }
                    } else {
                        push_groups(&mut s, a, 0, 8);
                        proof {
                            assert(s@ =~= v6_text(a));
                        }
                    }
                }
                s
            },
        }
    }
}

impl Prefix {
    /// The textual form of this prefix.
    pub fn to_string(&self) -> (r: String)
        ensures
            r@ == prefix_text(*self),
    {
        let mut s = self.addr.to_string();
        push_char(&mut s, '/');
        push_u64_dec(&mut s, self.len as u64);
        proof {
            assert(s@ =~= prefix_text(*self));
        }
        s
    }
}

/// The position of the first dot at or after `from`.
fn find_dot(s: &str, from: usize) -> (r: Option<usize>)
    requires
        from <= s@.len(),
    ensures
        r matches Some(i) ==> from <= i < s@.len() && s@[i as int] == '.' && forall|j: int|
            from <= j < i ==> s@[j] != '.',
        r is None ==> forall|j: int| from <= j < s@.len() ==> s@[j] != '.',
{
    let n = s.unicode_len();
    let mut i: usize = from;
    while i < n
        invariant
            from <= i <= n == s@.len(),
            forall|j: int| from <= j < i ==> s@[j] != '.',
        decreases n - i,
    {
        if s.get_char(i) == '.' {
            return Some(i);
        }
        i = i + 1;
    }
    None
}

/// Reads the characters of `s` between `lo` and `hi` as one octet: the
/// canonical decimal text of a value up to 255.
fn parse_octet(s: &str, lo: usize, hi: usize) -> (r: Option<u8>)
    requires
        lo <= hi <= s@.len(),
    ensures
        r matches Some(o) ==> crate::text::is_canonical_dec(s@.subrange(lo as int, hi as int))
            && o as nat == crate::text::dec_val(s@.subrange(lo as int, hi as int)),
        r is None ==> !(crate::text::is_canonical_dec(s@.subrange(lo as int, hi as int))
            && crate::text::dec_val(s@.subrange(lo as int, hi as int)) <= 255),
{
    if lo == hi {
        return None;
    }
    let seg = s.substring_char(lo, hi);
    if seg.unicode_len() > 1 && seg.get_char(0) == '0' {
        return None;
    }
    match crate::text::parse_u64_dec(seg) {
        Some(v) => {
            if v <= 255 {
                Some(v as u8)
            } else {
                None
            }
        },
        None => None,
    }
}

/// In the text of a 32-bit address, the dots stand exactly between the
/// four octet renderings, and the pieces between them are those
/// renderings.
proof fn lemma_v4_text_dots(a: u32)
    ensures
        ({
            let t = v4_text(a);
            let s0 = dec_str(((a >> 24u32) & 0xFF) as nat);
            let s1 = dec_str(((a >> 16u32) & 0xFF) as nat);
            let s2 = dec_str(((a >> 8u32) & 0xFF) as nat);
            let s3 = dec_str((a & 0xFF) as nat);
            let p1 = s0.len() as int;
            let p2 = p1 + 1 + s1.len();
            let p3 = p2 + 1 + s2.len();
            &&& s0.len() >= 1 && s1.len() >= 1 && s2.len() >= 1 && s3.len() >= 1
            &&& t.len() == p3 + 1 + s3.len()
            &&& 0 <= p1 < p2 < p3 < t.len()
            &&& forall|j: int| 0 <= j < t.len() ==> (t[j] == '.' <==> (j == p1 || j == p2 || j == p3))
            &&& t.subrange(0, p1) == s0
            &&& t.subrange(p1 + 1, p2) == s1
            &&& t.subrange(p2 + 1, p3) == s2
            &&& t.subrange(p3 + 1, t.len() as int) == s3
        }),
{
    let t = v4_text(a);
    let s0 = dec_str(((a >> 24u32) & 0xFF) as nat);
    let s1 = dec_str(((a >> 16u32) & 0xFF) as nat);
    let s2 = dec_str(((a >> 8u32) & 0xFF) as nat);
    let s3 = dec_str((a & 0xFF) as nat);
    let p1 = s0.len() as int;
    let p2 = p1 + 1 + s1.len();
    let p3 = p2 + 1 + s2.len();
    crate::text::lemma_dec_str_is_digits(((a >> 24u32) & 0xFF) as nat);
    crate::text::lemma_dec_str_is_digits(((a >> 16u32) & 0xFF) as nat);
    crate::text::lemma_dec_str_is_digits(((a >> 8u32) & 0xFF) as nat);
    crate::text::lemma_dec_str_is_digits((a & 0xFF) as nat);
    assert forall|j: int| 0 <= j < t.len() implies (t[j] == '.' <==> (j == p1 || j == p2 || j
        == p3)) by {
        if j < p1 {
            assert(t[j] == s0[j]);
            assert(crate::text::is_dec_digit(s0[j]));
        } else if j > p1 && j < p2 {
            assert(t[j] == s1[j - p1 - 1]);
            assert(crate::text::is_dec_digit(s1[j - p1 - 1]));
        } else if j > p2 && j < p3 {
            assert(t[j] == s2[j - p2 - 1]);
            assert(crate::text::is_dec_digit(s2[j - p2 - 1]));
        } else if j > p3 {
            assert(t[j] == s3[j - p3 - 1]);
            assert(crate::text::is_dec_digit(s3[j - p3 - 1]));
        }
    }
    assert(t.subrange(0, p1) =~= s0);
    assert(t.subrange(p1 + 1, p2) =~= s1);
    assert(t.subrange(p2 + 1, p3) =~= s2);
    assert(t.subrange(p3 + 1, t.len() as int) =~= s3);
}

/// Reads the dotted-quad text of a 32-bit address: four decimal octets
/// without superfluous leading zeros, separated by dots. Returns the
/// address exactly when the input is the text of one.
#[verifier::rlimit(100)]
pub fn parse_v4(s: &str) -> (r: Option<u32>)
    ensures
        r matches Some(a) ==> s@ == v4_text(a),
        r is None ==> forall|a: u32| s@ != v4_text(a),
{
    let n = s.unicode_len();
    let d1 = match find_dot(s, 0) {
        Some(d) => d,
        None => {
            proof {
                assert forall|a: u32| s@ != v4_text(a) by {
                    if s@ == v4_text(a) {
                        lemma_v4_text_dots(a);
                        let p1 = dec_str(((a >> 24u32) & 0xFF) as nat).len() as int;
                        assert(s@[p1] == '.');
                    }
                }
            }
            return None;
        },
    };
    let d2 = match find_dot(s, d1 + 1) {
        Some(d) => d,
        None => {
            proof {
                assert forall|a: u32| s@ != v4_text(a) by {
                    if s@ == v4_text(a) {
                        let (p1, p2, p3) = v4_dot_positions(a);
                        lemma_v4_text_dots(a);
                        assert(s@[p1] == '.' && s@[p2] == '.' && s@[p3] == '.');
                        assert(d1 as int == p1 || d1 as int == p2 || d1 as int == p3);
                        assert(d1 as int == p1);
                        assert(s@[p2] != '.');
                    }
                }
            }
            return None;
        },
    };
    let d3 = match find_dot(s, d2 + 1) {
        Some(d) => d,
        None => {
            proof {
                assert forall|a: u32| s@ != v4_text(a) by {
                    if s@ == v4_text(a) {
                        let (p1, p2, p3) = v4_dot_positions(a);
                        lemma_v4_text_dots(a);
                        assert(s@[p1] == '.' && s@[p2] == '.' && s@[p3] == '.');
                        assert(d1 as int == p1 || d1 as int == p2 || d1 as int == p3);
                        assert(d1 as int == p1);
                        assert(d2 as int == p2 || d2 as int == p3);
                        assert(d2 as int == p2);
                        assert(s@[p3] != '.');
                    }
                }
            }
            return None;
        },
    };
    if let Some(d4) = find_dot(s, d3 + 1) {
        proof {
            assert forall|a: u32| s@ != v4_text(a) by {
                if s@ == v4_text(a) {
                    let (p1, p2, p3) = v4_dot_positions(a);
                    lemma_v4_text_dots(a);
                    assert(s@[p1] == '.' && s@[p2] == '.' && s@[p3] == '.');
                    assert(d1 as int == p1 || d1 as int == p2 || d1 as int == p3);
                    assert(d1 as int == p1);
                    assert(d2 as int == p2 || d2 as int == p3);
                    assert(d2 as int == p2);
                    assert(d3 as int == p3);
                    assert(d4 as int == p1 || d4 as int == p2 || d4 as int == p3);
                }
            }
        }
        return None;
    }
    let r0 = parse_octet(s, 0, d1);
    let r1 = parse_octet(s, d1 + 1, d2);
    let r2 = parse_octet(s, d2 + 1, d3);
    let r3 = parse_octet(s, d3 + 1, n);
    match (r0, r1, r2, r3) {
        (Some(o0), Some(o1), Some(o2), Some(o3)) => {
            let a = ((o0 as u32) << 24u32) | ((o1 as u32) << 16u32) | ((o2 as u32) << 8u32) | (
            o3 as u32);
            proof {
                let x0 = o0 as u32;
                let x1 = o1 as u32;
                let x2 = o2 as u32;
                let x3 = o3 as u32;
                assert((a >> 24u32) & 0xFF == x0 && (a >> 16u32) & 0xFF == x1 && (a >> 8u32) & 0xFF
                    == x2 && a & 0xFF == x3) by (bit_vector)
                    requires
                        a == (x0 << 24u32) | (x1 << 16u32) | (x2 << 8u32) | x3,
                        x0 < 256,
                        x1 < 256,
                        x2 < 256,
                        x3 < 256,
                ;
                crate::text::lemma_canonical_round_trip(s@.subrange(0, d1 as int));
                crate::text::lemma_canonical_round_trip(s@.subrange(d1 + 1, d2 as int));
                crate::text::lemma_canonical_round_trip(s@.subrange(d2 + 1, d3 as int));
                crate::text::lemma_canonical_round_trip(s@.subrange(d3 + 1, n as int));
                assert(s@ =~= v4_text(a));
            }
            Some(a)
        },
        _ => {
            proof {
                assert forall|a: u32| s@ != v4_text(a) by {
                    if s@ == v4_text(a) {
                        let (p1, p2, p3) = v4_dot_positions(a);
                        lemma_v4_text_dots(a);
                        let o0 = ((a >> 24u32) & 0xFF) as nat;
                        let o1 = ((a >> 16u32) & 0xFF) as nat;
                        let o2 = ((a >> 8u32) & 0xFF) as nat;
                        let o3 = (a & 0xFF) as nat;
                        assert(s@[p1] == '.' && s@[p2] == '.' && s@[p3] == '.');
                        assert(d1 as int == p1 || d1 as int == p2 || d1 as int == p3);
                        assert(d1 as int == p1);
                        assert(d2 as int == p2 || d2 as int == p3);
                        assert(d2 as int == p2);
                        assert(d3 as int == p3);
                        crate::text::lemma_dec_str_canonical(o0);
                        crate::text::lemma_dec_str_canonical(o1);
                        crate::text::lemma_dec_str_canonical(o2);
                        crate::text::lemma_dec_str_canonical(o3);
                        crate::text::lemma_dec_val_round_trip(o0);
                        crate::text::lemma_dec_val_round_trip(o1);
                        crate::text::lemma_dec_val_round_trip(o2);
                        crate::text::lemma_dec_val_round_trip(o3);
                        assert((a >> 24u32) & 0xFF < 256 && (a >> 16u32) & 0xFF < 256 && (a
                            >> 8u32) & 0xFF < 256 && a & 0xFF < 256) by (bit_vector);
                        assert(s@.subrange(0, d1 as int) == dec_str(o0));
                        assert(s@.subrange(d1 + 1, d2 as int) == dec_str(o1));
                        assert(s@.subrange(d2 + 1, d3 as int) == dec_str(o2));
                        assert(s@.subrange(d3 + 1, n as int) == dec_str(o3));
                    }
                }
            }
            None
        },
    }
}

/// The positions of the three dots in the text of a 32-bit address.
pub open spec fn v4_dot_positions(a: u32) -> (int, int, int) {
    let p1 = dec_str(((a >> 24u32) & 0xFF) as nat).len() as int;
    let p2 = p1 + 1 + dec_str(((a >> 16u32) & 0xFF) as nat).len();
    let p3 = p2 + 1 + dec_str(((a >> 8u32) & 0xFF) as nat).len();
    (p1, p2, p3)
}

/// The first `len` bits of `bits`, with everything below them cleared.
pub open spec fn mask_bits(bits: u128, len: u8) -> u128 {
    if len == 0 {
        0u128
    } else if len >= 128 {
        bits
    } else {
        (bits >> ((128 - len) as u128)) << ((128 - len) as u128)
    }
}

/// Executable counterpart of [`mask_bits`].
pub fn mask_bits_exec(bits: u128, len: u8) -> (r: u128)
    ensures
        r == mask_bits(bits, len),
{
    if len == 0 {
        0u128
    } else if len >= 128 {
        bits
    } else {
        let sh: u128 = (128 - len) as u128;
        (bits >> sh) << sh
    }
}

impl Prefix {
    pub fn new(addr: Addr, len: u8) -> (r: Self)
        ensures
            r.addr == addr,
            r.len == len,
    {
        Prefix { addr, len }
    }

    /// The key a prefix is stored under: its first `len` address bits.
    pub open spec fn spec_key(self) -> u128 {
        mask_bits(self.addr.spec_bits(), self.len)
    }

    /// Whether `self` covers `other`: same family, `self` at most as long,
    /// and the first `self.len` address bits equal.
    pub open spec fn spec_covers(self, other: Prefix) -> bool {
        &&& self.addr.spec_width() == other.addr.spec_width()
        &&& self.len <= other.len
        &&& mask_bits(self.addr.spec_bits(), self.len) == mask_bits(
            other.addr.spec_bits(),
            self.len,
        )
    }
}

} // verus!
