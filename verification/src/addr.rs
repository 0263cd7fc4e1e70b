use vstd::prelude::*;

use crate::parse::{
    lemma_split_len, spec_all_dec_digits, spec_all_hex_digits, spec_dec_value, spec_hex_value,
    spec_split, split_bytes,
};

verus! {

/// An IP address, held as its numeric value: 32 bits for version 4,
/// 128 bits for version 6.
#[derive(Clone, Copy, PartialEq, Eq, Structural, Debug)]
pub enum IpAddress {
    V4(u32),
    V6(u128),
}

/// The caller's address as resolved for one request: either taken from a
/// trusted proxy header or from the transport-level peer address.
#[derive(Clone, Copy, PartialEq, Eq, Structural, Debug)]
pub struct ClientAddr {
    pub ip: IpAddress,
}

/// Whether a version-6 value is an IPv4-mapped address
/// (`::ffff:a.b.c.d`): the top 96 bits are `::ffff`.
pub open spec fn spec_is_v4_mapped(bits: u128) -> bool {
    bits >> 32 == 0xffffu128
}

impl IpAddress {
    /// The canonical form of an address: an IPv4-mapped version-6 address
    /// collapses to the version-4 address it embeds; everything else is
    /// already canonical.
    pub open spec fn spec_canonical(self) -> IpAddress {
        match self {
            IpAddress::V4(bits) => IpAddress::V4(bits),
            IpAddress::V6(bits) => if spec_is_v4_mapped(bits) {
                IpAddress::V4((bits & 0xffff_ffff) as u32)
            } else {
                IpAddress::V6(bits)
            },
        }
    }

    /// Canonicalizes the address, collapsing the IPv4-mapped form.
    pub fn to_canonical(&self) -> (canonical: IpAddress)
        ensures
            canonical == self.spec_canonical(),
    {
        match self {
            IpAddress::V4(bits) => IpAddress::V4(*bits),
            IpAddress::V6(bits) => {
                if *bits >> 32 == 0xffffu128 {
                    IpAddress::V4((*bits & 0xffff_ffff) as u32)
                } else {
                    IpAddress::V6(*bits)
                }
            },
        }
    }

    /// The number of bits that pin this address down exactly: 32 for a
    /// version-4 address, 128 for a version-6 one.
    pub open spec fn spec_host_prefix(self) -> u8 {
        match self {
            IpAddress::V4(_) => 32,
            IpAddress::V6(_) => 128,
        }
    }

}

/// Whether `s` is the text of one dotted-quad octet: one to three decimal
/// digits, no leading zero, value at most 255.
pub open spec fn spec_is_octet_text(s: Seq<u8>) -> bool {
    &&& 1 <= s.len() <= 3
    &&& spec_all_dec_digits(s)
    &&& spec_dec_value(s) <= 255
    &&& s.len() > 1 ==> s[0] != 48
}

/// The value of a version-4 address literal: four octets separated by
/// dots, most significant first; anything else is not a version-4
/// literal.
pub open spec fn spec_parse_ipv4(s: Seq<u8>) -> Option<u32> {
    let parts = spec_split(s, 46);
    if parts.len() == 4 && spec_is_octet_text(parts[0]) && spec_is_octet_text(parts[1])
        && spec_is_octet_text(parts[2]) && spec_is_octet_text(parts[3]) {
        Some(
            (spec_dec_value(parts[0]) * 0x1000000 + spec_dec_value(parts[1]) * 0x10000
                + spec_dec_value(parts[2]) * 0x100 + spec_dec_value(parts[3])) as u32,
        )
    } else {
        None
    }
}

/// A digit string of at most three digits has a value below 1000 (and
/// correspondingly less for shorter strings).
proof fn lemma_dec_value_small(s: Seq<u8>)
    requires
        spec_all_dec_digits(s),
        s.len() <= 3,
    ensures
        s.len() <= 1 ==> spec_dec_value(s) <= 9,
        s.len() <= 2 ==> spec_dec_value(s) <= 99,
        spec_dec_value(s) <= 999,
    decreases s.len(),
{
    if s.len() > 0 {
        lemma_dec_value_small(s.drop_last());
    }
}

/// Parses one dotted-quad octet: rejects empty and over-long pieces,
/// non-digits, leading zeros and values above 255; otherwise returns the
/// decimal value.
fn parse_octet(part: &Vec<u8>) -> (octet: Option<u8>)
    ensures
        match octet {
            Some(value) => spec_is_octet_text(part@) && value == spec_dec_value(part@),
            None => !spec_is_octet_text(part@),
        },
{
    let n = part.len();
    if n == 0 || n > 3 {
        return None;
    }
    if n > 1 && part[0] == 48 {
        return None;
    }
    let mut value: u32 = 0;
    let mut i: usize = 0;
    proof {
        assert(part@.take(0) =~= Seq::<u8>::empty());
    }
    while i < n
        invariant
            i <= n,
            n == part@.len(),
            1 <= n <= 3,
            spec_all_dec_digits(part@.take(i as int)),
            value == spec_dec_value(part@.take(i as int)),
        decreases n - i,
    {
        let b = part[i];
        if !(48 <= b && b <= 57) {
            return None;
        }
        proof {
            lemma_dec_value_small(part@.take(i as int));
            assert(part@.take(i + 1).drop_last() =~= part@.take(i as int));
            assert(part@.take(i + 1).last() == b);
        }
        value = value * 10 + (b - 48) as u32;
        i = i + 1;
    }
    proof {
        assert(part@.take(n as int) =~= part@);
    }
    if value > 255 {
        None
    } else {
        Some(value as u8)
    }
}

/// Parses a version-4 address literal, accepting exactly the dotted-quad
/// grammar of `spec_parse_ipv4`.
pub fn parse_ipv4(bytes: &Vec<u8>) -> (addr: Option<u32>)
    ensures
        addr == spec_parse_ipv4(bytes@),
{
    let parts = split_bytes(bytes, 46);
    proof {
        lemma_split_len(bytes@, 46);
    }
    if parts.len() != 4 {
        return None;
    }
    let a = match parse_octet(&parts[0]) {
        None => {
            return None;
        },
        Some(v) => v,
    };
    let b = match parse_octet(&parts[1]) {
        None => {
            return None;
        },
        Some(v) => v,
    };
    let c = match parse_octet(&parts[2]) {
        None => {
            return None;
        },
        Some(v) => v,
    };
    let d = match parse_octet(&parts[3]) {
        None => {
            return None;
        },
        Some(v) => v,
    };
    let value: u32 = (a as u32) * 0x1000000 + (b as u32) * 0x10000 + (c as u32) * 0x100 + (
    d as u32);
    Some(value)
}

/// Whether `s` is the text of one 16-bit group of a version-6 literal:
/// one to four hexadecimal digits.
pub open spec fn spec_is_h16_text(s: Seq<u8>) -> bool {
    1 <= s.len() <= 4 && spec_all_hex_digits(s)
}

/// A hexadecimal string of at most four digits has a value below 2^16.
proof fn lemma_hex_value_small(s: Seq<u8>)
    requires
        spec_all_hex_digits(s),
        s.len() <= 4,
    ensures
        s.len() <= 1 ==> spec_hex_value(s) <= 0xf,
        s.len() <= 2 ==> spec_hex_value(s) <= 0xff,
        s.len() <= 3 ==> spec_hex_value(s) <= 0xfff,
        spec_hex_value(s) <= 0xffff,
    decreases s.len(),
{
    if s.len() > 0 {
        lemma_hex_value_small(s.drop_last());
    }
}

/// Parses one 16-bit hexadecimal group.
fn parse_h16(part: &Vec<u8>) -> (group: Option<u16>)
    ensures
        match group {
            Some(value) => spec_is_h16_text(part@) && value == spec_hex_value(part@),
            None => !spec_is_h16_text(part@),
        },
{
    let n = part.len();
    if n == 0 || n > 4 {
        return None;
    }
    let mut value: u32 = 0;
    let mut i: usize = 0;
    proof {
        assert(part@.take(0) =~= Seq::<u8>::empty());
    }
    while i < n
        invariant
            i <= n,
            n == part@.len(),
            1 <= n <= 4,
            spec_all_hex_digits(part@.take(i as int)),
            value == spec_hex_value(part@.take(i as int)),
        decreases n - i,
    {
        let b = part[i];
        let digit: u32 = if 48 <= b && b <= 57 {
            (b - 48) as u32
        } else if 97 <= b && b <= 102 {
            (b - 87) as u32
        } else if 65 <= b && b <= 70 {
            (b - 55) as u32
        } else {
            return None;
        };
        proof {
            lemma_hex_value_small(part@.take(i as int));
            assert(part@.take(i + 1).drop_last() =~= part@.take(i as int));
            assert(part@.take(i + 1).last() == b);
        }
        value = value * 16 + digit;
        i = i + 1;
    }
    proof {
        assert(part@.take(n as int) =~= part@);
        lemma_hex_value_small(part@);
    }
    Some(value as u16)
}

/// The position of the first `::` in `s`, if any.
pub open spec fn spec_find_double_colon(s: Seq<u8>) -> Option<int>
    decreases s.len(),
{
    if s.len() < 2 {
        None
    } else if s[0] == 58 && s[1] == 58 {
        Some(0)
    } else {
        match spec_find_double_colon(s.drop_first()) {
            None => None,
            Some(i) => Some(i + 1),
        }
    }
}

/// If `::` stands at `i` and nowhere earlier, then `i` is where the spec
/// finds it.
proof fn lemma_find_dc_at(s: Seq<u8>, i: int)
    requires
        0 <= i,
        i + 2 <= s.len(),
        s[i] == 58,
        s[i + 1] == 58,
        forall|j: int| 0 <= j < i ==> !((#[trigger] s[j]) == 58 && s[j + 1] == 58),
    ensures
        spec_find_double_colon(s) == Some(i),
    decreases i,
{
    if i == 0 {
    } else {
        assert(!(s[0] == 58 && s[1] == 58));
        let rest = s.drop_first();
        assert forall|j: int| 0 <= j < i - 1 implies !((#[trigger] rest[j]) == 58 && rest[j + 1]
            == 58) by {
            assert(rest[j] == s[j + 1]);
            assert(rest[j + 1] == s[j + 2]);
            assert(!(s[j + 1] == 58 && s[j + 2] == 58));
        }
        assert(rest[i - 1] == s[i] && rest[i] == s[i + 1]);
        lemma_find_dc_at(rest, i - 1);
    }
}

/// If no two adjacent bytes of `s` are both colons, the spec finds no
/// `::`.
proof fn lemma_find_dc_none(s: Seq<u8>)
    requires
        forall|j: int| 0 <= j && j + 2 <= s.len() ==> !((#[trigger] s[j]) == 58 && s[j + 1] == 58),
    ensures
        spec_find_double_colon(s) is None,
    decreases s.len(),
{
    if s.len() >= 2 {
        assert(!(s[0] == 58 && s[1] == 58));
        let rest = s.drop_first();
        assert forall|j: int| 0 <= j && j + 2 <= rest.len() implies !((#[trigger] rest[j]) == 58
            && rest[j + 1] == 58) by {
            assert(rest[j] == s[j + 1]);
            assert(rest[j + 1] == s[j + 2]);
            assert(!(s[j + 1] == 58 && s[j + 2] == 58));
        }
        lemma_find_dc_none(rest);
    }
}

/// Scans for the first `::` in `bytes`.
fn find_double_colon(bytes: &Vec<u8>) -> (found: Option<usize>)
    ensures
        match found {
            Some(i) => spec_find_double_colon(bytes@) == Some(i as int) && i + 2 <= bytes@.len(),
            None => spec_find_double_colon(bytes@) is None,
        },
{
    let n = bytes.len();
    if n < 2 {
        return None;
    }
    let mut i: usize = 0;
    while i + 1 < n
        invariant
            n == bytes@.len(),
            i + 1 <= n,
            forall|j: int| 0 <= j < i ==> !((#[trigger] bytes@[j]) == 58 && bytes@[j + 1] == 58),
        decreases n - i,
    {
        if bytes[i] == 58 && bytes[i + 1] == 58 {
            proof {
                lemma_find_dc_at(bytes@, i as int);
            }
            return Some(i);
        }
        i = i + 1;
    }
    proof {
        lemma_find_dc_none(bytes@);
    }
    None
}

/// The views of a list of byte vectors.
pub open spec fn views_of(groups: Seq<Vec<u8>>) -> Seq<Seq<u8>> {
    groups.map_values(|g: Vec<u8>| g@)
}

/// Whether every piece is a valid 16-bit group text.
pub open spec fn spec_all_h16(groups: Seq<Seq<u8>>) -> bool {
    forall|i: int| 0 <= i < groups.len() ==> spec_is_h16_text(#[trigger] groups[i])
}

/// The 16-bit group values a run of pieces stands for, allowing a
/// trailing dotted-quad (which stands for two groups); nothing when the
/// pieces fit neither shape.
pub open spec fn spec_group_vals(groups: Seq<Seq<u8>>) -> Option<Seq<u16>> {
    if groups.len() == 0 {
        Some(Seq::<u16>::empty())
    } else if spec_all_h16(groups) {
        Some(groups.map_values(|g: Seq<u8>| (spec_hex_value(g) as u16)))
    } else if spec_all_h16(groups.drop_last()) && spec_parse_ipv4(groups.last()) is Some {
        let v4 = spec_parse_ipv4(groups.last())->0;
        Some(
            groups.drop_last().map_values(|g: Seq<u8>| (spec_hex_value(g) as u16)) + seq![
                (v4 >> 16) as u16,
                (v4 & 0xffff) as u16,
            ],
        )
    } else {
        None
    }
}

/// Parses a run of pieces into 16-bit group values, a trailing
/// dotted-quad counting as two groups.
fn group_vals(groups: &Vec<Vec<u8>>) -> (vals: Option<Vec<u16>>)
    ensures
        match vals {
            Some(vals) => spec_group_vals(views_of(groups@)) == Some(vals@),
            None => spec_group_vals(views_of(groups@)) is None,
        },
{
    let n = groups.len();
    if n == 0 {
        let empty: Vec<u16> = Vec::new();
        proof {
            assert(views_of(groups@) =~= Seq::<Seq<u8>>::empty());
            assert(empty@ =~= Seq::<u16>::empty());
        }
        return Some(empty);
    }
    let ghost gviews = views_of(groups@);
    let mut front: Vec<u16> = Vec::new();
    let mut i: usize = 0;
    while i < n - 1
        invariant
            n == groups@.len(),
            1 <= n,
            gviews == views_of(groups@),
            i <= n - 1,
            front@.len() == i,
            forall|j: int| 0 <= j < i ==> spec_is_h16_text(#[trigger] gviews[j]),
            forall|j: int|
                0 <= j < i ==> front@[j] == (spec_hex_value(#[trigger] gviews[j]) as u16),
        decreases n - 1 - i,
    {
        match parse_h16(&groups[i]) {
            None => {
                proof {
                    assert(gviews[i as int] == groups@[i as int]@);
                    assert(!spec_is_h16_text(gviews[i as int]));
                    assert(!spec_all_h16(gviews));
                    assert(gviews.drop_last()[i as int] == gviews[i as int]);
                    assert(!spec_all_h16(gviews.drop_last()));
                }
                return None;
            },
            Some(v) => {
                proof {
                    assert(gviews[i as int] == groups@[i as int]@);
                }
                front.push(v);
            },
        }
        i = i + 1;
    }
    match parse_h16(&groups[n - 1]) {
        Some(v) => {
            proof {
                assert(gviews[n - 1] == groups@[n - 1]@);
                assert(spec_all_h16(gviews));
            }
            front.push(v);
            proof {
                assert(front@ =~= gviews.map_values(|g: Seq<u8>| (spec_hex_value(g) as u16)));
            }
            Some(front)
        },
        None => {
            proof {
                assert(gviews[n - 1] == groups@[n - 1]@);
                assert(!spec_is_h16_text(gviews.last()));
                assert(!spec_all_h16(gviews));
            }
            match parse_ipv4(&groups[n - 1]) {
                Some(v4) => {
                    proof {
                        assert(spec_all_h16(gviews.drop_last()));
                        assert(spec_parse_ipv4(gviews.last()) is Some);
                    }
                    front.push((v4 >> 16) as u16);
                    front.push((v4 & 0xffff) as u16);
                    proof {
                        assert(front@ =~= gviews.drop_last().map_values(
                            |g: Seq<u8>| (spec_hex_value(g) as u16),
                        ) + seq![((v4 as u32) >> 16) as u16, ((v4 as u32) & 0xffff) as u16]);
                    }
                    Some(front)
                },
                None => None,
            }
        },
    }
}

/// 2^(16 n): the number of values `n` 16-bit groups can take.
pub open spec fn spec_pow16(n: nat) -> nat
    decreases n,
{
    if n == 0 {
        1
    } else {
        spec_pow16((n - 1) as nat) * 0x10000
    }
}

/// The value of a run of 16-bit groups, most significant first.
pub open spec fn spec_fold16(vals: Seq<u16>) -> nat
    decreases vals.len(),
{
    if vals.len() == 0 {
        0
    } else {
        spec_fold16(vals.drop_last()) * 0x10000 + (vals.last() as nat)
    }
}

/// A run of `n` groups folds to a value below 2^(16 n).
proof fn lemma_fold16_bound(vals: Seq<u16>)
    ensures
        spec_fold16(vals) < spec_pow16(vals.len()),
    decreases vals.len(),
{
    if vals.len() > 0 {
        lemma_fold16_bound(vals.drop_last());
    }
}

/// The group-count bound is monotonic.
proof fn lemma_pow16_le(a: nat, b: nat)
    requires
        a <= b,
    ensures
        spec_pow16(a) <= spec_pow16(b),
    decreases b,
{
    if a < b {
        lemma_pow16_le(a, (b - 1) as nat);
        lemma_fold16_bound(Seq::<u16>::empty());
        assert(spec_pow16(b) == spec_pow16((b - 1) as nat) * 0x10000);
        assert(spec_pow16((b - 1) as nat) >= 1) by {
            lemma_pow16_pos((b - 1) as nat);
        }
    }
}

/// The group-count bound is positive.
proof fn lemma_pow16_pos(n: nat)
    ensures
        spec_pow16(n) >= 1,
    decreases n,
{
    if n > 0 {
        lemma_pow16_pos((n - 1) as nat);
    }
}

/// Folds exactly eight 16-bit groups into the 128-bit address value.
fn fold16_u128(vals: &Vec<u16>) -> (value: u128)
    requires
        vals@.len() == 8,
    ensures
        value == spec_fold16(vals@),
{
    let mut value: u128 = 0;
    let mut i: usize = 0;
    proof {
        assert(vals@.take(0) =~= Seq::<u16>::empty());
    }
    while i < 8
        invariant
            vals@.len() == 8,
            i <= 8,
            value == spec_fold16(vals@.take(i as int)),
        decreases 8 - i,
    {
        proof {
            lemma_fold16_bound(vals@.take(i as int));
            lemma_pow16_le((i as nat), 7);
            assert(spec_pow16(7) == 0x1000000000000000000000000000_0) by {
                assert(spec_pow16(0) == 1);
                assert(spec_pow16(1) == 0x10000);
                assert(spec_pow16(2) == 0x100000000);
                assert(spec_pow16(3) == 0x1000000000000);
                assert(spec_pow16(4) == 0x10000000000000000);
                assert(spec_pow16(5) == 0x100000000000000000000);
                assert(spec_pow16(6) == 0x1000000000000000000000000);
            }
            assert(vals@.take(i + 1).drop_last() =~= vals@.take(i as int));
            assert(vals@.take(i + 1).last() == vals@[i as int]);
        }
        value = value * 0x10000 + (vals[i] as u128);
        i = i + 1;
    }
    proof {
        assert(vals@.take(8) =~= vals@);
    }
    value
}

/// A run of zero-valued 16-bit groups.
pub open spec fn spec_zeros(n: int) -> Seq<u16> {
    Seq::new(n as nat, |i: int| 0u16)
}

/// The value of a version-6 address literal.  Without `::` the literal
/// is eight colon-separated groups, the last two of which may stand as a
/// dotted quad.  With one `::`, the groups on its left fill the address
/// from the top and those on its right from the bottom — the right-hand
/// run again allowed to end in a dotted quad — with at most seven groups
/// in all, the gap standing for zero groups.
pub open spec fn spec_parse_ipv6(s: Seq<u8>) -> Option<u128> {
    match spec_find_double_colon(s) {
        None => match spec_group_vals(spec_split(s, 58)) {
            None => None,
            Some(vals) => if vals.len() == 8 {
                Some(spec_fold16(vals) as u128)
            } else {
                None
            },
        },
        Some(i) => {
            let head = s.take(i);
            let tail = s.skip(i + 2);
            let head_groups = if head.len() == 0 {
                Seq::<Seq<u8>>::empty()
            } else {
                spec_split(head, 58)
            };
            let tail_groups = if tail.len() == 0 {
                Seq::<Seq<u8>>::empty()
            } else {
                spec_split(tail, 58)
            };
            if !spec_all_h16(head_groups) {
                None
            } else {
                match spec_group_vals(tail_groups) {
                    None => None,
                    Some(tail_vals) => if head_groups.len() + tail_vals.len() <= 7 {
                        let head_vals = head_groups.map_values(
                            |g: Seq<u8>| (spec_hex_value(g) as u16),
                        );
                        let vals = head_vals + spec_zeros(
                            8 - head_groups.len() - tail_vals.len(),
                        ) + tail_vals;
                        Some(spec_fold16(vals) as u128)
                    } else {
                        None
                    },
                }
            }
        },
    }
}

/// Parses a version-6 address literal, accepting exactly the grammar of
/// `spec_parse_ipv6`.
#[verifier::loop_isolation(false)]
pub fn parse_ipv6(bytes: &Vec<u8>) -> (addr: Option<u128>)
    ensures
        addr == spec_parse_ipv6(bytes@),
{
    match find_double_colon(bytes) {
        None => {
            let groups = split_bytes(bytes, 58);
            proof {
                assert(views_of(groups@) =~= spec_split(bytes@, 58));
            }
            match group_vals(&groups) {
                None => None,
                Some(vals) => {
                    if vals.len() == 8 {
                        Some(fold16_u128(&vals))
                    } else {
                        None
                    }
                },
            }
        },
        Some(i) => {
            let n = bytes.len();
            let head = crate::parse::copy_range(bytes, 0, i);
            let tail = crate::parse::copy_range(bytes, i + 2, n);
            proof {
                assert(head@ =~= bytes@.take(i as int));
                assert(tail@ =~= bytes@.skip(i + 2));
            }
            let ghost head_groups_spec = if head@.len() == 0 {
                Seq::<Seq<u8>>::empty()
            } else {
                spec_split(head@, 58)
            };
            let mut head_vals: Vec<u16> = Vec::new();
            if head.len() > 0 {
                let head_groups = split_bytes(&head, 58);
                proof {
                    assert(views_of(head_groups@) =~= head_groups_spec);
                }
                let hn = head_groups.len();
                let mut j: usize = 0;
                while j < hn
                    invariant
                        hn == head_groups@.len(),
                        head_groups_spec == views_of(head_groups@),
                        j <= hn,
                        head_vals@.len() == j,
                        forall|k: int|
                            0 <= k < j ==> spec_is_h16_text(#[trigger] head_groups_spec[k]),
                        forall|k: int|
                            0 <= k < j ==> head_vals@[k] == (spec_hex_value(
                                #[trigger] head_groups_spec[k],
                            ) as u16),
                    decreases hn - j,
                {
                    match parse_h16(&head_groups[j]) {
                        None => {
                            proof {
                                assert(head_groups_spec[j as int] == head_groups@[j as int]@);
                                assert(!spec_all_h16(head_groups_spec));
                            }
                            return None;
                        },
                        Some(v) => {
                            proof {
                                assert(head_groups_spec[j as int] == head_groups@[j as int]@);
                            }
                            head_vals.push(v);
                        },
                    }
                    j = j + 1;
                }
                proof {
                    assert(spec_all_h16(head_groups_spec));
                    assert(head_vals@ =~= head_groups_spec.map_values(
                        |g: Seq<u8>| (spec_hex_value(g) as u16),
                    ));
                }
            } else {
                proof {
                    assert(spec_all_h16(head_groups_spec));
                    assert(head_vals@ =~= head_groups_spec.map_values(
                        |g: Seq<u8>| (spec_hex_value(g) as u16),
                    ));
                }
            }
            let ghost tail_groups_spec = if tail@.len() == 0 {
                Seq::<Seq<u8>>::empty()
            } else {
                spec_split(tail@, 58)
            };
            let tail_vals = if tail.len() > 0 {
                let tail_groups = split_bytes(&tail, 58);
                proof {
                    assert(views_of(tail_groups@) =~= tail_groups_spec);
                }
                match group_vals(&tail_groups) {
                    None => {
                        return None;
                    },
                    Some(vals) => vals,
                }
            } else {
                let empty_vals: Vec<u16> = Vec::new();
                proof {
                    assert(tail_groups_spec =~~= Seq::<Seq<u8>>::empty());
                    assert(spec_group_vals(tail_groups_spec) == Some(empty_vals@));
                }
                empty_vals
            };
            if head_vals.len() > 7 {
                return None;
            }
            if tail_vals.len() > 7 - head_vals.len() {
                return None;
            }
            let gap = 8 - head_vals.len() - tail_vals.len();
            let mut vals = head_vals;
            let mut z: usize = 0;
            while z < gap
                invariant
                    z <= gap,
                    vals@ =~= head_vals@ + spec_zeros(z as int),
                decreases gap - z,
            {
                vals.push(0);
                proof {
                    assert(vals@ =~= head_vals@ + spec_zeros(z + 1));
                }
                z = z + 1;
            }
            let tn = tail_vals.len();
            let mut t: usize = 0;
            while t < tn
                invariant
                    tn == tail_vals@.len(),
                    t <= tn,
                    vals@ =~= head_vals@ + spec_zeros(gap as int) + tail_vals@.take(t as int),
                decreases tn - t,
            {
                vals.push(tail_vals[t]);
                proof {
                    assert(vals@ =~= head_vals@ + spec_zeros(gap as int) + tail_vals@.take(t + 1));
                }
                t = t + 1;
            }
            proof {
                assert(tail_vals@.take(tn as int) =~= tail_vals@);
                assert(vals@ =~= head_vals@ + spec_zeros(gap as int) + tail_vals@);
            }
            Some(fold16_u128(&vals))
        },
    }
}

/// The value of an address literal: a dotted quad, or else a version-6
/// literal.
pub open spec fn spec_parse_ip(s: Seq<u8>) -> Option<IpAddress> {
    match spec_parse_ipv4(s) {
        Some(v) => Some(IpAddress::V4(v)),
        None => match spec_parse_ipv6(s) {
            Some(v) => Some(IpAddress::V6(v)),
            None => None,
        },
    }
}

/// Parses an address literal of either version.
pub fn parse_ip(bytes: &Vec<u8>) -> (addr: Option<IpAddress>)
    ensures
        addr == spec_parse_ip(bytes@),
{
    match parse_ipv4(bytes) {
        Some(v) => Some(IpAddress::V4(v)),
        None => match parse_ipv6(bytes) {
            Some(v) => Some(IpAddress::V6(v)),
            None => None,
        },
    }
}

/// The spec-level view of an optional raw header value.
pub open spec fn spec_header_view(header: Option<&Vec<u8>>) -> Option<Seq<u8>> {
    match header {
        None => None,
        Some(value) => Some(value@),
    }
}

/// The client address one request resolves to.  With the trusted-header
/// setting on and the header present, the header must be readable text
/// holding an address literal — a malformed literal and an unreadable
/// value are distinct client errors.  Otherwise the transport peer
/// address stands, and that path cannot fail.
pub open spec fn spec_resolve_client_addr(
    use_x_real_ip: bool,
    header: Option<Seq<u8>>,
    peer: IpAddress,
) -> Result<ClientAddr, crate::errors::ResponseError> {
    if use_x_real_ip && header is Some {
        let value = header->0;
        if !crate::textops::spec_readable(value) {
            Err(crate::errors::ResponseError::EmptyXRealIP)
        } else {
            match spec_parse_ip(value) {
                None => Err(crate::errors::ResponseError::InvalidXRealIP),
                Some(ip) => Ok(ClientAddr { ip }),
            }
        }
    } else {
        Ok(ClientAddr { ip: peer })
    }
}

/// Resolves the caller's address for one request, from the trusted
/// header when configured and present, else from the transport peer.
pub fn resolve_client_addr(
    use_x_real_ip: bool,
    header: Option<&Vec<u8>>,
    peer: IpAddress,
) -> (resolved: Result<ClientAddr, crate::errors::ResponseError>)
    ensures
        resolved == spec_resolve_client_addr(use_x_real_ip, spec_header_view(header), peer),
{
    if use_x_real_ip {
        match header {
            Some(value) => {
                if !crate::textops::is_readable(value) {
                    Err(crate::errors::ResponseError::EmptyXRealIP)
                } else {
                    match parse_ip(value) {
                        None => Err(crate::errors::ResponseError::InvalidXRealIP),
                        Some(ip) => Ok(ClientAddr { ip }),
                    }
                }
            },
            None => Ok(ClientAddr { ip: peer }),
        }
    } else {
        Ok(ClientAddr { ip: peer })
    }
}

} // verus!
