use vstd::prelude::*;

verus! {

/// Whether `b` is an ASCII decimal digit.
pub open spec fn spec_is_dec_digit(b: u8) -> bool {
    48 <= b <= 57
}

/// Whether `b` is an ASCII hexadecimal digit, either case.
pub open spec fn spec_is_hex_digit(b: u8) -> bool {
    (48 <= b <= 57) || (97 <= b <= 102) || (65 <= b <= 70)
}

/// The numeric value of one hexadecimal digit.
pub open spec fn spec_hex_digit_value(b: u8) -> nat {
    if 48 <= b <= 57 {
        (b - 48) as nat
    } else if 97 <= b <= 102 {
        (b - 87) as nat
    } else if 65 <= b <= 70 {
        (b - 55) as nat
    } else {
        0
    }
}

/// The value of a decimal digit string, most significant digit first.
pub open spec fn spec_dec_value(s: Seq<u8>) -> nat
    decreases s.len(),
{
    if s.len() == 0 {
        0
    } else {
        spec_dec_value(s.drop_last()) * 10 + (s.last() - 48) as nat
    }
}

/// The value of a hexadecimal digit string, most significant digit first.
pub open spec fn spec_hex_value(s: Seq<u8>) -> nat
    decreases s.len(),
{
    if s.len() == 0 {
        0
    } else {
        spec_hex_value(s.drop_last()) * 16 + spec_hex_digit_value(s.last())
    }
}

/// Whether every byte of `s` is a decimal digit.
pub open spec fn spec_all_dec_digits(s: Seq<u8>) -> bool {
    forall|i: int| 0 <= i < s.len() ==> spec_is_dec_digit(#[trigger] s[i])
}

/// Whether every byte of `s` is a hexadecimal digit.
pub open spec fn spec_all_hex_digits(s: Seq<u8>) -> bool {
    forall|i: int| 0 <= i < s.len() ==> spec_is_hex_digit(#[trigger] s[i])
}

/// Splitting a byte string at a separator, preserving empty pieces: the
/// result always has one piece more than the string has separators.
pub open spec fn spec_split(s: Seq<u8>, sep: u8) -> Seq<Seq<u8>>
    decreases s.len(),
{
    if s.len() == 0 {
        seq![Seq::<u8>::empty()]
    } else if s[0] == sep {
        seq![Seq::<u8>::empty()] + spec_split(s.drop_first(), sep)
    } else {
        let rest = spec_split(s.drop_first(), sep);
        seq![seq![s[0]] + rest[0]] + rest.drop_first()
    }
}

/// A split never produces an empty list of pieces.
pub proof fn lemma_split_len(s: Seq<u8>, sep: u8)
    ensures
        spec_split(s, sep).len() >= 1,
    decreases s.len(),
{
    if s.len() != 0 {
        lemma_split_len(s.drop_first(), sep)
    }
}

/// Appending a non-separator byte extends the last piece of the split
/// and leaves every other piece alone.
pub proof fn lemma_split_append_byte(s: Seq<u8>, sep: u8, b: u8)
    requires
        b != sep,
    ensures
        spec_split(s + seq![b], sep).len() == spec_split(s, sep).len(),
        spec_split(s + seq![b], sep) == spec_split(s, sep).update(
            spec_split(s, sep).len() - 1,
            spec_split(s, sep).last() + seq![b],
        ),
    decreases s.len(),
{
    lemma_split_len(s, sep);
    let t = s + seq![b];
    if s.len() == 0 {
        assert(t.len() == 1 && t[0] == b);
        assert(t.drop_first() =~= Seq::<u8>::empty());
        assert(spec_split(Seq::<u8>::empty(), sep) =~~= seq![Seq::<u8>::empty()]);
        assert(spec_split(t, sep) =~~= seq![seq![b]]);
        assert(spec_split(s, sep).update(0, spec_split(s, sep).last() + seq![b]) =~~= seq![seq![b]]);
    } else {
        lemma_split_append_byte(s.drop_first(), sep, b);
        lemma_split_len(s.drop_first(), sep);
        assert(t[0] == s[0]);
        assert(t.drop_first() =~= s.drop_first() + seq![b]);
        let rest_old = spec_split(s.drop_first(), sep);
        let rest_new = spec_split(t.drop_first(), sep);
        if s[0] == sep {
            assert(spec_split(s, sep) =~~= seq![Seq::<u8>::empty()] + rest_old);
            assert(spec_split(t, sep) =~~= seq![Seq::<u8>::empty()] + rest_new);
            assert(spec_split(t, sep) =~~= spec_split(s, sep).update(
                spec_split(s, sep).len() - 1,
                spec_split(s, sep).last() + seq![b],
            ));
        } else {
            if rest_old.len() == 1 {
                assert(rest_new =~~= rest_old.update(0, rest_old.last() + seq![b]));
                assert(rest_new[0] == rest_old[0] + seq![b]);
                assert(spec_split(s, sep) =~~= seq![seq![s[0]] + rest_old[0]]);
                assert(spec_split(t, sep) =~~= seq![seq![s[0]] + rest_new[0]]);
                assert(seq![s[0]] + (rest_old[0] + seq![b]) =~= (seq![s[0]] + rest_old[0])
                    + seq![b]);
                assert(spec_split(t, sep) =~~= spec_split(s, sep).update(
                    spec_split(s, sep).len() - 1,
                    spec_split(s, sep).last() + seq![b],
                ));
            } else {
                assert(rest_new[0] == rest_old[0]);
                assert(spec_split(s, sep) =~~= seq![seq![s[0]] + rest_old[0]]
                    + rest_old.drop_first());
                assert(spec_split(t, sep) =~~= seq![seq![s[0]] + rest_new[0]]
                    + rest_new.drop_first());
                assert(rest_new.drop_first() =~~= rest_old.drop_first().update(
                    rest_old.drop_first().len() - 1,
                    rest_old.drop_first().last() + seq![b],
                ));
                assert(spec_split(t, sep) =~~= spec_split(s, sep).update(
                    spec_split(s, sep).len() - 1,
                    spec_split(s, sep).last() + seq![b],
                ));
            }
        }
    }
}

/// Appending the separator closes the current last piece and opens a
/// fresh, empty one.
pub proof fn lemma_split_append_sep(s: Seq<u8>, sep: u8)
    ensures
        spec_split(s + seq![sep], sep) == spec_split(s, sep) + seq![Seq::<u8>::empty()],
    decreases s.len(),
{
    lemma_split_len(s, sep);
    let t = s + seq![sep];
    if s.len() == 0 {
        assert(t[0] == sep);
        assert(t.drop_first() =~= Seq::<u8>::empty());
        assert(spec_split(Seq::<u8>::empty(), sep) =~~= seq![Seq::<u8>::empty()]);
        assert(spec_split(t, sep) =~~= seq![Seq::<u8>::empty(), Seq::<u8>::empty()]);
        assert(spec_split(s, sep) + seq![Seq::<u8>::empty()] =~~= seq![
            Seq::<u8>::empty(),
            Seq::<u8>::empty(),
        ]);
    } else {
        lemma_split_append_sep(s.drop_first(), sep);
        lemma_split_len(s.drop_first(), sep);
        assert(t[0] == s[0]);
        assert(t.drop_first() =~= s.drop_first() + seq![sep]);
        let rest_old = spec_split(s.drop_first(), sep);
        let rest_new = spec_split(t.drop_first(), sep);
        assert(rest_new =~~= rest_old + seq![Seq::<u8>::empty()]);
        if s[0] == sep {
            assert(spec_split(t, sep) =~~= (seq![Seq::<u8>::empty()] + rest_old) + seq![
                Seq::<u8>::empty(),
            ]);
        } else {
            assert(rest_new[0] == rest_old[0]);
            assert(rest_new.drop_first() =~~= rest_old.drop_first() + seq![Seq::<u8>::empty()]);
            assert(spec_split(t, sep) =~~= (seq![seq![s[0]] + rest_old[0]]
                + rest_old.drop_first()) + seq![Seq::<u8>::empty()]);
        }
    }
}

/// Splits `bytes` at `sep`, preserving empty pieces.
pub fn split_bytes(bytes: &Vec<u8>, sep: u8) -> (pieces: Vec<Vec<u8>>)
    ensures
        pieces@.len() == spec_split(bytes@, sep).len(),
        forall|i: int|
            0 <= i < pieces@.len() ==> (#[trigger] pieces@[i])@ == spec_split(bytes@, sep)[i],
{
    let ghost full = bytes@;
    let mut pieces: Vec<Vec<u8>> = Vec::new();
    let mut current: Vec<u8> = Vec::new();
    let mut i: usize = 0;
    proof {
        assert(bytes@.take(0) =~= Seq::<u8>::empty());
        assert(spec_split(bytes@.take(0), sep) =~~= seq![Seq::<u8>::empty()]);
    }
    while i < bytes.len()
        invariant
            i <= bytes@.len(),
            spec_split(bytes@.take(i as int), sep).len() == pieces@.len() + 1,
            forall|j: int|
                0 <= j < pieces@.len() ==> (#[trigger] pieces@[j])@ == spec_split(
                    bytes@.take(i as int),
                    sep,
                )[j],
            current@ == spec_split(bytes@.take(i as int), sep).last(),
        decreases bytes@.len() - i,
    {
        let ghost prefix = bytes@.take(i as int);
        let b = bytes[i];
        proof {
            assert(bytes@.take(i + 1) =~= prefix + seq![b]);
            lemma_split_len(prefix, sep);
        }
        if b == sep {
            proof {
                lemma_split_append_sep(prefix, sep);
            }
            pieces.push(current);
            current = Vec::new();
        } else {
            proof {
                lemma_split_append_byte(prefix, sep, b);
            }
            current.push(b);
        }
        i = i + 1;
    }
    proof {
        assert(bytes@.take(bytes@.len() as int) =~= bytes@);
    }
    pieces.push(current);
    pieces
}

/// A hexadecimal string of at most twelve digits stays below 2^48 (and
/// correspondingly less for shorter strings).
proof fn lemma_hex_value_bounded(s: Seq<u8>)
    requires
        spec_all_hex_digits(s),
        s.len() <= 12,
    ensures
        s.len() <= 4 ==> spec_hex_value(s) <= 0xffff,
        s.len() <= 8 ==> spec_hex_value(s) <= 0xffffffff,
        spec_hex_value(s) <= 0xffffffffffff,
        s.len() <= 1 ==> spec_hex_value(s) <= 0xf,
        s.len() <= 2 ==> spec_hex_value(s) <= 0xff,
        s.len() <= 3 ==> spec_hex_value(s) <= 0xfff,
        s.len() <= 5 ==> spec_hex_value(s) <= 0xfffff,
        s.len() <= 6 ==> spec_hex_value(s) <= 0xffffff,
        s.len() <= 7 ==> spec_hex_value(s) <= 0xfffffff,
        s.len() <= 9 ==> spec_hex_value(s) <= 0xfffffffff,
        s.len() <= 10 ==> spec_hex_value(s) <= 0xffffffffff,
        s.len() <= 11 ==> spec_hex_value(s) <= 0xfffffffffff,
    decreases s.len(),
{
    if s.len() > 0 {
        lemma_hex_value_bounded(s.drop_last());
    }
}

/// Parses a fixed-width run of hexadecimal digits.
fn parse_hex_fixed(part: &Vec<u8>, width: usize) -> (value: Option<u64>)
    requires
        1 <= width <= 12,
    ensures
        match value {
            Some(v) => part@.len() == width && spec_all_hex_digits(part@) && v == spec_hex_value(
                part@,
            ) && v <= 0xffffffffffff,
            None => !(part@.len() == width && spec_all_hex_digits(part@)),
        },
{
    let n = part.len();
    if n != width {
        return None;
    }
    let mut value: u64 = 0;
    let mut i: usize = 0;
    proof {
        assert(part@.take(0) =~= Seq::<u8>::empty());
    }
    while i < n
        invariant
            i <= n,
            n == part@.len(),
            1 <= n <= 12,
            spec_all_hex_digits(part@.take(i as int)),
            value == spec_hex_value(part@.take(i as int)),
        decreases n - i,
    {
        let b = part[i];
        let digit: u64 = if 48 <= b && b <= 57 {
            (b - 48) as u64
        } else if 97 <= b && b <= 102 {
            (b - 87) as u64
        } else if 65 <= b && b <= 70 {
            (b - 55) as u64
        } else {
            return None;
        };
        proof {
            lemma_hex_value_bounded(part@.take(i as int));
            assert(part@.take(i + 1).drop_last() =~= part@.take(i as int));
            assert(part@.take(i + 1).last() == b);
        }
        value = value * 16 + digit;
        i = i + 1;
    }
    proof {
        assert(part@.take(n as int) =~= part@);
        lemma_hex_value_bounded(part@);
    }
    Some(value)
}

/// The value of a hyphenated identifier literal, five hexadecimal runs
/// of widths 8, 4, 4, 4 and 12, most significant first; anything else is
/// not an identifier literal.
pub open spec fn spec_parse_uuid(s: Seq<u8>) -> Option<u128> {
    let parts = spec_split(s, 45);
    if parts.len() == 5 && parts[0].len() == 8 && parts[1].len() == 4 && parts[2].len() == 4
        && parts[3].len() == 4 && parts[4].len() == 12 && spec_all_hex_digits(parts[0])
        && spec_all_hex_digits(parts[1]) && spec_all_hex_digits(parts[2]) && spec_all_hex_digits(
        parts[3],
    ) && spec_all_hex_digits(parts[4]) {
        Some(
            (spec_hex_value(parts[0]) * 0x1000000000000000000000000 + spec_hex_value(parts[1])
                * 0x100000000000000000000 + spec_hex_value(parts[2]) * 0x10000000000000000
                + spec_hex_value(parts[3]) * 0x1000000000000 + spec_hex_value(parts[4])) as u128,
        )
    } else {
        None
    }
}

/// Parses a hyphenated 128-bit identifier literal, accepting exactly the
/// grammar of `spec_parse_uuid`.
pub fn parse_uuid(bytes: &Vec<u8>) -> (uuid: Option<u128>)
    ensures
        uuid == spec_parse_uuid(bytes@),
{
    let parts = split_bytes(bytes, 45);
    if parts.len() != 5 {
        return None;
    }
    let a = match parse_hex_fixed(&parts[0], 8) {
        None => {
            return None;
        },
        Some(v) => v,
    };
    let b = match parse_hex_fixed(&parts[1], 4) {
        None => {
            return None;
        },
        Some(v) => v,
    };
    let c = match parse_hex_fixed(&parts[2], 4) {
        None => {
            return None;
        },
        Some(v) => v,
    };
    let d = match parse_hex_fixed(&parts[3], 4) {
        None => {
            return None;
        },
        Some(v) => v,
    };
    let e = match parse_hex_fixed(&parts[4], 12) {
        None => {
            return None;
        },
        Some(v) => v,
    };
    proof {
        lemma_hex_value_bounded(parts@[0]@);
        lemma_hex_value_bounded(parts@[1]@);
        lemma_hex_value_bounded(parts@[2]@);
        lemma_hex_value_bounded(parts@[3]@);
        lemma_hex_value_bounded(parts@[4]@);
    }
    let value: u128 = (a as u128) * 0x1000000000000000000000000 + (b as u128)
        * 0x100000000000000000000 + (c as u128) * 0x10000000000000000 + (d as u128)
        * 0x1000000000000 + (e as u128);
    Some(value)
}

/// Copies the byte range `from..to` out of `bytes`.
pub fn copy_range(bytes: &Vec<u8>, from: usize, to: usize) -> (part: Vec<u8>)
    requires
        from <= to <= bytes@.len(),
    ensures
        part@ == bytes@.subrange(from as int, to as int),
{
    let mut part: Vec<u8> = Vec::new();
    let mut i: usize = from;
    while i < to
        invariant
            from <= i <= to <= bytes@.len(),
            part@ =~= bytes@.subrange(from as int, i as int),
        decreases to - i,
    {
        part.push(bytes[i]);
        proof {
            assert(part@ =~= bytes@.subrange(from as int, i + 1));
        }
        i = i + 1;
    }
    part
}

} // verus!
