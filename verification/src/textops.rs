use vstd::prelude::*;

verus! {

/// Whether a header byte is readable text: visible ASCII, space, or tab.
/// This is the same rule the HTTP layer applies before treating a header
/// value as a string.
pub open spec fn spec_readable_byte(b: u8) -> bool {
    (32 <= b && b < 127) || b == 9
}

/// Whether every byte of a header value is readable text.
pub open spec fn spec_readable(bytes: Seq<u8>) -> bool {
    forall|i: int| 0 <= i < bytes.len() ==> spec_readable_byte(#[trigger] bytes[i])
}

/// Checks that every byte of `bytes` is readable header text.
pub fn is_readable(bytes: &Vec<u8>) -> (readable: bool)
    ensures
        readable == spec_readable(bytes@),
{
    let mut i: usize = 0;
    while i < bytes.len()
        invariant
            i <= bytes.len(),
            forall|j: int| 0 <= j < i ==> spec_readable_byte(#[trigger] bytes@[j]),
        decreases bytes.len() - i,
    {
        let b = bytes[i];
        if !((32 <= b && b < 127) || b == 9) {
            return false;
        }
        i = i + 1;
    }
    true
}

/// ASCII lowercasing of one byte: the uppercase letters move down into
/// the lowercase range, everything else stays as it is.
pub open spec fn spec_lower_byte(b: u8) -> u8 {
    if 65 <= b && b <= 90 {
        (b + 32) as u8
    } else {
        b
    }
}

/// ASCII lowercasing of a whole byte string.
pub open spec fn spec_to_lower(bytes: Seq<u8>) -> Seq<u8> {
    bytes.map_values(|b: u8| spec_lower_byte(b))
}

/// Lowercases `bytes`, ASCII letter by ASCII letter.
pub fn to_lower(bytes: &Vec<u8>) -> (lowered: Vec<u8>)
    ensures
        lowered@ == spec_to_lower(bytes@),
{
    let mut lowered: Vec<u8> = Vec::new();
    let mut i: usize = 0;
    while i < bytes.len()
        invariant
            i <= bytes.len(),
            lowered@ =~= spec_to_lower(bytes@).take(i as int),
        decreases bytes.len() - i,
    {
        let b = bytes[i];
        if 65 <= b && b <= 90 {
            lowered.push(b + 32);
        } else {
            lowered.push(b);
        }
        i = i + 1;
    }
    proof {
        assert(lowered@ =~= spec_to_lower(bytes@));
    }
    lowered
}

/// Compares two byte strings for equality.
pub fn bytes_eq(a: &Vec<u8>, b: &Vec<u8>) -> (equal: bool)
    ensures
        equal == (a@ == b@),
{
    if a.len() != b.len() {
        return false;
    }
    let mut i: usize = 0;
    while i < a.len()
        invariant
            a@.len() == b@.len(),
            i <= a@.len(),
            forall|j: int| 0 <= j < i ==> a@[j] == b@[j],
        decreases a@.len() - i,
    {
        if a[i] != b[i] {
            return false;
        }
        i = i + 1;
    }
    proof {
        assert(a@ =~= b@);
    }
    true
}

/// Whether `needle` occurs in `haystack` starting exactly at `at`.
pub open spec fn spec_match_at(haystack: Seq<u8>, needle: Seq<u8>, at: int) -> bool {
    0 <= at && at + needle.len() <= haystack.len() && haystack.subrange(
        at,
        at + needle.len(),
    ) =~= needle
}

/// Whether `needle` occurs as a contiguous run somewhere inside
/// `haystack`.
pub open spec fn spec_contains_seq(haystack: Seq<u8>, needle: Seq<u8>) -> bool {
    exists|i: int| spec_match_at(haystack, needle, i)
}

/// Checks whether `needle` matches `haystack` at position `at`.
fn matches_at(haystack: &Vec<u8>, needle: &Vec<u8>, at: usize) -> (found: bool)
    requires
        at + needle@.len() <= haystack@.len(),
    ensures
        found == spec_match_at(haystack@, needle@, at as int),
{
    let h_len = haystack.len();
    let n_len = needle.len();
    let mut k: usize = 0;
    while k < n_len
        invariant
            h_len == haystack@.len(),
            n_len == needle@.len(),
            k <= n_len,
            at + n_len <= h_len,
            forall|j: int| 0 <= j < k ==> haystack@[at + j] == needle@[j],
        decreases n_len - k,
    {
        if haystack[at + k] != needle[k] {
            proof {
                assert(haystack@.subrange(at as int, at + needle@.len())[k as int] == haystack@[at
                    + k]);
            }
            return false;
        }
        k = k + 1;
    }
    proof {
        assert(haystack@.subrange(at as int, at + needle@.len()) =~= needle@);
    }
    true
}

/// Scans `haystack` for `needle`, returning whether it occurs anywhere as
/// a contiguous run.
pub fn contains_seq(haystack: &Vec<u8>, needle: &Vec<u8>) -> (found: bool)
    ensures
        found == spec_contains_seq(haystack@, needle@),
{
    let h_len = haystack.len();
    let n_len = needle.len();
    if n_len > h_len {
        return false;
    }
    if n_len == 0 {
        proof {
            assert(haystack@.subrange(0, 0) =~= needle@);
            assert(spec_match_at(haystack@, needle@, 0));
        }
        return true;
    }
    let last_start = h_len - n_len;
    let mut i: usize = 0;
    while i <= last_start
        invariant
            h_len == haystack@.len(),
            n_len == needle@.len(),
            0 < n_len <= h_len,
            last_start == h_len - n_len,
            i <= last_start + 1,
            forall|j: int| 0 <= j < i ==> !spec_match_at(haystack@, needle@, j),
        decreases last_start + 1 - i,
    {
        if matches_at(haystack, needle, i) {
            return true;
        }
        i = i + 1;
    }
    proof {
        assert forall|j: int| !spec_match_at(haystack@, needle@, j) by {
            if 0 <= j < i {
            }
        }
    }
    false
}

} // verus!
