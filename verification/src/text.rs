//! Byte-level text helpers: whitespace trimming, searching, splitting and
//! decimal parsing, each proved against a spec-level model over `Seq<u8>`.

use vstd::prelude::*;
use vstd::string::StringSliceAdditionalSpecFns;

verus! {

/// Whether a byte is ASCII whitespace as the preamble rules count it.
pub open spec fn spec_is_ws(b: u8) -> bool {
    b == 32 || b == 9 || b == 13 || b == 10
}

/// Executable mirror of [`spec_is_ws`].
pub fn is_ws(b: u8) -> (r: bool)
    ensures
        r == spec_is_ws(b),
{
    b == 32 || b == 9 || b == 13 || b == 10
}

/// The sequence with leading whitespace removed.
pub open spec fn spec_trim_start(s: Seq<u8>) -> Seq<u8>
    decreases s.len(),
{
    if s.len() > 0 && spec_is_ws(s[0]) {
        spec_trim_start(s.drop_first())
    } else {
        s
    }
}

/// The sequence with trailing whitespace removed.
pub open spec fn spec_trim_end(s: Seq<u8>) -> Seq<u8>
    decreases s.len(),
{
    if s.len() > 0 && spec_is_ws(s.last()) {
        spec_trim_end(s.drop_last())
    } else {
        s
    }
}

/// The sequence with whitespace removed on both ends.
pub open spec fn spec_trim(s: Seq<u8>) -> Seq<u8> {
    spec_trim_end(spec_trim_start(s))
}

/// Whether the sequence starts with a whitespace byte.
pub open spec fn spec_has_leading_ws(s: Seq<u8>) -> bool {
    s.len() > 0 && spec_is_ws(s[0])
}

/// Whether the sequence ends with a whitespace byte.
pub open spec fn spec_has_trailing_ws(s: Seq<u8>) -> bool {
    s.len() > 0 && spec_is_ws(s.last())
}

/// Byte-wise equality of two slices.
pub fn bytes_eq(a: &[u8], b: &[u8]) -> (r: bool)
    ensures
        r == (a@ == b@),
{
    if a.len() != b.len() {
        assert(a@ != b@) by {
            assert(a@.len() != b@.len());
        }
        return false;
    }
    let mut i: usize = 0;
    while i < a.len()
        invariant
            i <= a.len(),
            a@.len() == b@.len(),
            forall|j: int| 0 <= j < i ==> a@[j] == b@[j],
        decreases a.len() - i,
    {
        if a[i] != b[i] {
            return false;
        }
        i += 1;
    }
    proof {
        assert(a@ =~= b@);
    }
    true
}

/// Whether a byte slice spells the same bytes as a string.
pub fn bytes_is(s: &[u8], t: &str) -> (r: bool)
    ensures
        r == (s@ == t.spec_bytes()),
{
    bytes_eq(s, t.as_bytes())
}

/// The index of the first occurrence of a byte, if any.
pub open spec fn spec_find_byte(s: Seq<u8>, b: u8) -> Option<int>
    decreases s.len(),
{
    if s.len() == 0 {
        None
    } else if s[0] == b {
        Some(0)
    } else {
        match spec_find_byte(s.drop_first(), b) {
            Some(i) => Some(i + 1),
            None => None,
        }
    }
}

/// What a [`spec_find_byte`] answer means, position by position.
pub proof fn lemma_find_byte(s: Seq<u8>, b: u8)
    ensures
        match spec_find_byte(s, b) {
            Some(i) => 0 <= i < s.len() && s[i] == b && forall|j: int| 0 <= j < i ==> s[j] != b,
            None => forall|j: int| 0 <= j < s.len() ==> s[j] != b,
        },
    decreases s.len(),
{
    if s.len() > 0 && s[0] != b {
        lemma_find_byte(s.drop_first(), b);
        assert forall|j: int| 1 <= j < s.len() implies s[j] == s.drop_first()[j - 1] by {}
    }
}

/// Finds the first occurrence of a byte in a slice.
pub fn find_byte(s: &[u8], b: u8) -> (r: Option<usize>)
    ensures
        match r {
            Some(i) => spec_find_byte(s@, b) == Some(i as int),
            None => spec_find_byte(s@, b) is None,
        },
{
    proof {
        lemma_find_byte(s@, b);
    }
    let mut i: usize = 0;
    while i < s.len()
        invariant
            i <= s.len(),
            forall|j: int| 0 <= j < i ==> s@[j] != b,
            match spec_find_byte(s@, b) {
                Some(k) => 0 <= k < s@.len() && s@[k] == b && forall|j: int| 0 <= j < k ==> s@[j] != b,
                None => forall|j: int| 0 <= j < s@.len() ==> s@[j] != b,
            },
        decreases s.len() - i,
    {
        if s[i] == b {
            return Some(i);
        }
        i += 1;
    }
    None
}

/// The pieces of a sequence split on a separator byte; one more piece than
/// there are separators, in order.
pub open spec fn spec_split(s: Seq<u8>, sep: u8) -> Seq<Seq<u8>>
    decreases s.len(),
    via spec_split_decreases
{
    match spec_find_byte(s, sep) {
        None => seq![s],
        Some(i) => seq![s.take(i)] + spec_split(s.skip(i + 1), sep),
    }
}

#[via_fn]
proof fn spec_split_decreases(s: Seq<u8>, sep: u8) {
    lemma_find_byte(s, sep);
}

/// A split always yields at least one piece.
pub proof fn lemma_split_len(s: Seq<u8>, sep: u8)
    ensures
        spec_split(s, sep).len() >= 1,
    decreases s.len(),
{
    lemma_find_byte(s, sep);
    match spec_find_byte(s, sep) {
        None => {},
        Some(i) => {
            lemma_split_len(s.skip(i + 1), sep);
        },
    }
}

/// Splits a slice on a separator byte.
pub fn split(s: &[u8], sep: u8) -> (r: Vec<Vec<u8>>)
    ensures
        r.deep_view() == spec_split(s@, sep),
{
    let mut out: Vec<Vec<u8>> = Vec::new();
    let mut pos: usize = 0;
    proof {
        assert(s@.skip(0) =~= s@);
        assert(out.deep_view() + spec_split(s@, sep) =~= spec_split(s@, sep));
    }
    loop
        invariant
            pos <= s.len(),
            spec_split(s@, sep) == out.deep_view() + spec_split(s@.skip(pos as int), sep),
        decreases s.len() - pos,
    {
        let rest = &s[pos..s.len()];
        assert(rest@ =~= s@.skip(pos as int));
        match find_byte(rest, sep) {
            Some(k) => {
                proof {
                    lemma_find_byte(rest@, sep);
                }
                let ghost pre = out.deep_view();
                let piece = vstd::slice::slice_to_vec(&rest[0..k]);
                proof {
                    assert(rest@.take(k as int) =~= piece@);
                    assert(rest@.skip(k as int + 1) =~= s@.skip(pos + k + 1));
                    assert(spec_split(rest@, sep) == seq![piece@] + spec_split(
                        s@.skip(pos + k + 1),
                        sep,
                    ));
                }
                out.push(piece);
                pos = pos + k + 1;
                proof {
                    assert(out.deep_view() =~~= pre + seq![piece@]);
                    assert((pre + seq![piece@]) + spec_split(s@.skip(pos as int), sep) =~= pre + (
                    seq![piece@] + spec_split(s@.skip(pos as int), sep)));
                }
            },
            None => {
                let ghost pre = out.deep_view();
                let piece = vstd::slice::slice_to_vec(rest);
                out.push(piece);
                proof {
                    assert(spec_split(rest@, sep) == seq![rest@]);
                    assert(out.deep_view() =~~= pre + seq![piece@]);
                    assert(seq![piece@] =~= seq![rest@]);
                }
                return out;
            },
        }
    }
}

/// The lines of a block: pieces split on a newline, without the empty piece
/// that a trailing newline would add.
pub open spec fn spec_lines(s: Seq<u8>) -> Seq<Seq<u8>> {
    if s.len() == 0 {
        Seq::empty()
    } else {
        let p = spec_split(s, 10);
        if p.last().len() == 0 {
            p.drop_last()
        } else {
            p
        }
    }
}

/// Splits a block into lines.
pub fn lines(s: &[u8]) -> (r: Vec<Vec<u8>>)
    ensures
        r.deep_view() == spec_lines(s@),
{
    if s.len() == 0 {
        let out: Vec<Vec<u8>> = Vec::new();
        assert(out.deep_view() =~= spec_lines(s@));
        return out;
    }
    let mut p = split(s, 10);
    proof {
        lemma_split_len(s@, 10);
        assert(p.deep_view().len() == p@.len());
    }
    if p[p.len() - 1].len() == 0 {
        proof {
            assert(p.deep_view().last() == p@.last().deep_view());
            assert(p.deep_view().last().len() == 0);
        }
        let _ = p.pop();
        assert(p.deep_view() =~= spec_lines(s@));
        p
    } else {
        proof {
            assert(p.deep_view().last() == p@.last().deep_view());
            assert(p.deep_view().last().len() != 0);
        }
        p
    }
}

/// Whether a byte is a decimal digit.
pub open spec fn spec_is_digit(b: u8) -> bool {
    48 <= b <= 57
}

/// Whether every byte of the sequence is a decimal digit.
pub open spec fn spec_all_digits(s: Seq<u8>) -> bool {
    forall|i: int| 0 <= i < s.len() ==> spec_is_digit(#[trigger] s[i])
}

/// The numeric value of a digit sequence, most significant digit first.
pub open spec fn spec_digits_val(s: Seq<u8>) -> int
    decreases s.len(),
{
    if s.len() == 0 {
        0
    } else {
        spec_digits_val(s.drop_last()) * 10 + (s.last() - 48)
    }
}

/// The parse of a decimal unsigned integer: defined exactly when the input is
/// one or more digits whose value fits, with no sign and no other character.
pub open spec fn spec_parse_u64(s: Seq<u8>) -> Option<u64> {
    if s.len() > 0 && spec_all_digits(s) && spec_digits_val(s) <= u64::MAX {
        Some(spec_digits_val(s) as u64)
    } else {
        None
    }
}

/// A digit sequence has a non-negative value.
pub proof fn lemma_digits_val_nonneg(s: Seq<u8>)
    requires
        spec_all_digits(s),
    ensures
        spec_digits_val(s) >= 0,
    decreases s.len(),
{
    if s.len() > 0 {
        assert(spec_all_digits(s.drop_last())) by {
            assert(forall|i: int| 0 <= i < s.len() - 1 ==> s.drop_last()[i] == s[i]);
        }
        lemma_digits_val_nonneg(s.drop_last());
    }
}

/// Extending a digit sequence never lowers its value.
pub proof fn lemma_digits_val_mono(s: Seq<u8>, i: int)
    requires
        spec_all_digits(s),
        0 <= i <= s.len(),
    ensures
        spec_digits_val(s.take(i)) <= spec_digits_val(s),
    decreases s.len() - i,
{
    if i < s.len() {
        lemma_digits_val_mono(s, i + 1);
        assert(spec_all_digits(s.take(i))) by {
            assert(forall|j: int| 0 <= j < i ==> s.take(i)[j] == s[j]);
        }
        lemma_digits_val_nonneg(s.take(i));
        assert(s.take(i + 1).drop_last() == s.take(i));
        assert(s.take(i + 1).last() == s[i]);
        assert(spec_digits_val(s.take(i + 1)) == spec_digits_val(s.take(i)) * 10 + (s[i] - 48));
        assert(spec_digits_val(s.take(i)) * 10 >= spec_digits_val(s.take(i))) by (nonlinear_arith)
            requires spec_digits_val(s.take(i)) >= 0;
    } else {
        assert(s.take(i) == s);
    }
}

/// Parses a decimal unsigned integer, rejecting signs, non-digits, the empty
/// string and any value over `u64::MAX`.
pub fn parse_u64(s: &[u8]) -> (r: Option<u64>)
    ensures
        r == spec_parse_u64(s@),
{
    if s.len() == 0 {
        return None;
    }
    let mut n: u64 = 0;
    let mut i: usize = 0;
    while i < s.len()
        invariant
            0 < s@.len(),
            i <= s.len(),
            spec_all_digits(s@.take(i as int)),
            n == spec_digits_val(s@.take(i as int)),
        decreases s.len() - i,
    {
        let b = s[i];
        if !(48 <= b && b <= 57) {
            assert(!spec_all_digits(s@));
            return None;
        }
        let d = (b - 48) as u64;
        if n > (u64::MAX - d) / 10 {
            proof {
                assert(spec_digits_val(s@.take(i as int + 1)) > u64::MAX) by {
                    assert(s@.take(i as int + 1).drop_last() == s@.take(i as int));
                    assert(s@.take(i as int + 1).last() == s@[i as int]);
                    assert(n * 10 + d > u64::MAX) by (nonlinear_arith)
                        requires
                            n > (u64::MAX - d) / 10,
                            0 <= d <= 9,
                            n >= 0;
                }
                if spec_all_digits(s@) {
                    lemma_digits_val_mono(s@, i as int + 1);
                }
            }
            return None;
        }
        proof {
            assert(n * 10 + d <= u64::MAX) by (nonlinear_arith)
                requires
                    n <= (u64::MAX - d) / 10,
                    0 <= d <= 9,
                    n >= 0;
            assert(s@.take(i as int + 1).drop_last() == s@.take(i as int));
            assert(s@.take(i as int + 1).last() == s@[i as int]);
            assert(spec_all_digits(s@.take(i as int + 1)));
        }
        n = n * 10 + d;
        i += 1;
    }
    proof {
        assert(s@.take(s@.len() as int) == s@);
        lemma_digits_val_nonneg(s@);
    }
    Some(n)
}

/// Removes leading whitespace from a slice.
pub fn trim_start(s: &[u8]) -> (r: &[u8])
    ensures
        r@ == spec_trim_start(s@),
{
    let lo = trim_start_index(s);
    let r = &s[lo..s.len()];
    assert(r@ =~= s@.skip(lo as int));
    r
}

/// Removes trailing whitespace from a slice.
pub fn trim_end(s: &[u8]) -> (r: &[u8])
    ensures
        r@ == spec_trim_end(s@),
{
    let hi = trim_end_index(s);
    let r = &s[0..hi];
    assert(r@ =~= s@.take(hi as int));
    r
}

/// Removes leading and trailing whitespace from a slice.
pub fn trim(s: &[u8]) -> (r: &[u8])
    ensures
        r@ == spec_trim(s@),
{
    let lo = trim_start_index(s);
    let t = &s[lo..s.len()];
    assert(t@ == s@.skip(lo as int));
    let hi = trim_end_index(t);
    let r = &t[0..hi];
    assert(r@ == t@.take(hi as int));
    r
}

/// The count of leading whitespace bytes, as an index into the slice.
fn trim_start_index(s: &[u8]) -> (i: usize)
    ensures
        i <= s@.len(),
        spec_trim_start(s@) == s@.skip(i as int),
{
    let mut i: usize = 0;
    proof {
        assert(s@.skip(0) =~= s@);
    }
    while i < s.len() && is_ws(s[i])
        invariant
            i <= s.len(),
            spec_trim_start(s@) == spec_trim_start(s@.skip(i as int)),
        decreases s.len() - i,
    {
        proof {
            assert(s@.skip(i as int).drop_first() == s@.skip(i as int + 1));
        }
        i += 1;
    }
    proof {
        if i < s.len() {
            assert(!spec_is_ws(s@.skip(i as int)[0]));
        }
        assert(spec_trim_start(s@.skip(i as int)) == s@.skip(i as int));
    }
    i
}

/// The count of bytes left once trailing whitespace goes, as an index.
fn trim_end_index(s: &[u8]) -> (j: usize)
    ensures
        j <= s@.len(),
        spec_trim_end(s@) == s@.take(j as int),
{
    let mut j: usize = s.len();
    proof {
        assert(s@.take(s@.len() as int) =~= s@);
    }
    while j > 0 && is_ws(s[j - 1])
        invariant
            j <= s.len(),
            spec_trim_end(s@) == spec_trim_end(s@.take(j as int)),
        decreases j,
    {
        proof {
            assert(s@.take(j as int).drop_last() == s@.take(j as int - 1));
            assert(s@.take(j as int).last() == s@[j - 1]);
        }
        j -= 1;
    }
    proof {
        if j > 0 {
            assert(s@.take(j as int).last() == s@[j - 1]);
        }
        assert(spec_trim_end(s@.take(j as int)) == s@.take(j as int));
    }
    j
}

} // verus!
