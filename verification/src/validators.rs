//! One pure validator per recognized field: each takes a raw value and
//! produces either a typed value or the specific error kind, exactly as the
//! spec-level model beside it says.

use vstd::prelude::*;
use vstd::string::StringSliceAdditionalSpecFns;

use crate::eip::{spec_category, spec_status, spec_type, Category, Date, Status, Type};
use crate::error::Error;
use crate::foreign::{email_ok, parse_date, spec_email_ok, spec_parsed_date, spec_url_ok, url_ok};
use crate::text::{
    bytes_is, find_byte, is_ws, parse_u64, spec_find_byte, spec_has_leading_ws,
    spec_has_trailing_ws, spec_is_ws, spec_parse_u64, spec_split, spec_trim, split, trim,
};

verus! {

/// The longest accepted title, in bytes.
pub const TITLE_MAX_LEN: usize = 44;

/// The longest accepted description, in bytes.
pub const DESCRIPTION_MAX_LEN: usize = 140;

/// The four delimiter bytes that open and close a preamble block.
pub open spec fn spec_delim() -> Seq<u8> {
    ("---\n").spec_bytes()
}

/// Whether the document opens with the start delimiter.
pub open spec fn spec_starts_with_delim(s: Seq<u8>) -> bool {
    s.len() >= 4 && s.subrange(0, 4) == spec_delim()
}

/// The first position at or after `from` where the delimiter stands.
pub open spec fn spec_find_delim(s: Seq<u8>, from: int) -> Option<int>
    decreases s.len() - from when from >= 0
{
    if from + 4 > s.len() {
        None
    } else if s.subrange(from, from + 4) == spec_delim() {
        Some(from)
    } else {
        spec_find_delim(s, from + 1)
    }
}

/// What a [`spec_find_delim`] answer means, position by position.
pub proof fn lemma_find_delim(s: Seq<u8>, from: int)
    requires
        from >= 0,
    ensures
        match spec_find_delim(s, from) {
            Some(i) => from <= i && i + 4 <= s.len() && s.subrange(i, i + 4) == spec_delim()
                && forall|j: int| from <= j < i ==> #[trigger] s.subrange(j, j + 4) != spec_delim(),
            None => forall|j: int|
                from <= j && j + 4 <= s.len() ==> #[trigger] s.subrange(j, j + 4) != spec_delim(),
        },
    decreases s.len() - from,
{
    if from + 4 <= s.len() && s.subrange(from, from + 4) != spec_delim() {
        lemma_find_delim(s, from + 1);
    }
}

/// The block between the delimiters and the body after the closing one;
/// a missing delimiter is the one unrecoverable kind of failure.
pub open spec fn spec_preamble_split(s: Seq<u8>) -> Result<(Seq<u8>, Seq<u8>), Error> {
    if !spec_starts_with_delim(s) {
        Err(Error::StartDelimiterMissing)
    } else {
        match spec_find_delim(s, 4) {
            None => Err(Error::EndDelimiterMissing),
            Some(i) => Ok((s.subrange(4, i), s.subrange(i + 4, s.len() as int))),
        }
    }
}

/// Splits a document into its preamble block and its body.
pub fn preamble<'a>(s: &'a [u8]) -> (r: Result<(&'a [u8], &'a [u8]), Error>)
    ensures
        match r {
            Ok(p) => spec_preamble_split(s@) == Ok::<_, Error>((p.0@, p.1@)),
            Err(e) => spec_preamble_split(s@) == Err::<(Seq<u8>, Seq<u8>), _>(e),
        },
{
    if s.len() < 4 || !bytes_is(&s[0..4], "---\n") {
        proof {
            if s@.len() >= 4 {
                assert(s@.subrange(0, 4) != spec_delim());
            }
        }
        return Err(Error::StartDelimiterMissing);
    }
    assert(spec_starts_with_delim(s@));
    let mut i: usize = 4;
    proof {
        lemma_find_delim(s@, 4);
    }
    while i <= s.len() - 4
        invariant
            s@.len() >= 4,
            spec_starts_with_delim(s@),
            4 <= i,
            i <= s@.len() + 4,
            forall|j: int| 4 <= j < i ==> #[trigger] s@.subrange(j, j + 4) != spec_delim(),
            match spec_find_delim(s@, 4) {
                Some(k) => 4 <= k && k + 4 <= s@.len() && s@.subrange(k, k + 4) == spec_delim()
                    && forall|j: int| 4 <= j < k ==> #[trigger] s@.subrange(j, j + 4) != spec_delim(),
                None => forall|j: int|
                    4 <= j && j + 4 <= s@.len() ==> #[trigger] s@.subrange(j, j + 4) != spec_delim(),
            },
        decreases s.len() - i,
    {
        if bytes_is(&s[i..i + 4], "---\n") {
            assert(s@.subrange(i as int, i as int + 4) =~= spec_delim());
            assert(spec_find_delim(s@, 4) == Some(i as int));
            let block = &s[4..i];
            let rest = &s[i + 4..s.len()];
            assert(block@ =~= s@.subrange(4, i as int));
            assert(rest@ =~= s@.subrange(i as int + 4, s@.len() as int));
            assert(spec_preamble_split(s@) == Ok::<_, Error>((block@, rest@)));
            return Ok((block, rest));
        }
        assert(s@.subrange(i as int, i as int + 4) != spec_delim());
        i += 1;
    }
    assert(spec_find_delim(s@, 4) is None);
    Err(Error::EndDelimiterMissing)
}

/// The identifier a raw value spells: one or more decimal digits whose value
/// fits an unsigned 64-bit integer, with no sign and nothing else.
pub open spec fn spec_eip(s: Seq<u8>) -> Result<u64, Error> {
    match spec_parse_u64(s) {
        Some(n) => Ok(n),
        None => Err(Error::MalformedEipNumber),
    }
}

/// Validates the identifier field.
pub fn eip(s: &[u8]) -> (r: Result<u64, Error>)
    ensures
        r == spec_eip(s@),
{
    match parse_u64(s) {
        Some(n) => Ok(n),
        None => Err(Error::MalformedEipNumber),
    }
}

/// The title a raw value spells: any bytes up to the maximum length.
pub open spec fn spec_title(s: Seq<u8>) -> Result<Seq<u8>, Error> {
    if s.len() > TITLE_MAX_LEN {
        Err(Error::TitleExceedsMaxLength)
    } else {
        Ok(s)
    }
}

/// Validates the title field.
pub fn title(s: &[u8]) -> (r: Result<Vec<u8>, Error>)
    ensures
        match r {
            Ok(v) => spec_title(s@) == Ok::<_, Error>(v@),
            Err(e) => spec_title(s@) == Err::<Seq<u8>, _>(e),
        },
{
    if TITLE_MAX_LEN < s.len() {
        return Err(Error::TitleExceedsMaxLength);
    }
    Ok(vstd::slice::slice_to_vec(s))
}

/// The description a raw value spells: any bytes up to the maximum length.
pub open spec fn spec_description(s: Seq<u8>) -> Result<Seq<u8>, Error> {
    if s.len() > DESCRIPTION_MAX_LEN {
        Err(Error::DescriptionExceedsMaxLength)
    } else {
        Ok(s)
    }
}

/// Validates the description field.
pub fn description(s: &[u8]) -> (r: Result<Vec<u8>, Error>)
    ensures
        match r {
            Ok(v) => spec_description(s@) == Ok::<_, Error>(v@),
            Err(e) => spec_description(s@) == Err::<Seq<u8>, _>(e),
        },
{
    if DESCRIPTION_MAX_LEN < s.len() {
        return Err(Error::DescriptionExceedsMaxLength);
    }
    Ok(vstd::slice::slice_to_vec(s))
}

/// The discussion link a raw value spells: the bytes themselves, accepted
/// exactly when they parse as an absolute URL.
pub open spec fn spec_discussions_to(s: Seq<u8>) -> Result<Seq<u8>, Error> {
    if spec_url_ok(s) {
        Ok(s)
    } else {
        Err(Error::MalformedDiscussionsTo)
    }
}

/// Validates the discussions-to field.
pub fn discussions_to(s: &[u8]) -> (r: Result<Vec<u8>, Error>)
    ensures
        match r {
            Ok(v) => spec_discussions_to(s@) == Ok::<_, Error>(v@),
            Err(e) => spec_discussions_to(s@) == Err::<Seq<u8>, _>(e),
        },
{
    if url_ok(s) {
        Ok(vstd::slice::slice_to_vec(s))
    } else {
        Err(Error::MalformedDiscussionsTo)
    }
}

/// The resolution link a raw value spells, accepted exactly when it parses
/// as an absolute URL.
pub open spec fn spec_resolution(s: Seq<u8>) -> Result<Seq<u8>, Error> {
    if spec_url_ok(s) {
        Ok(s)
    } else {
        Err(Error::MalformedResolution)
    }
}

/// Validates the resolution field.
pub fn resolution(s: &[u8]) -> (r: Result<Vec<u8>, Error>)
    ensures
        match r {
            Ok(v) => spec_resolution(s@) == Ok::<_, Error>(v@),
            Err(e) => spec_resolution(s@) == Err::<Seq<u8>, _>(e),
        },
{
    if url_ok(s) {
        Ok(vstd::slice::slice_to_vec(s))
    } else {
        Err(Error::MalformedResolution)
    }
}

/// The date a raw value spells in `YYYY-MM-DD`, with the error kind the
/// field reports when it does not.
pub open spec fn spec_date(s: Seq<u8>, err: Error) -> Result<Date, Error> {
    match spec_parsed_date(s) {
        Some(t) => Ok(Date { year: t.0, month: t.1, day: t.2 }),
        None => Err(err),
    }
}

/// Validates the status field.
pub fn status(s: &[u8]) -> (r: Result<Status, Error>)
    ensures
        r == spec_status(s@),
{
    Status::from_bytes(s)
}

/// Validates the type field.
pub fn ty(s: &[u8]) -> (r: Result<Type, Error>)
    ensures
        r == spec_type(s@),
{
    Type::from_bytes(s)
}

/// Validates the category field.
pub fn category(s: &[u8]) -> (r: Result<Category, Error>)
    ensures
        r == spec_category(s@),
{
    Category::from_bytes(s)
}

/// Validates the review-period-end field.
pub fn review_period_end(s: &[u8]) -> (r: Result<Date, Error>)
    ensures
        r == spec_date(s@, Error::MalformedLastCallDeadline),
{
    match parse_date(s) {
        Some(t) => Ok(Date { year: t.0, month: t.1, day: t.2 }),
        None => Err(Error::MalformedLastCallDeadline),
    }
}

/// Validates the created field.
pub fn created(s: &[u8]) -> (r: Result<Date, Error>)
    ensures
        r == spec_date(s@, Error::MalformedCreated),
{
    match parse_date(s) {
        Some(t) => Ok(Date { year: t.0, month: t.1, day: t.2 }),
        None => Err(Error::MalformedCreated),
    }
}

} // verus!

verus! {

/// The spacing error a list element earns, if any: after every comma exactly
/// one space, no space before the first element, none before any comma.
pub open spec fn spec_csv_shape_err(i: int, x: Seq<u8>) -> Option<Error> {
    if i == 0 && spec_has_leading_ws(x) {
        Some(Error::MissingSpaceAfterComma)
    } else if i != 0 && !(x.len() >= 1 && spec_is_ws(x[0]) && (x.len() == 1 || !spec_is_ws(x[1]))) {
        Some(Error::MissingSpaceAfterComma)
    } else if spec_has_trailing_ws(x) {
        Some(Error::ExtraWhitespaceBeforeComma)
    } else {
        None
    }
}

/// Checks one list element's spacing.
fn csv_shape_err(i: usize, x: &[u8]) -> (r: Option<Error>)
    ensures
        r == spec_csv_shape_err(i as int, x@),
{
    if i == 0 {
        if x.len() > 0 && is_ws(x[0]) {
            return Some(Error::MissingSpaceAfterComma);
        }
    } else {
        if !(x.len() >= 1 && is_ws(x[0]) && (x.len() == 1 || !is_ws(x[1]))) {
            return Some(Error::MissingSpaceAfterComma);
        }
    }
    if x.len() > 0 && is_ws(x[x.len() - 1]) {
        return Some(Error::ExtraWhitespaceBeforeComma);
    }
    None
}

/// The value of an ordered identifier list from element `i` on, given the
/// values accepted so far: spacing is checked, each element parses as an
/// identifier, and no element may be smaller than the one before it.
pub open spec fn spec_eip_list_from(elems: Seq<Seq<u8>>, i: int, acc: Seq<u64>) -> Result<
    Seq<u64>,
    Error,
>
    decreases elems.len() - i when 0 <= i <= elems.len()
{
    if i >= elems.len() {
        Ok(acc)
    } else {
        match spec_csv_shape_err(i, elems[i]) {
            Some(e) => Err(e),
            None => match spec_parse_u64(spec_trim(elems[i])) {
                None => Err(Error::MalformedEipNumber),
                Some(n) => if acc.len() > 0 && acc.last() > n {
                    Err(Error::OutOfOrderEips)
                } else {
                    spec_eip_list_from(elems, i + 1, acc.push(n))
                },
            },
        }
    }
}

/// The value of an ordered identifier list: comma-separated, spaced, each
/// element an identifier, non-decreasing.
pub open spec fn spec_eip_list(s: Seq<u8>) -> Result<Seq<u64>, Error> {
    spec_eip_list_from(spec_split(s, ',' as u8), 0, Seq::empty())
}

/// Validates one comma-separated ordered identifier list.
fn eip_list(s: &[u8]) -> (r: Result<Vec<u64>, Error>)
    ensures
        match r {
            Ok(v) => spec_eip_list(s@) == Ok::<_, Error>(v@),
            Err(e) => spec_eip_list(s@) == Err::<Seq<u64>, _>(e),
        },
{
    let parts = split(s, ',' as u8);
    let ghost elems = parts.deep_view();
    let mut acc: Vec<u64> = Vec::new();
    let mut i: usize = 0;
    while i < parts.len()
        invariant
            i <= parts@.len(),
            elems == parts.deep_view(),
            elems.len() == parts@.len(),
            spec_eip_list(s@) == spec_eip_list_from(elems, i as int, acc@),
        decreases parts@.len() - i,
    {
        proof {
            assert(elems[i as int] =~= parts@[i as int]@);
        }
        let x: &[u8] = parts[i].as_slice();
        match csv_shape_err(i, x) {
            Some(e) => {
                return Err(e);
            },
            None => {},
        }
        let t = trim(x);
        match parse_u64(t) {
            None => {
                return Err(Error::MalformedEipNumber);
            },
            Some(n) => {
                if acc.len() > 0 && acc[acc.len() - 1] > n {
                    return Err(Error::OutOfOrderEips);
                }
                acc.push(n);
            },
        }
        i += 1;
    }
    Ok(acc)
}

/// Validates the requires field.
pub fn requires_list(s: &[u8]) -> (r: Result<Vec<u64>, Error>)
    ensures
        match r {
            Ok(v) => spec_eip_list(s@) == Ok::<_, Error>(v@),
            Err(e) => spec_eip_list(s@) == Err::<Seq<u64>, _>(e),
        },
{
    eip_list(s)
}

/// Validates the replaces field.
pub fn replaces(s: &[u8]) -> (r: Result<Vec<u64>, Error>)
    ensures
        match r {
            Ok(v) => spec_eip_list(s@) == Ok::<_, Error>(v@),
            Err(e) => spec_eip_list(s@) == Err::<Seq<u64>, _>(e),
        },
{
    eip_list(s)
}

/// Validates the superseded-by field.
pub fn superseded_by(s: &[u8]) -> (r: Result<Vec<u64>, Error>)
    ensures
        match r {
            Ok(v) => spec_eip_list(s@) == Ok::<_, Error>(v@),
            Err(e) => spec_eip_list(s@) == Err::<Seq<u64>, _>(e),
        },
{
    eip_list(s)
}

} // verus!

verus! {

/// The bytes strictly between two positions, or nothing when they do not
/// enclose anything.
pub open spec fn spec_between(x: Seq<u8>, a: int, b: int) -> Seq<u8> {
    if 0 <= a && a + 1 <= b && b <= x.len() {
        x.subrange(a + 1, b)
    } else {
        Seq::empty()
    }
}

/// Whether a byte is an ASCII letter or digit.
pub open spec fn spec_is_alnum(b: u8) -> bool {
    48 <= b <= 57 || 65 <= b <= 90 || 97 <= b <= 122
}

/// Executable mirror of [`spec_is_alnum`].
fn is_alnum(b: u8) -> (r: bool)
    ensures
        r == spec_is_alnum(b),
{
    (48 <= b && b <= 57) || (65 <= b && b <= 90) || (97 <= b && b <= 122)
}

/// The accepted handle shape: an `@`, then runs of letters and digits
/// joined by single dashes.
pub open spec fn spec_is_handle(p: Seq<u8>) -> bool {
    &&& p.len() >= 2
    &&& p[0] == '@' as u8
    &&& forall|i: int| 1 <= i < p.len() ==> spec_is_alnum(#[trigger] p[i]) || p[i] == '-' as u8
    &&& spec_is_alnum(p[1])
    &&& spec_is_alnum(p[p.len() - 1])
    &&& forall|i: int|
        1 <= i < p.len() - 1 ==> !(#[trigger] p[i] == '-' as u8 && p[i + 1] == '-' as u8)
}

/// Decides the handle shape.
pub fn is_handle(p: &[u8]) -> (r: bool)
    ensures
        r == spec_is_handle(p@),
{
    if p.len() < 2 {
        return false;
    }
    if p[0] != '@' as u8 {
        return false;
    }
    if !is_alnum(p[1]) {
        return false;
    }
    if !is_alnum(p[p.len() - 1]) {
        return false;
    }
    let mut i: usize = 1;
    while i < p.len()
        invariant
            1 <= i <= p@.len(),
            p@.len() >= 2,
            forall|j: int| 1 <= j < i ==> spec_is_alnum(#[trigger] p@[j]) || p@[j] == '-' as u8,
            forall|j: int|
                1 <= j < i && j < p@.len() - 1 ==> !(#[trigger] p@[j] == '-' as u8 && p@[j + 1]
                    == '-' as u8),
        decreases p@.len() - i,
    {
        if !(is_alnum(p[i]) || p[i] == '-' as u8) {
            return false;
        }
        if i + 1 < p.len() && p[i] == '-' as u8 && p[i + 1] == '-' as u8 {
            return false;
        }
        i += 1;
    }
    true
}

/// The rest of an author entry's email check: the closing delimiter must
/// end the entry, and the enclosed text must have the email shape.
pub open spec fn spec_email_part(x: Seq<u8>, a: int, b: int) -> Option<Error> {
    if b != x.len() - 1 {
        Some(Error::TrailingInfoAfterEmail)
    } else if !spec_email_ok(spec_between(x, a, b)) {
        Some(Error::MalformedEmail)
    } else {
        None
    }
}

/// The rest of an author entry's handle check: the enclosed text must have
/// the handle shape, and the closing delimiter must end the entry.
pub open spec fn spec_handle_part(x: Seq<u8>, a: int, b: int) -> Option<Error> {
    if !spec_is_handle(spec_between(x, a, b)) {
        Some(Error::MalformedHandle)
    } else if b != x.len() - 1 {
        Some(Error::TrailingInfoAfterHandle)
    } else {
        None
    }
}

/// The error one author entry earns, if any: a display name with exactly
/// one contact, an email in `<...>` or a handle in `(...)`, closing the
/// entry.
pub open spec fn spec_author_entry(x: Seq<u8>) -> Option<Error> {
    match (
        spec_find_byte(x, '<' as u8),
        spec_find_byte(x, '>' as u8),
        spec_find_byte(x, '(' as u8),
        spec_find_byte(x, ')' as u8),
    ) {
        (Some(_), None, _, _) => Some(Error::UnmatchedEmailDelimiter),
        (None, Some(_), _, _) => Some(Error::UnmatchedEmailDelimiter),
        (_, _, Some(_), None) => Some(Error::UnmatchedHandleDelimiter),
        (_, _, None, Some(_)) => Some(Error::UnmatchedHandleDelimiter),
        (Some(_), Some(_), Some(_), Some(_)) => Some(Error::AuthorHasEmailAndHandle),
        (Some(a), Some(b), None, None) => spec_email_part(x, a, b),
        (None, None, Some(a), Some(b)) => spec_handle_part(x, a, b),
        (None, None, None, None) => Some(Error::AuthorHasNoContactDetails),
    }
}

/// Checks one author entry.
pub fn check_author(x: &[u8]) -> (r: Option<Error>)
    ensures
        r == spec_author_entry(x@),
{
    proof {
        crate::text::lemma_find_byte(x@, '<' as u8);
        crate::text::lemma_find_byte(x@, '>' as u8);
        crate::text::lemma_find_byte(x@, '(' as u8);
        crate::text::lemma_find_byte(x@, ')' as u8);
    }
    let es = find_byte(x, '<' as u8);
    let ee = find_byte(x, '>' as u8);
    let hs = find_byte(x, '(' as u8);
    let he = find_byte(x, ')' as u8);
    match (es, ee, hs, he) {
        (Some(_), None, _, _) => Some(Error::UnmatchedEmailDelimiter),
        (None, Some(_), _, _) => Some(Error::UnmatchedEmailDelimiter),
        (_, _, Some(_), None) => Some(Error::UnmatchedHandleDelimiter),
        (_, _, None, Some(_)) => Some(Error::UnmatchedHandleDelimiter),
        (Some(_), Some(_), Some(_), Some(_)) => Some(Error::AuthorHasEmailAndHandle),
        (Some(a), Some(b), None, None) => {
            if b != x.len() - 1 {
                Some(Error::TrailingInfoAfterEmail)
            } else {
                let inner = if a < b {
                    &x[a + 1..b]
                } else {
                    &x[0..0]
                };
                proof {
                    assert(inner@ =~= spec_between(x@, a as int, b as int));
                }
                if !email_ok(inner) {
                    Some(Error::MalformedEmail)
                } else {
                    None
                }
            }
        },
        (None, None, Some(a), Some(b)) => {
            let inner = if a < b {
                &x[a + 1..b]
            } else {
                &x[0..0]
            };
            proof {
                assert(inner@ =~= spec_between(x@, a as int, b as int));
            }
            if !is_handle(inner) {
                Some(Error::MalformedHandle)
            } else if b != x.len() - 1 {
                Some(Error::TrailingInfoAfterHandle)
            } else {
                None
            }
        },
        (None, None, None, None) => Some(Error::AuthorHasNoContactDetails),
    }
}

/// Validates one author entry, appending it to the accepted list when it is
/// well-formed and leaving the list unchanged when it is not.
pub fn validate_author(acc: &mut Vec<Vec<u8>>, s: &[u8]) -> (r: Result<(), Error>)
    ensures
        match r {
            Ok(_) => spec_author_entry(s@) == None::<Error> && final(acc).deep_view() == old(
                acc,
            ).deep_view().push(s@),
            Err(e) => spec_author_entry(s@) == Some(e) && final(acc).deep_view() == old(
                acc,
            ).deep_view(),
        },
{
    match check_author(s) {
        Some(e) => Err(e),
        None => {
            let ghost pre = acc.deep_view();
            acc.push(vstd::slice::slice_to_vec(s));
            proof {
                assert(acc.deep_view() =~~= pre.push(s@));
            }
            Ok(())
        },
    }
}

/// The value of the author list from element `i` on: spacing is checked and
/// each trimmed entry must be a well-formed author entry.
pub open spec fn spec_author_list_from(elems: Seq<Seq<u8>>, i: int, acc: Seq<Seq<u8>>) -> Result<
    Seq<Seq<u8>>,
    Error,
>
    decreases elems.len() - i when 0 <= i <= elems.len()
{
    if i >= elems.len() {
        Ok(acc)
    } else {
        match spec_csv_shape_err(i, elems[i]) {
            Some(e) => Err(e),
            None => {
                let t = spec_trim(elems[i]);
                match spec_author_entry(t) {
                    Some(e) => Err(e),
                    None => spec_author_list_from(elems, i + 1, acc.push(t)),
                }
            },
        }
    }
}

/// The value of the author field: a comma-separated, spaced, non-empty list
/// of well-formed author entries, kept in declaration order.
pub open spec fn spec_author_list(s: Seq<u8>) -> Result<Seq<Seq<u8>>, Error> {
    spec_author_list_from(spec_split(s, ',' as u8), 0, Seq::empty())
}

/// Validates the author field.
pub fn author(s: &[u8]) -> (r: Result<Vec<Vec<u8>>, Error>)
    ensures
        match r {
            Ok(v) => spec_author_list(s@) == Ok::<_, Error>(v.deep_view()),
            Err(e) => spec_author_list(s@) == Err::<Seq<Seq<u8>>, _>(e),
        },
{
    let parts = split(s, ',' as u8);
    let ghost elems = parts.deep_view();
    let mut acc: Vec<Vec<u8>> = Vec::new();
    let mut i: usize = 0;
    proof {
        assert(acc.deep_view() =~= Seq::<Seq<u8>>::empty());
    }
    while i < parts.len()
        invariant
            i <= parts@.len(),
            elems == parts.deep_view(),
            elems.len() == parts@.len(),
            spec_author_list(s@) == spec_author_list_from(elems, i as int, acc.deep_view()),
        decreases parts@.len() - i,
    {
        proof {
            assert(elems[i as int] =~= parts@[i as int]@);
        }
        let x: &[u8] = parts[i].as_slice();
        match csv_shape_err(i, x) {
            Some(e) => {
                return Err(e);
            },
            None => {},
        }
        let t = trim(x);
        match validate_author(&mut acc, t) {
            Err(e) => {
                return Err(e);
            },
            Ok(_) => {},
        }
        i += 1;
    }
    Ok(acc)
}

/// The value of the updated list from element `i` on: spacing is checked
/// and each trimmed element must spell a calendar date.
pub open spec fn spec_date_list_from(elems: Seq<Seq<u8>>, i: int, acc: Seq<Date>) -> Result<
    Seq<Date>,
    Error,
>
    decreases elems.len() - i when 0 <= i <= elems.len()
{
    if i >= elems.len() {
        Ok(acc)
    } else {
        match spec_csv_shape_err(i, elems[i]) {
            Some(e) => Err(e),
            None => match spec_date(spec_trim(elems[i]), Error::MalformedUpdated) {
                Err(e) => Err(e),
                Ok(d) => spec_date_list_from(elems, i + 1, acc.push(d)),
            },
        }
    }
}

/// The value of the updated field: a comma-separated, spaced list of dates.
pub open spec fn spec_updated(s: Seq<u8>) -> Result<Seq<Date>, Error> {
    spec_date_list_from(spec_split(s, ',' as u8), 0, Seq::empty())
}

/// Validates the updated field.
pub fn updated(s: &[u8]) -> (r: Result<Vec<Date>, Error>)
    ensures
        match r {
            Ok(v) => spec_updated(s@) == Ok::<_, Error>(v@),
            Err(e) => spec_updated(s@) == Err::<Seq<Date>, _>(e),
        },
{
    let parts = split(s, ',' as u8);
    let ghost elems = parts.deep_view();
    let mut acc: Vec<Date> = Vec::new();
    let mut i: usize = 0;
    while i < parts.len()
        invariant
            i <= parts@.len(),
            elems == parts.deep_view(),
            elems.len() == parts@.len(),
            spec_updated(s@) == spec_date_list_from(elems, i as int, acc@),
        decreases parts@.len() - i,
    {
        proof {
            assert(elems[i as int] =~= parts@[i as int]@);
        }
        let x: &[u8] = parts[i].as_slice();
        match csv_shape_err(i, x) {
            Some(e) => {
                return Err(e);
            },
            None => {},
        }
        let t = trim(x);
        match parse_date(t) {
            None => {
                return Err(Error::MalformedUpdated);
            },
            Some(d) => {
                acc.push(Date { year: d.0, month: d.1, day: d.2 });
            },
        }
        i += 1;
    }
    Ok(acc)
}

} // verus!
