//! The closed taxonomy of validation failures.
//!
//! Each kind carries no payload: equality is by tag alone, so a set of kinds
//! expresses suppression directly.

use vstd::prelude::*;
use vstd::string::StringSliceAdditionalSpecFns;

verus! {

/// One validation failure kind.
#[derive(Clone, Copy, Debug, Eq, Hash, PartialEq, Structural)]
pub enum Error {
    // line-shape errors
    MalformedField,
    MissingSpaceAfterColon,
    LeadingWhitespace,
    ExtraWhitespace,
    TrailingWhitespace,
    UnknownPreambleField,
    // missing required fields
    MissingEipField,
    MissingTitleField,
    MissingAuthorField,
    MissingDiscussionsToField,
    MissingStatusField,
    MissingCategoryField,
    MissingTypeField,
    // field-validator errors
    StartDelimiterMissing,
    EndDelimiterMissing,
    MalformedEipNumber,
    TitleExceedsMaxLength,
    DescriptionExceedsMaxLength,
    MalformedDiscussionsTo,
    MalformedResolution,
    UnknownStatus,
    UnknownType,
    UnknownCategory,
    MalformedLastCallDeadline,
    MalformedCreated,
    MalformedUpdated,
    MissingSpaceAfterComma,
    ExtraWhitespaceBeforeComma,
    OutOfOrderEips,
    UnmatchedEmailDelimiter,
    UnmatchedHandleDelimiter,
    AuthorHasEmailAndHandle,
    AuthorHasNoContactDetails,
    TrailingInfoAfterEmail,
    TrailingInfoAfterHandle,
    MalformedEmail,
    MalformedHandle,
}

/// Whether suppression applies to this kind: field-validator results and
/// missing-field checks consult the ignore set; line-shape errors, unknown
/// field names and the two delimiter failures are always surfaced.
pub open spec fn spec_suppressible(e: Error) -> bool {
    match e {
        Error::MalformedField => false,
        Error::MissingSpaceAfterColon => false,
        Error::LeadingWhitespace => false,
        Error::ExtraWhitespace => false,
        Error::TrailingWhitespace => false,
        Error::UnknownPreambleField => false,
        Error::StartDelimiterMissing => false,
        Error::EndDelimiterMissing => false,
        _ => true,
    }
}

/// The error kind a suppression token silences, if the token is
/// recognized: each token names its own specific kind.
pub open spec fn spec_token_error(s: Seq<u8>) -> Option<Error> {
    if s == ("title_max_length").spec_bytes() {
        Some(Error::TitleExceedsMaxLength)
    } else if s == ("description_max_length").spec_bytes() {
        Some(Error::DescriptionExceedsMaxLength)
    } else if s == ("missing_discussions_to").spec_bytes() {
        Some(Error::MissingDiscussionsToField)
    } else {
        None
    }
}

/// The canonical message of each kind: fixed text, determined by the
/// variant alone, carrying no instance data.
pub open spec fn spec_human_readable(e: Error) -> Seq<char> {
    match e {
        Error::MalformedField => ("malformed field")@,
        Error::MissingSpaceAfterColon => ("missing a `space` between colon and value")@,
        Error::ExtraWhitespace => ("extra whitespace")@,
        Error::TrailingWhitespace => ("trailing whitespace")@,
        Error::LeadingWhitespace => ("leading whitespace")@,
        Error::UnknownPreambleField => ("unknown preamble field")@,
        Error::MissingEipField => ("missing EIP field in preamble")@,
        Error::MissingTitleField => ("missing title field in preamble")@,
        Error::MissingAuthorField => ("missing author field in preamble")@,
        Error::MissingDiscussionsToField => ("missing discussions-to field in preamble")@,
        Error::MissingStatusField => ("missing status field in preamble")@,
        Error::MissingCategoryField => ("missing category field in preamble")@,
        Error::MissingTypeField => ("missing type field in preamble")@,
        Error::StartDelimiterMissing => ("missing initial '---' in preamble")@,
        Error::EndDelimiterMissing => ("missing trailing '---' in preamble")@,
        Error::MalformedEipNumber => ("EIP should be an unsigned integer")@,
        Error::TitleExceedsMaxLength => ("title exceeds max length of 44 characters")@,
        Error::DescriptionExceedsMaxLength => ("description exceeds max length of 140 characters")@,
        Error::MalformedDiscussionsTo => ("discussions-to must be a URL")@,
        Error::MalformedResolution => ("resolution must be a URL")@,
        Error::UnknownStatus => ("unknown status")@,
        Error::UnknownType => ("unknown type")@,
        Error::UnknownCategory => ("unknown category")@,
        Error::MalformedLastCallDeadline => ("malformed last-call-deadline date")@,
        Error::MalformedCreated => ("malformed created date")@,
        Error::MalformedUpdated => ("malformed updated date")@,
        Error::MissingSpaceAfterComma => ("comma-separated values must have a single space following each comma")@,
        Error::ExtraWhitespaceBeforeComma => ("comma-separated values must not have spaces before a comma")@,
        Error::OutOfOrderEips => ("numbers must be in ascending order")@,
        Error::UnmatchedEmailDelimiter => ("unmatched email delimiter")@,
        Error::UnmatchedHandleDelimiter => ("unmatched handle delimiter")@,
        Error::AuthorHasEmailAndHandle => ("author can't include both an email and handle")@,
        Error::AuthorHasNoContactDetails => ("author has no contact details")@,
        Error::TrailingInfoAfterEmail => ("trailing information after email")@,
        Error::TrailingInfoAfterHandle => ("trailing information after handle")@,
        Error::MalformedEmail => ("malformed email")@,
        Error::MalformedHandle => ("malformed handle")@,
    }
}

impl Error {
    /// Maps a suppression token, given as raw bytes, to the kind it
    /// silences.
    pub fn from_token(b: &[u8]) -> (r: Option<Self>)
        ensures
            r == spec_token_error(b@),
    {
        if crate::text::bytes_is(b, "title_max_length") {
            Some(Error::TitleExceedsMaxLength)
        } else if crate::text::bytes_is(b, "description_max_length") {
            Some(Error::DescriptionExceedsMaxLength)
        } else if crate::text::bytes_is(b, "missing_discussions_to") {
            Some(Error::MissingDiscussionsToField)
        } else {
            None
        }
    }

    /// Maps a suppression token to the kind it silences; an unrecognized
    /// token is reported as an error to the caller at setup time.
    pub fn from_str(s: &str) -> (r: Result<Self, ()>)
        ensures
            match r {
                Ok(e) => spec_token_error(s.spec_bytes()) == Some(e),
                Err(()) => spec_token_error(s.spec_bytes()) is None,
            },
    {
        match Self::from_token(s.as_bytes()) {
            Some(e) => Ok(e),
            None => Err(()),
        }
    }

    /// The canonical human-readable message of this kind.
    pub fn human_readable(&self) -> (r: &'static str)
        ensures
            r@ == spec_human_readable(*self),
    {
        match self {
            Error::MalformedField => "malformed field",
            Error::MissingSpaceAfterColon => "missing a `space` between colon and value",
            Error::ExtraWhitespace => "extra whitespace",
            Error::TrailingWhitespace => "trailing whitespace",
            Error::LeadingWhitespace => "leading whitespace",
            Error::UnknownPreambleField => "unknown preamble field",
            Error::MissingEipField => "missing EIP field in preamble",
            Error::MissingTitleField => "missing title field in preamble",
            Error::MissingAuthorField => "missing author field in preamble",
            Error::MissingDiscussionsToField => "missing discussions-to field in preamble",
            Error::MissingStatusField => "missing status field in preamble",
            Error::MissingCategoryField => "missing category field in preamble",
            Error::MissingTypeField => "missing type field in preamble",
            Error::StartDelimiterMissing => "missing initial '---' in preamble",
            Error::EndDelimiterMissing => "missing trailing '---' in preamble",
            Error::MalformedEipNumber => "EIP should be an unsigned integer",
            Error::TitleExceedsMaxLength => "title exceeds max length of 44 characters",
            Error::DescriptionExceedsMaxLength => "description exceeds max length of 140 characters",
            Error::MalformedDiscussionsTo => "discussions-to must be a URL",
            Error::MalformedResolution => "resolution must be a URL",
            Error::UnknownStatus => "unknown status",
            Error::UnknownType => "unknown type",
            Error::UnknownCategory => "unknown category",
            Error::MalformedLastCallDeadline => "malformed last-call-deadline date",
            Error::MalformedCreated => "malformed created date",
            Error::MalformedUpdated => "malformed updated date",
            Error::MissingSpaceAfterComma => "comma-separated values must have a single space following each comma",
            Error::ExtraWhitespaceBeforeComma => "comma-separated values must not have spaces before a comma",
            Error::OutOfOrderEips => "numbers must be in ascending order",
            Error::UnmatchedEmailDelimiter => "unmatched email delimiter",
            Error::UnmatchedHandleDelimiter => "unmatched handle delimiter",
            Error::AuthorHasEmailAndHandle => "author can't include both an email and handle",
            Error::AuthorHasNoContactDetails => "author has no contact details",
            Error::TrailingInfoAfterEmail => "trailing information after email",
            Error::TrailingInfoAfterHandle => "trailing information after handle",
            Error::MalformedEmail => "malformed email",
            Error::MalformedHandle => "malformed handle",
        }
    }
}

} // verus!
