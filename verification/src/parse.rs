//! The preamble parser: a line-oriented pass over the delimited block, one
//! dispatch per recognized key, then presence checks for the required
//! fields.  The whole parse is specified as a pure function of the document
//! bytes and the set of ignored error kinds, and the executable parser is
//! proved to return exactly that function's value.

use vstd::prelude::*;
use vstd::string::StringSliceAdditionalSpecFns;

use crate::ctx::Context;
use crate::eip::{spec_empty_preamble, Preamble, PreambleV, Type};
use crate::error::Error;
use crate::text::{
    find_byte, is_ws, lines, spec_find_byte, spec_has_leading_ws, spec_has_trailing_ws,
    spec_is_ws, spec_lines, spec_trim, spec_trim_start, trim_end, trim_start,
};
use crate::validators::{spec_preamble_split, spec_title};

verus! {

/// What one validator outcome surfaces: nothing when the kind is ignored.
pub open spec fn spec_surface(ig: Set<Error>, e: Error) -> Seq<Error> {
    if ig.contains(e) {
        Seq::empty()
    } else {
        seq![e]
    }
}

/// The shape errors a raw key earns: whitespace before it, then whitespace
/// between it and the separator.
pub open spec fn spec_key_errors(k: Seq<u8>) -> Seq<Error> {
    (if spec_has_leading_ws(k) {
        seq![Error::LeadingWhitespace]
    } else {
        Seq::empty()
    }) + (if spec_has_trailing_ws(spec_trim_start(k)) {
        seq![Error::ExtraWhitespace]
    } else {
        Seq::empty()
    })
}

/// The shape errors a raw value earns: more than one space after the
/// separator, or none at all before a non-empty value, then trailing
/// whitespace.
pub open spec fn spec_value_errors(v: Seq<u8>) -> Seq<Error> {
    (if v.len() >= 2 && spec_is_ws(v[0]) && spec_is_ws(v[1]) {
        seq![Error::ExtraWhitespace]
    } else if v.len() >= 1 && !spec_is_ws(v[0]) {
        seq![Error::MissingSpaceAfterColon]
    } else {
        Seq::empty()
    }) + (if spec_has_trailing_ws(spec_trim_start(v)) {
        seq![Error::TrailingWhitespace]
    } else {
        Seq::empty()
    })
}

/// One field dispatch: the trimmed key picks its validator, success stores
/// the typed value, failure records the field as present but invalid and
/// surfaces the validator's error unless it is ignored; an unrecognized key
/// is its own error, never suppressed.
#[verifier::opaque]
pub open spec fn spec_dispatch(ig: Set<Error>, p: PreambleV, key: Seq<u8>, value: Seq<u8>) -> (
    PreambleV,
    Seq<Error>,
) {
    if key == ("eip").spec_bytes() {
        match crate::validators::spec_eip(value) {
            Ok(v) => (PreambleV { eip: Some(Ok(v)), ..p }, Seq::empty()),
            Err(e) => (PreambleV { eip: Some(Err(())), ..p }, spec_surface(ig, e)),
        }
    } else if key == ("title").spec_bytes() {
        match spec_title(value) {
            Ok(v) => (PreambleV { title: Some(Ok(v)), ..p }, Seq::empty()),
            Err(e) => (PreambleV { title: Some(Err(())), ..p }, spec_surface(ig, e)),
        }
    } else if key == ("description").spec_bytes() {
        match crate::validators::spec_description(value) {
            Ok(v) => (PreambleV { description: Some(Ok(v)), ..p }, Seq::empty()),
            Err(e) => (PreambleV { description: Some(Err(())), ..p }, spec_surface(ig, e)),
        }
    } else if key == ("author").spec_bytes() {
        match crate::validators::spec_author_list(value) {
            Ok(v) => (PreambleV { author: Some(Ok(v)), ..p }, Seq::empty()),
            Err(e) => (PreambleV { author: Some(Err(())), ..p }, spec_surface(ig, e)),
        }
    } else if key == ("discussions-to").spec_bytes() {
        match crate::validators::spec_discussions_to(value) {
            Ok(v) => (PreambleV { discussions_to: Some(Ok(v)), ..p }, Seq::empty()),
            Err(e) => (PreambleV { discussions_to: Some(Err(())), ..p }, spec_surface(ig, e)),
        }
    } else if key == ("status").spec_bytes() {
        match crate::eip::spec_status(value) {
            Ok(v) => (PreambleV { status: Some(Ok(v)), ..p }, Seq::empty()),
            Err(e) => (PreambleV { status: Some(Err(())), ..p }, spec_surface(ig, e)),
        }
    } else if key == ("review-period-end").spec_bytes() {
        match crate::validators::spec_date(value, Error::MalformedLastCallDeadline) {
            Ok(v) => (PreambleV { review_period_end: Some(Ok(v)), ..p }, Seq::empty()),
            Err(e) => (PreambleV { review_period_end: Some(Err(())), ..p }, spec_surface(ig, e)),
        }
    } else if key == ("type").spec_bytes() {
        match crate::eip::spec_type(value) {
            Ok(v) => (PreambleV { ty: Some(Ok(v)), ..p }, Seq::empty()),
            Err(e) => (PreambleV { ty: Some(Err(())), ..p }, spec_surface(ig, e)),
        }
    } else if key == ("category").spec_bytes() {
        match crate::eip::spec_category(value) {
            Ok(v) => (PreambleV { category: Some(Ok(v)), ..p }, Seq::empty()),
            Err(e) => (PreambleV { category: Some(Err(())), ..p }, spec_surface(ig, e)),
        }
    } else if key == ("created").spec_bytes() {
        match crate::validators::spec_date(value, Error::MalformedCreated) {
            Ok(v) => (PreambleV { created: Some(Ok(v)), ..p }, Seq::empty()),
            Err(e) => (PreambleV { created: Some(Err(())), ..p }, spec_surface(ig, e)),
        }
    } else if key == ("updated").spec_bytes() {
        match crate::validators::spec_updated(value) {
            Ok(v) => (PreambleV { updated: Some(Ok(v)), ..p }, Seq::empty()),
            Err(e) => (PreambleV { updated: Some(Err(())), ..p }, spec_surface(ig, e)),
        }
    } else if key == ("requires").spec_bytes() {
        match crate::validators::spec_eip_list(value) {
            Ok(v) => (PreambleV { requires: Some(Ok(v)), ..p }, Seq::empty()),
            Err(e) => (PreambleV { requires: Some(Err(())), ..p }, spec_surface(ig, e)),
        }
    } else if key == ("replaces").spec_bytes() {
        match crate::validators::spec_eip_list(value) {
            Ok(v) => (PreambleV { replaces: Some(Ok(v)), ..p }, Seq::empty()),
            Err(e) => (PreambleV { replaces: Some(Err(())), ..p }, spec_surface(ig, e)),
        }
    } else if key == ("superseded-by").spec_bytes() {
        match crate::validators::spec_eip_list(value) {
            Ok(v) => (PreambleV { superseded_by: Some(Ok(v)), ..p }, Seq::empty()),
            Err(e) => (PreambleV { superseded_by: Some(Err(())), ..p }, spec_surface(ig, e)),
        }
    } else if key == ("resolution").spec_bytes() {
        match crate::validators::spec_resolution(value) {
            Ok(v) => (PreambleV { resolution: Some(Ok(v)), ..p }, Seq::empty()),
            Err(e) => (PreambleV { resolution: Some(Err(())), ..p }, spec_surface(ig, e)),
        }
    } else {
        (p, seq![Error::UnknownPreambleField])
    }
}

/// One line's outcome: an empty line is skipped without error; any other
/// line without a separator is malformed and skipped; otherwise the key's
/// and value's shape errors come first, then the dispatched validator's.
pub open spec fn spec_step(ig: Set<Error>, p: PreambleV, line: Seq<u8>) -> (PreambleV, Seq<Error>) {
    if line.len() == 0 {
        (p, Seq::empty())
    } else {
        match spec_find_byte(line, ':' as u8) {
        None => (p, seq![Error::MalformedField]),
        Some(ci) => {
            let key0 = line.take(ci);
            let val0 = line.skip(ci + 1);
            let d = spec_dispatch(ig, p, spec_trim(key0), spec_trim(val0));
            (d.0, spec_key_errors(key0) + spec_value_errors(val0) + d.1)
        },
        }
    }
}

/// The preamble and surfaced errors after processing the given lines in
/// order, starting from the empty preamble.
pub open spec fn spec_lines_fold(ig: Set<Error>, ls: Seq<Seq<u8>>) -> (PreambleV, Seq<Error>)
    decreases ls.len(),
{
    if ls.len() == 0 {
        (spec_empty_preamble(), Seq::empty())
    } else {
        let acc = spec_lines_fold(ig, ls.drop_last());
        let st = spec_step(ig, acc.0, ls.last());
        (st.0, acc.1 + st.1)
    }
}

/// The error an absent required field surfaces, unless it is ignored.
pub open spec fn spec_missing(ig: Set<Error>, absent: bool, e: Error) -> Seq<Error> {
    if absent && !ig.contains(e) {
        seq![e]
    } else {
        Seq::empty()
    }
}

/// The presence-check errors: one for each required field whose key never
/// appeared, and the category check when the type parsed as Standards
/// track.
pub open spec fn spec_presence_errors(ig: Set<Error>, p: PreambleV) -> Seq<Error> {
    spec_missing(ig, p.eip is None, Error::MissingEipField) + spec_missing(
        ig,
        p.title is None,
        Error::MissingTitleField,
    ) + spec_missing(ig, p.author is None, Error::MissingAuthorField) + spec_missing(
        ig,
        p.discussions_to is None,
        Error::MissingDiscussionsToField,
    ) + spec_missing(ig, p.status is None, Error::MissingStatusField) + (match p.ty {
        Some(Ok(t)) => spec_missing(
            ig,
            t == Type::Standards && p.category is None,
            Error::MissingCategoryField,
        ),
        Some(Err(_)) => Seq::empty(),
        None => spec_missing(ig, true, Error::MissingTypeField),
    })
}

/// The whole parse: a missing delimiter is the single error of the whole
/// document; otherwise every line is processed, presence checks run, and
/// the document parses exactly when no error was surfaced.
pub open spec fn spec_parse(ig: Set<Error>, s: Seq<u8>) -> Result<(PreambleV, Seq<u8>), Seq<Error>> {
    match spec_preamble_split(s) {
        Err(e) => Err(seq![e]),
        Ok(t) => {
            let acc = spec_lines_fold(ig, spec_lines(t.0));
            let all = acc.1 + spec_presence_errors(ig, acc.0);
            if all.len() == 0 {
                Ok((acc.0, t.1))
            } else {
                Err(all)
            }
        },
    }
}

/// Appends a validator's error unless it is ignored.
fn surface(ctx: &Context, errors: &mut Vec<Error>, e: Error)
    ensures
        final(errors)@ == old(errors)@ + spec_surface(ctx.ignored_set(), e),
{
    if !ctx.should_ignore(&e) {
        errors.push(e);
        proof {
            assert(final(errors)@ =~= old(errors)@ + seq![e]);
        }
    } else {
        proof {
            assert(final(errors)@ =~= old(errors)@ + Seq::<Error>::empty());
        }
    }
}


/// Stores the outcome of the `eip` field's validator.
fn set_eip(ctx: &Context, p: &mut Preamble, errors: &mut Vec<Error>, value: &[u8])
    ensures
        final(p)@ == (PreambleV {
            eip: match crate::validators::spec_eip(value@) {
                Ok(v) => Some(Ok(v)),
                Err(_) => Some(Err(())),
            },
            ..old(p)@
        }),
        final(errors)@ == old(errors)@ + (match crate::validators::spec_eip(value@) {
            Ok(_) => Seq::<Error>::empty(),
            Err(e) => spec_surface(ctx.ignored_set(), e),
        }),
{
    match crate::validators::eip(value) {
        Ok(v) => {
            p.eip = Some(Ok(v));
            proof {
                assert(errors@ =~= old(errors)@ + Seq::<Error>::empty());
            }
        },
        Err(e) => {
            p.eip = Some(Err(()));
            surface(ctx, errors, e);
        },
    }
}

/// Stores the outcome of the `title` field's validator.
fn set_title(ctx: &Context, p: &mut Preamble, errors: &mut Vec<Error>, value: &[u8])
    ensures
        final(p)@ == (PreambleV {
            title: match spec_title(value@) {
                Ok(v) => Some(Ok(v)),
                Err(_) => Some(Err(())),
            },
            ..old(p)@
        }),
        final(errors)@ == old(errors)@ + (match spec_title(value@) {
            Ok(_) => Seq::<Error>::empty(),
            Err(e) => spec_surface(ctx.ignored_set(), e),
        }),
{
    match crate::validators::title(value) {
        Ok(v) => {
            p.title = Some(Ok(v));
            proof {
                assert(errors@ =~= old(errors)@ + Seq::<Error>::empty());
            }
        },
        Err(e) => {
            p.title = Some(Err(()));
            surface(ctx, errors, e);
        },
    }
}

/// Stores the outcome of the `description` field's validator.
fn set_description(ctx: &Context, p: &mut Preamble, errors: &mut Vec<Error>, value: &[u8])
    ensures
        final(p)@ == (PreambleV {
            description: match crate::validators::spec_description(value@) {
                Ok(v) => Some(Ok(v)),
                Err(_) => Some(Err(())),
            },
            ..old(p)@
        }),
        final(errors)@ == old(errors)@ + (match crate::validators::spec_description(value@) {
            Ok(_) => Seq::<Error>::empty(),
            Err(e) => spec_surface(ctx.ignored_set(), e),
        }),
{
    match crate::validators::description(value) {
        Ok(v) => {
            p.description = Some(Ok(v));
            proof {
                assert(errors@ =~= old(errors)@ + Seq::<Error>::empty());
            }
        },
        Err(e) => {
            p.description = Some(Err(()));
            surface(ctx, errors, e);
        },
    }
}

/// Stores the outcome of the `author` field's validator.
fn set_author(ctx: &Context, p: &mut Preamble, errors: &mut Vec<Error>, value: &[u8])
    ensures
        final(p)@ == (PreambleV {
            author: match crate::validators::spec_author_list(value@) {
                Ok(v) => Some(Ok(v)),
                Err(_) => Some(Err(())),
            },
            ..old(p)@
        }),
        final(errors)@ == old(errors)@ + (match crate::validators::spec_author_list(value@) {
            Ok(_) => Seq::<Error>::empty(),
            Err(e) => spec_surface(ctx.ignored_set(), e),
        }),
{
    match crate::validators::author(value) {
        Ok(v) => {
            p.author = Some(Ok(v));
            proof {
                assert(errors@ =~= old(errors)@ + Seq::<Error>::empty());
            }
        },
        Err(e) => {
            p.author = Some(Err(()));
            surface(ctx, errors, e);
        },
    }
}

/// Stores the outcome of the `discussions_to` field's validator.
fn set_discussions_to(ctx: &Context, p: &mut Preamble, errors: &mut Vec<Error>, value: &[u8])
    ensures
        final(p)@ == (PreambleV {
            discussions_to: match crate::validators::spec_discussions_to(value@) {
                Ok(v) => Some(Ok(v)),
                Err(_) => Some(Err(())),
            },
            ..old(p)@
        }),
        final(errors)@ == old(errors)@ + (match crate::validators::spec_discussions_to(value@) {
            Ok(_) => Seq::<Error>::empty(),
            Err(e) => spec_surface(ctx.ignored_set(), e),
        }),
{
    match crate::validators::discussions_to(value) {
        Ok(v) => {
            p.discussions_to = Some(Ok(v));
            proof {
                assert(errors@ =~= old(errors)@ + Seq::<Error>::empty());
            }
        },
        Err(e) => {
            p.discussions_to = Some(Err(()));
            surface(ctx, errors, e);
        },
    }
}

/// Stores the outcome of the `status` field's validator.
fn set_status(ctx: &Context, p: &mut Preamble, errors: &mut Vec<Error>, value: &[u8])
    ensures
        final(p)@ == (PreambleV {
            status: match crate::eip::spec_status(value@) {
                Ok(v) => Some(Ok(v)),
                Err(_) => Some(Err(())),
            },
            ..old(p)@
        }),
        final(errors)@ == old(errors)@ + (match crate::eip::spec_status(value@) {
            Ok(_) => Seq::<Error>::empty(),
            Err(e) => spec_surface(ctx.ignored_set(), e),
        }),
{
    match crate::validators::status(value) {
        Ok(v) => {
            p.status = Some(Ok(v));
            proof {
                assert(errors@ =~= old(errors)@ + Seq::<Error>::empty());
            }
        },
        Err(e) => {
            p.status = Some(Err(()));
            surface(ctx, errors, e);
        },
    }
}

/// Stores the outcome of the `review_period_end` field's validator.
fn set_review_period_end(ctx: &Context, p: &mut Preamble, errors: &mut Vec<Error>, value: &[u8])
    ensures
        final(p)@ == (PreambleV {
            review_period_end: match crate::validators::spec_date(value@, Error::MalformedLastCallDeadline) {
                Ok(v) => Some(Ok(v)),
                Err(_) => Some(Err(())),
            },
            ..old(p)@
        }),
        final(errors)@ == old(errors)@ + (match crate::validators::spec_date(value@, Error::MalformedLastCallDeadline) {
            Ok(_) => Seq::<Error>::empty(),
            Err(e) => spec_surface(ctx.ignored_set(), e),
        }),
{
    match crate::validators::review_period_end(value) {
        Ok(v) => {
            p.review_period_end = Some(Ok(v));
            proof {
                assert(errors@ =~= old(errors)@ + Seq::<Error>::empty());
            }
        },
        Err(e) => {
            p.review_period_end = Some(Err(()));
            surface(ctx, errors, e);
        },
    }
}

/// Stores the outcome of the `ty` field's validator.
fn set_ty(ctx: &Context, p: &mut Preamble, errors: &mut Vec<Error>, value: &[u8])
    ensures
        final(p)@ == (PreambleV {
            ty: match crate::eip::spec_type(value@) {
                Ok(v) => Some(Ok(v)),
                Err(_) => Some(Err(())),
            },
            ..old(p)@
        }),
        final(errors)@ == old(errors)@ + (match crate::eip::spec_type(value@) {
            Ok(_) => Seq::<Error>::empty(),
            Err(e) => spec_surface(ctx.ignored_set(), e),
        }),
{
    match crate::validators::ty(value) {
        Ok(v) => {
            p.ty = Some(Ok(v));
            proof {
                assert(errors@ =~= old(errors)@ + Seq::<Error>::empty());
            }
        },
        Err(e) => {
            p.ty = Some(Err(()));
            surface(ctx, errors, e);
        },
    }
}

/// Stores the outcome of the `category` field's validator.
fn set_category(ctx: &Context, p: &mut Preamble, errors: &mut Vec<Error>, value: &[u8])
    ensures
        final(p)@ == (PreambleV {
            category: match crate::eip::spec_category(value@) {
                Ok(v) => Some(Ok(v)),
                Err(_) => Some(Err(())),
            },
            ..old(p)@
        }),
        final(errors)@ == old(errors)@ + (match crate::eip::spec_category(value@) {
            Ok(_) => Seq::<Error>::empty(),
            Err(e) => spec_surface(ctx.ignored_set(), e),
        }),
{
    match crate::validators::category(value) {
        Ok(v) => {
            p.category = Some(Ok(v));
            proof {
                assert(errors@ =~= old(errors)@ + Seq::<Error>::empty());
            }
        },
        Err(e) => {
            p.category = Some(Err(()));
            surface(ctx, errors, e);
        },
    }
}

/// Stores the outcome of the `created` field's validator.
fn set_created(ctx: &Context, p: &mut Preamble, errors: &mut Vec<Error>, value: &[u8])
    ensures
        final(p)@ == (PreambleV {
            created: match crate::validators::spec_date(value@, Error::MalformedCreated) {
                Ok(v) => Some(Ok(v)),
                Err(_) => Some(Err(())),
            },
            ..old(p)@
        }),
        final(errors)@ == old(errors)@ + (match crate::validators::spec_date(value@, Error::MalformedCreated) {
            Ok(_) => Seq::<Error>::empty(),
            Err(e) => spec_surface(ctx.ignored_set(), e),
        }),
{
    match crate::validators::created(value) {
        Ok(v) => {
            p.created = Some(Ok(v));
            proof {
                assert(errors@ =~= old(errors)@ + Seq::<Error>::empty());
            }
        },
        Err(e) => {
            p.created = Some(Err(()));
            surface(ctx, errors, e);
        },
    }
}

/// Stores the outcome of the `updated` field's validator.
fn set_updated(ctx: &Context, p: &mut Preamble, errors: &mut Vec<Error>, value: &[u8])
    ensures
        final(p)@ == (PreambleV {
            updated: match crate::validators::spec_updated(value@) {
                Ok(v) => Some(Ok(v)),
                Err(_) => Some(Err(())),
            },
            ..old(p)@
        }),
        final(errors)@ == old(errors)@ + (match crate::validators::spec_updated(value@) {
            Ok(_) => Seq::<Error>::empty(),
            Err(e) => spec_surface(ctx.ignored_set(), e),
        }),
{
    match crate::validators::updated(value) {
        Ok(v) => {
            p.updated = Some(Ok(v));
            proof {
                assert(errors@ =~= old(errors)@ + Seq::<Error>::empty());
            }
        },
        Err(e) => {
            p.updated = Some(Err(()));
            surface(ctx, errors, e);
        },
    }
}

/// Stores the outcome of the `requires` field's validator.
fn set_requires(ctx: &Context, p: &mut Preamble, errors: &mut Vec<Error>, value: &[u8])
    ensures
        final(p)@ == (PreambleV {
            requires: match crate::validators::spec_eip_list(value@) {
                Ok(v) => Some(Ok(v)),
                Err(_) => Some(Err(())),
            },
            ..old(p)@
        }),
        final(errors)@ == old(errors)@ + (match crate::validators::spec_eip_list(value@) {
            Ok(_) => Seq::<Error>::empty(),
            Err(e) => spec_surface(ctx.ignored_set(), e),
        }),
{
    match crate::validators::requires_list(value) {
        Ok(v) => {
            p.requires = Some(Ok(v));
            proof {
                assert(errors@ =~= old(errors)@ + Seq::<Error>::empty());
            }
        },
        Err(e) => {
            p.requires = Some(Err(()));
            surface(ctx, errors, e);
        },
    }
}

/// Stores the outcome of the `replaces` field's validator.
fn set_replaces(ctx: &Context, p: &mut Preamble, errors: &mut Vec<Error>, value: &[u8])
    ensures
        final(p)@ == (PreambleV {
            replaces: match crate::validators::spec_eip_list(value@) {
                Ok(v) => Some(Ok(v)),
                Err(_) => Some(Err(())),
            },
            ..old(p)@
        }),
        final(errors)@ == old(errors)@ + (match crate::validators::spec_eip_list(value@) {
            Ok(_) => Seq::<Error>::empty(),
            Err(e) => spec_surface(ctx.ignored_set(), e),
        }),
{
    match crate::validators::replaces(value) {
        Ok(v) => {
            p.replaces = Some(Ok(v));
            proof {
                assert(errors@ =~= old(errors)@ + Seq::<Error>::empty());
            }
        },
        Err(e) => {
            p.replaces = Some(Err(()));
            surface(ctx, errors, e);
        },
    }
}

/// Stores the outcome of the `superseded_by` field's validator.
fn set_superseded_by(ctx: &Context, p: &mut Preamble, errors: &mut Vec<Error>, value: &[u8])
    ensures
        final(p)@ == (PreambleV {
            superseded_by: match crate::validators::spec_eip_list(value@) {
                Ok(v) => Some(Ok(v)),
                Err(_) => Some(Err(())),
            },
            ..old(p)@
        }),
        final(errors)@ == old(errors)@ + (match crate::validators::spec_eip_list(value@) {
            Ok(_) => Seq::<Error>::empty(),
            Err(e) => spec_surface(ctx.ignored_set(), e),
        }),
{
    match crate::validators::superseded_by(value) {
        Ok(v) => {
            p.superseded_by = Some(Ok(v));
            proof {
                assert(errors@ =~= old(errors)@ + Seq::<Error>::empty());
            }
        },
        Err(e) => {
            p.superseded_by = Some(Err(()));
            surface(ctx, errors, e);
        },
    }
}

/// Stores the outcome of the `resolution` field's validator.
fn set_resolution(ctx: &Context, p: &mut Preamble, errors: &mut Vec<Error>, value: &[u8])
    ensures
        final(p)@ == (PreambleV {
            resolution: match crate::validators::spec_resolution(value@) {
                Ok(v) => Some(Ok(v)),
                Err(_) => Some(Err(())),
            },
            ..old(p)@
        }),
        final(errors)@ == old(errors)@ + (match crate::validators::spec_resolution(value@) {
            Ok(_) => Seq::<Error>::empty(),
            Err(e) => spec_surface(ctx.ignored_set(), e),
        }),
{
    match crate::validators::resolution(value) {
        Ok(v) => {
            p.resolution = Some(Ok(v));
            proof {
                assert(errors@ =~= old(errors)@ + Seq::<Error>::empty());
            }
        },
        Err(e) => {
            p.resolution = Some(Err(()));
            surface(ctx, errors, e);
        },
    }
}

/// Dispatches a trimmed key and value to the matching field validator.
#[verifier::rlimit(100)]
fn dispatch_field(ctx: &Context, p: &mut Preamble, errors: &mut Vec<Error>, key: &[u8], value: &[u8])
    ensures
        ({
            let d = spec_dispatch(ctx.ignored_set(), old(p)@, key@, value@);
            final(p)@ == d.0 && final(errors)@ == old(errors)@ + d.1
        }),
{
    proof {
        reveal(spec_dispatch);
    }
    if crate::text::bytes_is(key, "eip") {
        set_eip(ctx, p, errors, value);
    } else if crate::text::bytes_is(key, "title") {
        set_title(ctx, p, errors, value);
    } else if crate::text::bytes_is(key, "description") {
        set_description(ctx, p, errors, value);
    } else if crate::text::bytes_is(key, "author") {
        set_author(ctx, p, errors, value);
    } else if crate::text::bytes_is(key, "discussions-to") {
        set_discussions_to(ctx, p, errors, value);
    } else if crate::text::bytes_is(key, "status") {
        set_status(ctx, p, errors, value);
    } else if crate::text::bytes_is(key, "review-period-end") {
        set_review_period_end(ctx, p, errors, value);
    } else if crate::text::bytes_is(key, "type") {
        set_ty(ctx, p, errors, value);
    } else if crate::text::bytes_is(key, "category") {
        set_category(ctx, p, errors, value);
    } else if crate::text::bytes_is(key, "created") {
        set_created(ctx, p, errors, value);
    } else if crate::text::bytes_is(key, "updated") {
        set_updated(ctx, p, errors, value);
    } else if crate::text::bytes_is(key, "requires") {
        set_requires(ctx, p, errors, value);
    } else if crate::text::bytes_is(key, "replaces") {
        set_replaces(ctx, p, errors, value);
    } else if crate::text::bytes_is(key, "superseded-by") {
        set_superseded_by(ctx, p, errors, value);
    } else if crate::text::bytes_is(key, "resolution") {
        set_resolution(ctx, p, errors, value);
    } else {
        errors.push(Error::UnknownPreambleField);
        proof {
            assert(final(errors)@ =~= old(errors)@ + seq![Error::UnknownPreambleField]);
        }
    }
}

/// Processes one line of the block.
#[verifier::rlimit(60)]
fn process_line(ctx: &Context, p: &mut Preamble, errors: &mut Vec<Error>, line: &[u8])
    ensures
        ({
            let st = spec_step(ctx.ignored_set(), old(p)@, line@);
            final(p)@ == st.0 && final(errors)@ == old(errors)@ + st.1
        }),
{
    if line.len() == 0 {
        proof {
            assert(final(errors)@ =~= old(errors)@ + Seq::<Error>::empty());
        }
        return;
    }
    let ci = match find_byte(line, ':' as u8) {
        None => {
            errors.push(Error::MalformedField);
            proof {
                assert(final(errors)@ =~= old(errors)@ + seq![Error::MalformedField]);
            }
            return;
        },
        Some(ci) => ci,
    };
    proof {
        crate::text::lemma_find_byte(line@, ':' as u8);
    }
    let n = line.len();
    assert(ci < n);
    let key0 = &line[0..ci];
    let val0 = &line[ci + 1..n];
    proof {
        assert(key0@ =~= line@.take(ci as int));
        assert(val0@ =~= line@.skip(ci as int + 1));
    }
    let ghost e0 = errors@;
    if key0.len() > 0 && is_ws(key0[0]) {
        errors.push(Error::LeadingWhitespace);
    }
    let kt = trim_start(key0);
    if kt.len() > 0 && is_ws(kt[kt.len() - 1]) {
        errors.push(Error::ExtraWhitespace);
    }
    proof {
        assert(errors@ =~= e0 + spec_key_errors(key0@));
    }
    let ghost e1 = errors@;
    if val0.len() >= 2 && is_ws(val0[0]) && is_ws(val0[1]) {
        errors.push(Error::ExtraWhitespace);
    } else if val0.len() >= 1 && !is_ws(val0[0]) {
        errors.push(Error::MissingSpaceAfterColon);
    }
    let vt = trim_start(val0);
    if vt.len() > 0 && is_ws(vt[vt.len() - 1]) {
        errors.push(Error::TrailingWhitespace);
    }
    proof {
        assert(errors@ =~= e1 + spec_value_errors(val0@));
    }
    let key = trim_end(kt);
    let value = trim_end(vt);
    let ghost e2 = errors@;
    dispatch_field(ctx, p, errors, key, value);
    proof {
        let d = spec_dispatch(ctx.ignored_set(), old(p)@, key@, value@);
        assert(errors@ =~= old(errors)@ + (spec_key_errors(key0@) + spec_value_errors(val0@)
            + d.1));
    }
}

/// Appends one missing-field error when the field is absent and the kind
/// is not ignored.
fn check_missing(ctx: &Context, errors: &mut Vec<Error>, absent: bool, e: Error)
    ensures
        final(errors)@ == old(errors)@ + spec_missing(ctx.ignored_set(), absent, e),
{
    if absent && !ctx.should_ignore(&e) {
        errors.push(e);
        proof {
            assert(final(errors)@ =~= old(errors)@ + seq![e]);
        }
    } else {
        proof {
            assert(final(errors)@ =~= old(errors)@ + Seq::<Error>::empty());
        }
    }
}

/// Runs the presence checks for the required fields.
#[verifier::rlimit(100)]
fn presence_checks(ctx: &Context, p: &Preamble, errors: &mut Vec<Error>)
    ensures
        final(errors)@ == old(errors)@ + spec_presence_errors(ctx.ignored_set(), p@),
{
    let ghost ig = ctx.ignored_set();
    let ghost g0 = errors@;
    check_missing(ctx, errors, p.eip.is_none(), Error::MissingEipField);
    check_missing(ctx, errors, p.title.is_none(), Error::MissingTitleField);
    check_missing(ctx, errors, p.author.is_none(), Error::MissingAuthorField);
    check_missing(ctx, errors, p.discussions_to.is_none(), Error::MissingDiscussionsToField);
    check_missing(ctx, errors, p.status.is_none(), Error::MissingStatusField);
    let ghost g5 = errors@;
    match p.ty {
        Some(Ok(t)) => {
            check_missing(
                ctx,
                errors,
                t == Type::Standards && p.category.is_none(),
                Error::MissingCategoryField,
            );
        },
        Some(Err(_)) => {
            proof {
                assert(g5 + Seq::<Error>::empty() =~= g5);
            }
        },
        None => {
            check_missing(ctx, errors, true, Error::MissingTypeField);
        },
    }
    proof {
        let a0 = spec_missing(ig, p@.eip is None, Error::MissingEipField);
        let a1 = spec_missing(ig, p@.title is None, Error::MissingTitleField);
        let a2 = spec_missing(ig, p@.author is None, Error::MissingAuthorField);
        let a3 = spec_missing(ig, p@.discussions_to is None, Error::MissingDiscussionsToField);
        let a4 = spec_missing(ig, p@.status is None, Error::MissingStatusField);
        let a5 = (match p@.ty {
            Some(Ok(t)) => spec_missing(
                ig,
                t == Type::Standards && p@.category is None,
                Error::MissingCategoryField,
            ),
            Some(Err(_)) => Seq::<Error>::empty(),
            None => spec_missing(ig, true, Error::MissingTypeField),
        });
        vstd::seq_lib::lemma_concat_associative(g0, a0, a1);
        vstd::seq_lib::lemma_concat_associative(g0, a0 + a1, a2);
        vstd::seq_lib::lemma_concat_associative(g0, a0 + a1 + a2, a3);
        vstd::seq_lib::lemma_concat_associative(g0, a0 + a1 + a2 + a3, a4);
        vstd::seq_lib::lemma_concat_associative(g0, a0 + a1 + a2 + a3 + a4, a5);
    }
}

/// Parses a whole document against the given context: the typed preamble
/// and the body on success, the full surfaced error list otherwise.
#[verifier::rlimit(100)]
pub fn parse_document(ctx: &Context, src: &[u8]) -> (r: Result<(Preamble, Vec<u8>), Vec<Error>>)
    ensures
        ({
            let m = spec_parse(ctx.ignored_set(), src@);
            match r {
                Ok(t) => m == Ok::<_, Seq<Error>>((t.0@, t.1@)),
                Err(es) => m == Err::<(PreambleV, Seq<u8>), _>(es@),
            }
        }),
{
    let bl = match crate::validators::preamble(src) {
        Err(e) => {
            let mut es: Vec<Error> = Vec::new();
            es.push(e);
            proof {
                assert(es@ =~= seq![e]);
            }
            return Err(es);
        },
        Ok(t) => t,
    };
    let block = bl.0;
    let rest = bl.1;
    let ls = lines(block);
    let ghost lsv = ls.deep_view();
    let mut p = Preamble::default();
    let mut errors: Vec<Error> = Vec::new();
    let ghost ig = ctx.ignored_set();
    proof {
        assert(lsv.take(0) =~= Seq::<Seq<u8>>::empty());
        assert(errors@ =~= Seq::<Error>::empty());
    }
    let mut i: usize = 0;
    while i < ls.len()
        invariant
            i <= ls@.len(),
            lsv == ls.deep_view(),
            lsv.len() == ls@.len(),
            ig == ctx.ignored_set(),
            spec_lines_fold(ig, lsv.take(i as int)) == (p@, errors@),
        decreases ls@.len() - i,
    {
        proof {
            assert(ls.deep_view()[i as int] =~= ls@[i as int]@);
        }
        let line: &[u8] = ls[i].as_slice();
        process_line(ctx, &mut p, &mut errors, line);
        i += 1;
        proof {
            assert(lsv.take(i as int).drop_last() =~= lsv.take(i as int - 1));
            assert(lsv.take(i as int).last() == lsv[i as int - 1]);
        }
    }
    proof {
        assert(lsv.take(ls@.len() as int) =~= lsv);
    }
    presence_checks(ctx, &p, &mut errors);
    if errors.len() == 0 {
        let body = vstd::slice::slice_to_vec(rest);
        proof {
            assert(errors@.len() == 0);
        }
        return Ok((p, body));
    }
    Err(errors)
}

} // verus!

verus! {

/// The errors that survive suppression under an ignore set: a suppressible
/// kind that the set holds is dropped, everything else stays.
pub open spec fn spec_kept(ig: Set<Error>) -> spec_fn(Error) -> bool {
    |e: Error| !(crate::error::spec_suppressible(e) && ig.contains(e))
}

/// Filtering an empty sequence leaves it empty.
proof fn lemma_filter_empty(pred: spec_fn(Error) -> bool)
    ensures
        Seq::<Error>::empty().filter(pred) == Seq::<Error>::empty(),
{
    reveal(Seq::filter);
}

/// Filtering a singleton keeps or drops its one element.
proof fn lemma_filter_singleton(x: Error, pred: spec_fn(Error) -> bool)
    ensures
        seq![x].filter(pred) == (if pred(x) {
            seq![x]
        } else {
            Seq::<Error>::empty()
        }),
{
    reveal(Seq::filter);
    assert(seq![x].drop_last() =~= Seq::<Error>::empty());
    lemma_filter_empty(pred);
    if pred(x) {
        assert(seq![x].filter(pred) =~= seq![x]);
    }
}

/// An ordered identifier list fails only with field-level kinds:
/// suppressible, and never a missing-field report.
proof fn lemma_eip_list_err_field_level(elems: Seq<Seq<u8>>, i: int, acc: Seq<u64>)
    requires
        0 <= i <= elems.len(),
    ensures
        forall|e: Error|
            crate::validators::spec_eip_list_from(elems, i, acc) == Err::<Seq<u64>, Error>(e)
                ==> crate::error::spec_suppressible(e) && !spec_missing_kind(e),
    decreases elems.len() - i,
{
    if i < elems.len() {
        match crate::validators::spec_csv_shape_err(i, elems[i]) {
            Some(_) => {},
            None => {
                match crate::text::spec_parse_u64(spec_trim(elems[i])) {
                    None => {},
                    Some(n) => {
                        lemma_eip_list_err_field_level(elems, i + 1, acc.push(n));
                    },
                }
            },
        }
    }
}

/// An author list fails only with field-level kinds: suppressible, and
/// never a missing-field report.
proof fn lemma_author_list_err_field_level(elems: Seq<Seq<u8>>, i: int, acc: Seq<Seq<u8>>)
    requires
        0 <= i <= elems.len(),
    ensures
        forall|e: Error|
            crate::validators::spec_author_list_from(elems, i, acc) == Err::<Seq<Seq<u8>>, Error>(
                e,
            ) ==> crate::error::spec_suppressible(e) && !spec_missing_kind(e),
    decreases elems.len() - i,
{
    if i < elems.len() {
        match crate::validators::spec_csv_shape_err(i, elems[i]) {
            Some(_) => {},
            None => {
                let t = spec_trim(elems[i]);
                match crate::validators::spec_author_entry(t) {
                    Some(_) => {},
                    None => {
                        lemma_author_list_err_field_level(elems, i + 1, acc.push(t));
                    },
                }
            },
        }
    }
}

/// A date list fails only with field-level kinds: suppressible, and never
/// a missing-field report.
proof fn lemma_date_list_err_field_level(elems: Seq<Seq<u8>>, i: int, acc: Seq<crate::eip::Date>)
    requires
        0 <= i <= elems.len(),
    ensures
        forall|e: Error|
            crate::validators::spec_date_list_from(elems, i, acc) == Err::<
                Seq<crate::eip::Date>,
                Error,
            >(e) ==> crate::error::spec_suppressible(e) && !spec_missing_kind(e),
    decreases elems.len() - i,
{
    if i < elems.len() {
        match crate::validators::spec_csv_shape_err(i, elems[i]) {
            Some(_) => {},
            None => {
                match crate::validators::spec_date(spec_trim(elems[i]), Error::MalformedUpdated) {
                    Err(_) => {},
                    Ok(d) => {
                        lemma_date_list_err_field_level(elems, i + 1, acc.push(d));
                    },
                }
            },
        }
    }
}

/// Law, one dispatch at a time: the ignore set never changes which field is
/// stored or what it holds; it only filters the surfaced error.
#[verifier::rlimit(100)]
pub proof fn lemma_dispatch_filter(ig: Set<Error>, p: PreambleV, key: Seq<u8>, value: Seq<u8>)
    ensures
        spec_dispatch(ig, p, key, value).0 == spec_dispatch(Set::empty(), p, key, value).0,
        spec_dispatch(ig, p, key, value).1 == spec_dispatch(Set::empty(), p, key, value).1.filter(
            spec_kept(ig),
        ),
{
    reveal(spec_dispatch);
    let pred = spec_kept(ig);
    lemma_filter_empty(pred);
    lemma_eip_list_err_field_level(crate::text::spec_split(value, ',' as u8), 0, Seq::empty());
    lemma_author_list_err_field_level(crate::text::spec_split(value, ',' as u8), 0, Seq::empty());
    lemma_date_list_err_field_level(crate::text::spec_split(value, ',' as u8), 0, Seq::empty());
    let d0 = spec_dispatch(Set::empty(), p, key, value);
    if d0.1.len() == 1 {
        lemma_filter_singleton(d0.1[0], pred);
    } else {
        assert(d0.1.len() == 0 ==> d0.1 =~= Seq::<Error>::empty());
    }
}

/// Law, one line at a time: the ignore set never changes how a line shapes
/// the preamble; it only filters the surfaced errors.
#[verifier::rlimit(100)]
pub proof fn lemma_step_filter(ig: Set<Error>, p: PreambleV, line: Seq<u8>)
    ensures
        spec_step(ig, p, line).0 == spec_step(Set::empty(), p, line).0,
        spec_step(ig, p, line).1 == spec_step(Set::empty(), p, line).1.filter(spec_kept(ig)),
{
    let pred = spec_kept(ig);
    lemma_filter_empty(pred);
    if line.len() == 0 {
        return;
    }
    match crate::text::spec_find_byte(line, ':' as u8) {
        None => {
            lemma_filter_singleton(Error::MalformedField, pred);
        },
        Some(ci) => {
            let key0 = line.take(ci);
            let val0 = line.skip(ci + 1);
            let shape = spec_key_errors(key0) + spec_value_errors(val0);
            lemma_dispatch_filter(ig, p, spec_trim(key0), spec_trim(val0));
            let d0 = spec_dispatch(Set::empty(), p, spec_trim(key0), spec_trim(val0));
            let dig = spec_dispatch(ig, p, spec_trim(key0), spec_trim(val0));
            assert(forall|j: int| 0 <= j < shape.len() ==> pred(#[trigger] shape[j])) by {
                lemma_shape_not_suppressible(key0, val0);
            }
            lemma_filter_all_kept(shape, pred);
            Seq::filter_distributes_over_add(shape, d0.1, pred);
            assert(spec_step(ig, p, line).1 =~= shape + dig.1);
            assert(spec_step(Set::empty(), p, line).1 =~= shape + d0.1);
        },
    }
}

/// A sequence whose every element the filter keeps is unchanged by it.
proof fn lemma_filter_all_kept(s: Seq<Error>, pred: spec_fn(Error) -> bool)
    requires
        forall|j: int| 0 <= j < s.len() ==> pred(#[trigger] s[j]),
    ensures
        s.filter(pred) == s,
    decreases s.len(),
{
    reveal(Seq::filter);
    if s.len() == 0 {
        assert(s.filter(pred) =~= s);
    } else {
        lemma_filter_all_kept(s.drop_last(), pred);
        assert(s.filter(pred) =~= s.drop_last().filter(pred).push(s.last()));
        assert(s.drop_last().push(s.last()) =~= s);
    }
}

/// The shape errors of a key and value are never suppressible kinds.
proof fn lemma_shape_not_suppressible(key0: Seq<u8>, val0: Seq<u8>)
    ensures
        forall|j: int|
            0 <= j < (spec_key_errors(key0) + spec_value_errors(val0)).len()
                ==> !crate::error::spec_suppressible(
                #[trigger] (spec_key_errors(key0) + spec_value_errors(val0))[j],
            ),
{
}

/// Law, over whole blocks: the ignore set never changes the parsed fields;
/// the errors it surfaces are exactly the unsuppressed ones, in order.
pub proof fn lemma_fold_filter(ig: Set<Error>, ls: Seq<Seq<u8>>)
    ensures
        spec_lines_fold(ig, ls).0 == spec_lines_fold(Set::empty(), ls).0,
        spec_lines_fold(ig, ls).1 == spec_lines_fold(Set::empty(), ls).1.filter(spec_kept(ig)),
    decreases ls.len(),
{
    let pred = spec_kept(ig);
    if ls.len() == 0 {
        lemma_filter_empty(pred);
    } else {
        lemma_fold_filter(ig, ls.drop_last());
        lemma_step_filter(ig, spec_lines_fold(Set::empty(), ls.drop_last()).0, ls.last());
        Seq::filter_distributes_over_add(
            spec_lines_fold(Set::empty(), ls.drop_last()).1,
            spec_step(Set::empty(), spec_lines_fold(Set::empty(), ls.drop_last()).0, ls.last()).1,
            pred,
        );
    }
}

/// Law, presence checks: the ignore set filters exactly the missing-field
/// errors it holds.
#[verifier::rlimit(100)]
pub proof fn lemma_presence_filter(ig: Set<Error>, p: PreambleV)
    ensures
        spec_presence_errors(ig, p) == spec_presence_errors(Set::empty(), p).filter(spec_kept(ig)),
{
    let pred = spec_kept(ig);
    lemma_filter_empty(pred);
    lemma_filter_singleton(Error::MissingEipField, pred);
    lemma_filter_singleton(Error::MissingTitleField, pred);
    lemma_filter_singleton(Error::MissingAuthorField, pred);
    lemma_filter_singleton(Error::MissingDiscussionsToField, pred);
    lemma_filter_singleton(Error::MissingStatusField, pred);
    lemma_filter_singleton(Error::MissingCategoryField, pred);
    lemma_filter_singleton(Error::MissingTypeField, pred);
    let a0 = spec_missing(Set::empty(), p.eip is None, Error::MissingEipField);
    let a1 = spec_missing(Set::empty(), p.title is None, Error::MissingTitleField);
    let a2 = spec_missing(Set::empty(), p.author is None, Error::MissingAuthorField);
    let a3 = spec_missing(Set::empty(), p.discussions_to is None, Error::MissingDiscussionsToField);
    let a4 = spec_missing(Set::empty(), p.status is None, Error::MissingStatusField);
    let a5 = (match p.ty {
        Some(Ok(t)) => spec_missing(
            Set::empty(),
            t == Type::Standards && p.category is None,
            Error::MissingCategoryField,
        ),
        Some(Err(_)) => Seq::<Error>::empty(),
        None => spec_missing(Set::empty(), true, Error::MissingTypeField),
    });
    Seq::filter_distributes_over_add(a0, a1, pred);
    Seq::filter_distributes_over_add(a0 + a1, a2, pred);
    Seq::filter_distributes_over_add(a0 + a1 + a2, a3, pred);
    Seq::filter_distributes_over_add(a0 + a1 + a2 + a3, a4, pred);
    Seq::filter_distributes_over_add(a0 + a1 + a2 + a3 + a4, a5, pred);
}

} // verus!

verus! {

/// Law: a document that does not open with the start delimiter fails with
/// exactly one error, and no field-level validation is attempted.
pub proof fn lemma_missing_start_delimiter(ig: Set<Error>, s: Seq<u8>)
    requires
        !crate::validators::spec_starts_with_delim(s),
    ensures
        spec_parse(ig, s) == Err::<(PreambleV, Seq<u8>), Seq<Error>>(
            seq![Error::StartDelimiterMissing],
        ),
{
}

/// Law: a document that opens with the start delimiter but never closes
/// the block fails with exactly one error.
pub proof fn lemma_missing_end_delimiter(ig: Set<Error>, s: Seq<u8>)
    requires
        crate::validators::spec_starts_with_delim(s),
        crate::validators::spec_find_delim(s, 4) is None,
    ensures
        spec_parse(ig, s) == Err::<(PreambleV, Seq<u8>), Seq<Error>>(
            seq![Error::EndDelimiterMissing],
        ),
{
}

/// Law: a well-formed document whose lines and presence checks surface no
/// error parses, and its body is exactly the text after the end delimiter.
pub proof fn lemma_clean_document_parses(ig: Set<Error>, s: Seq<u8>, end: int)
    requires
        crate::validators::spec_starts_with_delim(s),
        crate::validators::spec_find_delim(s, 4) == Some(end),
        spec_lines_fold(ig, spec_lines(s.subrange(4, end))).1 == Seq::<Error>::empty(),
        spec_presence_errors(ig, spec_lines_fold(ig, spec_lines(s.subrange(4, end))).0)
            == Seq::<Error>::empty(),
    ensures
        spec_parse(ig, s) == Ok::<(PreambleV, Seq<u8>), Seq<Error>>(
            (
                spec_lines_fold(ig, spec_lines(s.subrange(4, end))).0,
                s.subrange(end + 4, s.len() as int),
            ),
        ),
{
    assert(Seq::<Error>::empty() + Seq::<Error>::empty() =~= Seq::<Error>::empty());
}

/// Law: the category is demanded exactly of Standards-track documents.
/// With the type parsed as Standards and the category absent, the presence
/// checks surface the missing-category error; with the type parsed as
/// Informational, they never do.
pub proof fn lemma_category_presence(ig: Set<Error>, p: PreambleV)
    requires
        !ig.contains(Error::MissingCategoryField),
    ensures
        p.ty == Some(Ok::<Type, ()>(Type::Standards)) && p.category is None
            ==> spec_presence_errors(ig, p).contains(Error::MissingCategoryField),
        p.ty == Some(Ok::<Type, ()>(Type::Informational)) ==> !spec_presence_errors(
            ig,
            p,
        ).contains(Error::MissingCategoryField),
{
    let es = spec_presence_errors(ig, p);
    if p.ty == Some(Ok::<Type, ()>(Type::Standards)) && p.category is None {
        assert(es[es.len() - 1] == Error::MissingCategoryField);
    }
    if p.ty == Some(Ok::<Type, ()>(Type::Informational)) {
        assert forall|j: int| 0 <= j < es.len() implies es[j] != Error::MissingCategoryField by {}
    }
}

/// Law: ignoring a kind twice has exactly the effect of ignoring it once.
pub proof fn lemma_ignore_idempotent(ig: Set<Error>, e: Error, s: Seq<u8>)
    ensures
        spec_parse(ig.insert(e).insert(e), s) == spec_parse(ig.insert(e), s),
{
    assert(ig.insert(e).insert(e) =~= ig.insert(e));
}

/// Law: a document whose surfaced errors, with nothing ignored, are all
/// suppressible kinds held by the ignore set, is reported valid under that
/// set.  Line-shape errors, unknown keys and the delimiter failures are not
/// suppressible: a document surfacing one of those stays invalid.
pub proof fn lemma_all_errors_ignored_is_valid(ig: Set<Error>, s: Seq<u8>, es: Seq<Error>)
    requires
        spec_parse(Set::empty(), s) == Err::<(PreambleV, Seq<u8>), Seq<Error>>(es),
        forall|i: int|
            0 <= i < es.len() ==> ig.contains(#[trigger] es[i]) && crate::error::spec_suppressible(
                es[i],
            ),
    ensures
        spec_parse(ig, s) is Ok,
{
    let pred = spec_kept(ig);
    match crate::validators::spec_preamble_split(s) {
        Err(e) => {
            assert(es == seq![e]);
            assert(crate::error::spec_suppressible(es[0]));
            assert(false);
        },
        Ok(t) => {
            let ls = spec_lines(t.0);
            let fold0 = spec_lines_fold(Set::empty(), ls);
            let pres0 = spec_presence_errors(Set::empty(), fold0.0);
            let all0 = fold0.1 + pres0;
            assert(es == all0);
            lemma_fold_filter(ig, ls);
            let foldig = spec_lines_fold(ig, ls);
            assert(foldig.0 == fold0.0);
            lemma_presence_filter(ig, fold0.0);
            Seq::filter_distributes_over_add(fold0.1, pres0, pred);
            assert(foldig.1 + spec_presence_errors(ig, foldig.0) == all0.filter(pred));
            assert(all0.all(|x: Error| !pred(x))) by {
                reveal(Seq::all);
            }
            all0.lemma_all_neg_filter_empty(pred);
        },
    }
}

/// Law: validation is pure.  The outcome is a function of the document
/// bytes and the ignore set alone, so re-validating the same input under
/// the same context yields the identical result, error list included.
pub proof fn lemma_revalidation_identical(ig1: Set<Error>, ig2: Set<Error>, s1: Seq<u8>, s2: Seq<u8>)
    requires
        ig1 == ig2,
        s1 == s2,
    ensures
        spec_parse(ig1, s1) == spec_parse(ig2, s2),
{
}

/// Law, at the document level: a block whose lines leave the type parsed
/// as Standards track and the category absent cannot parse; the missing
/// category is among the surfaced errors.
pub proof fn lemma_standards_needs_category(ig: Set<Error>, s: Seq<u8>, end: int)
    requires
        !ig.contains(Error::MissingCategoryField),
        crate::validators::spec_starts_with_delim(s),
        crate::validators::spec_find_delim(s, 4) == Some(end),
        spec_lines_fold(ig, spec_lines(s.subrange(4, end))).0.ty == Some(
            Ok::<Type, ()>(Type::Standards),
        ),
        spec_lines_fold(ig, spec_lines(s.subrange(4, end))).0.category is None,
    ensures
        match spec_parse(ig, s) {
            Ok(_) => false,
            Err(es) => es.contains(Error::MissingCategoryField),
        },
{
    let acc = spec_lines_fold(ig, spec_lines(s.subrange(4, end)));
    lemma_category_presence(ig, acc.0);
    let pres = spec_presence_errors(ig, acc.0);
    let k = choose|k: int| 0 <= k < pres.len() && pres[k] == Error::MissingCategoryField;
    assert((acc.1 + pres)[acc.1.len() + k] == Error::MissingCategoryField);
    assert((acc.1 + pres).contains(Error::MissingCategoryField));
}

/// Whether a kind reports a required field as absent.
pub open spec fn spec_missing_kind(e: Error) -> bool {
    ||| e == Error::MissingEipField
    ||| e == Error::MissingTitleField
    ||| e == Error::MissingAuthorField
    ||| e == Error::MissingDiscussionsToField
    ||| e == Error::MissingStatusField
    ||| e == Error::MissingCategoryField
    ||| e == Error::MissingTypeField
}

proof fn lemma_present_eip_not_missing(ig: Set<Error>, p: PreambleV)
    requires
        p.eip is Some,
    ensures
        !spec_presence_errors(ig, p).contains(Error::MissingEipField),
{
    let es = spec_presence_errors(ig, p);
    assert forall|j: int| 0 <= j < es.len() implies es[j] != Error::MissingEipField by {}
}

proof fn lemma_present_title_not_missing(ig: Set<Error>, p: PreambleV)
    requires
        p.title is Some,
    ensures
        !spec_presence_errors(ig, p).contains(Error::MissingTitleField),
{
    let es = spec_presence_errors(ig, p);
    assert forall|j: int| 0 <= j < es.len() implies es[j] != Error::MissingTitleField by {}
}

proof fn lemma_present_author_not_missing(ig: Set<Error>, p: PreambleV)
    requires
        p.author is Some,
    ensures
        !spec_presence_errors(ig, p).contains(Error::MissingAuthorField),
{
    let es = spec_presence_errors(ig, p);
    assert forall|j: int| 0 <= j < es.len() implies es[j] != Error::MissingAuthorField by {}
}

proof fn lemma_present_discussions_to_not_missing(ig: Set<Error>, p: PreambleV)
    requires
        p.discussions_to is Some,
    ensures
        !spec_presence_errors(ig, p).contains(Error::MissingDiscussionsToField),
{
    let es = spec_presence_errors(ig, p);
    assert forall|j: int| 0 <= j < es.len() implies es[j] != Error::MissingDiscussionsToField by {}
}

proof fn lemma_present_status_not_missing(ig: Set<Error>, p: PreambleV)
    requires
        p.status is Some,
    ensures
        !spec_presence_errors(ig, p).contains(Error::MissingStatusField),
{
    let es = spec_presence_errors(ig, p);
    assert forall|j: int| 0 <= j < es.len() implies es[j] != Error::MissingStatusField by {}
}

proof fn lemma_present_ty_not_missing(ig: Set<Error>, p: PreambleV)
    requires
        p.ty is Some,
    ensures
        !spec_presence_errors(ig, p).contains(Error::MissingTypeField),
{
    let es = spec_presence_errors(ig, p);
    assert forall|j: int| 0 <= j < es.len() implies es[j] != Error::MissingTypeField by {}
}

/// Law: a field whose key appeared is never also reported missing, whether
/// its value parsed or not: the presence checks ask only whether the key
/// ever appeared.
pub proof fn lemma_present_field_never_missing(ig: Set<Error>, p: PreambleV)
    ensures
        p.eip is Some ==> !spec_presence_errors(ig, p).contains(Error::MissingEipField),
        p.title is Some ==> !spec_presence_errors(ig, p).contains(Error::MissingTitleField),
        p.author is Some ==> !spec_presence_errors(ig, p).contains(Error::MissingAuthorField),
        p.discussions_to is Some ==> !spec_presence_errors(ig, p).contains(Error::MissingDiscussionsToField),
        p.status is Some ==> !spec_presence_errors(ig, p).contains(Error::MissingStatusField),
        p.ty is Some ==> !spec_presence_errors(ig, p).contains(Error::MissingTypeField),
{
    if p.eip is Some {
        lemma_present_eip_not_missing(ig, p);
    }
    if p.title is Some {
        lemma_present_title_not_missing(ig, p);
    }
    if p.author is Some {
        lemma_present_author_not_missing(ig, p);
    }
    if p.discussions_to is Some {
        lemma_present_discussions_to_not_missing(ig, p);
    }
    if p.status is Some {
        lemma_present_status_not_missing(ig, p);
    }
    if p.ty is Some {
        lemma_present_ty_not_missing(ig, p);
    }
}

/// No dispatch outcome surfaces a missing-field kind: those come only from
/// the presence checks.
#[verifier::rlimit(100)]
pub proof fn lemma_dispatch_no_missing(ig: Set<Error>, p: PreambleV, key: Seq<u8>, value: Seq<u8>)
    ensures
        forall|j: int|
            0 <= j < spec_dispatch(ig, p, key, value).1.len() ==> !spec_missing_kind(
                #[trigger] spec_dispatch(ig, p, key, value).1[j],
            ),
{
    reveal(spec_dispatch);
    lemma_eip_list_err_field_level(crate::text::spec_split(value, ',' as u8), 0, Seq::empty());
    lemma_author_list_err_field_level(crate::text::spec_split(value, ',' as u8), 0, Seq::empty());
    lemma_date_list_err_field_level(crate::text::spec_split(value, ',' as u8), 0, Seq::empty());
}

/// No line surfaces a missing-field kind.
#[verifier::rlimit(100)]
pub proof fn lemma_step_no_missing(ig: Set<Error>, p: PreambleV, line: Seq<u8>)
    ensures
        forall|j: int|
            0 <= j < spec_step(ig, p, line).1.len() ==> !spec_missing_kind(
                #[trigger] spec_step(ig, p, line).1[j],
            ),
{
    match crate::text::spec_find_byte(line, ':' as u8) {
        None => {},
        Some(ci) => {
            let key0 = line.take(ci);
            let val0 = line.skip(ci + 1);
            lemma_dispatch_no_missing(ig, p, spec_trim(key0), spec_trim(val0));
        },
    }
}

/// Law: the line pass never surfaces a missing-field kind; only the
/// presence checks can.
pub proof fn lemma_fold_no_missing(ig: Set<Error>, ls: Seq<Seq<u8>>)
    ensures
        forall|j: int|
            0 <= j < spec_lines_fold(ig, ls).1.len() ==> !spec_missing_kind(
                #[trigger] spec_lines_fold(ig, ls).1[j],
            ),
    decreases ls.len(),
{
    if ls.len() > 0 {
        lemma_fold_no_missing(ig, ls.drop_last());
        lemma_step_no_missing(ig, spec_lines_fold(ig, ls.drop_last()).0, ls.last());
    }
}

/// An error surfaced while processing a prefix of the lines is still
/// surfaced by the whole pass: errors only accumulate.
pub proof fn lemma_fold_errors_grow(ig: Set<Error>, ls: Seq<Seq<u8>>, k: int, e: Error)
    requires
        0 <= k <= ls.len(),
        spec_lines_fold(ig, ls.take(k)).1.contains(e),
    ensures
        spec_lines_fold(ig, ls).1.contains(e),
    decreases ls.len() - k,
{
    if k == ls.len() {
        assert(ls.take(k) =~= ls);
    } else {
        assert(ls.take(k + 1).drop_last() =~= ls.take(k));
        assert(ls.take(k + 1).last() == ls[k]);
        let a = spec_lines_fold(ig, ls.take(k)).1;
        let b = spec_step(ig, spec_lines_fold(ig, ls.take(k)).0, ls[k]).1;
        let j = choose|j: int| 0 <= j < a.len() && a[j] == e;
        assert((a + b)[j] == e);
        assert(spec_lines_fold(ig, ls.take(k + 1)).1.contains(e));
        lemma_fold_errors_grow(ig, ls, k + 1, e);
    }
}

/// Once a line has set the title field, every later line keeps it set.
proof fn lemma_step_keeps_title(ig: Set<Error>, p: PreambleV, line: Seq<u8>)
    requires
        p.title is Some,
    ensures
        spec_step(ig, p, line).0.title is Some,
{
    reveal(spec_dispatch);
}

/// A title recorded by some prefix of the lines is still recorded at the
/// end of the pass.
pub proof fn lemma_fold_title_stays(ig: Set<Error>, ls: Seq<Seq<u8>>, k: int)
    requires
        0 <= k <= ls.len(),
        spec_lines_fold(ig, ls.take(k)).0.title is Some,
    ensures
        spec_lines_fold(ig, ls).0.title is Some,
    decreases ls.len() - k,
{
    if k == ls.len() {
        assert(ls.take(k) =~= ls);
    } else {
        assert(ls.take(k + 1).drop_last() =~= ls.take(k));
        assert(ls.take(k + 1).last() == ls[k]);
        lemma_step_keeps_title(ig, spec_lines_fold(ig, ls.take(k)).0, ls[k]);
        lemma_fold_title_stays(ig, ls, k + 1);
    }
}

/// A line whose trimmed key is `title` and whose trimmed value is over the
/// bound records the title as present-but-invalid and surfaces exactly the
/// over-length error for it.
#[verifier::rlimit(100)]
proof fn lemma_title_line_step(ig: Set<Error>, p: PreambleV, line: Seq<u8>, ci: int)
    requires
        !ig.contains(Error::TitleExceedsMaxLength),
        spec_find_byte(line, ':' as u8) == Some(ci),
        spec_trim(line.take(ci)) == ("title").spec_bytes(),
        spec_trim(line.skip(ci + 1)).len() > 44,
    ensures
        spec_step(ig, p, line).0.title is Some,
        spec_step(ig, p, line).1.contains(Error::TitleExceedsMaxLength),
{
    reveal(spec_dispatch);
    reveal_strlit("title");
    reveal_strlit("eip");
    vstd::string::is_ascii_spec_bytes("title");
    vstd::string::is_ascii_spec_bytes("eip");
    assert(("title").spec_bytes().len() == 5);
    assert(("eip").spec_bytes().len() == 3);
    let key = spec_trim(line.take(ci));
    let value = spec_trim(line.skip(ci + 1));
    assert(key != ("eip").spec_bytes());
    let d = spec_dispatch(ig, p, key, value);
    assert(crate::validators::spec_title(value) == Err::<Seq<u8>, Error>(
        Error::TitleExceedsMaxLength,
    ));
    assert(d.1 == seq![Error::TitleExceedsMaxLength]);
    let st = spec_step(ig, p, line);
    assert(st.1[st.1.len() - 1] == Error::TitleExceedsMaxLength);
}

/// Law: a document whose block holds a title line with an over-length
/// value fails with the over-length error surfaced and never with a
/// missing-title report: a field present-but-invalid is not also missing.
#[verifier::rlimit(100)]
pub proof fn lemma_long_title_not_missing(ig: Set<Error>, s: Seq<u8>, end: int, i: int, ci: int)
    requires
        !ig.contains(Error::TitleExceedsMaxLength),
        crate::validators::spec_starts_with_delim(s),
        crate::validators::spec_find_delim(s, 4) == Some(end),
        0 <= i < spec_lines(s.subrange(4, end)).len(),
        spec_find_byte(spec_lines(s.subrange(4, end))[i], ':' as u8) == Some(ci),
        spec_trim(spec_lines(s.subrange(4, end))[i].take(ci)) == ("title").spec_bytes(),
        spec_trim(spec_lines(s.subrange(4, end))[i].skip(ci + 1)).len() > 44,
    ensures
        match spec_parse(ig, s) {
            Err(es) => es.contains(Error::TitleExceedsMaxLength) && !es.contains(
                Error::MissingTitleField,
            ),
            Ok(_) => false,
        },
{
    let ls = spec_lines(s.subrange(4, end));
    let p_i = spec_lines_fold(ig, ls.take(i)).0;
    lemma_title_line_step(ig, p_i, ls[i], ci);
    assert(ls.take(i + 1).drop_last() =~= ls.take(i));
    assert(ls.take(i + 1).last() == ls[i]);
    let a = spec_lines_fold(ig, ls.take(i)).1;
    let b = spec_step(ig, p_i, ls[i]).1;
    let j = choose|j: int| 0 <= j < b.len() && b[j] == Error::TitleExceedsMaxLength;
    assert((a + b)[a.len() + j] == Error::TitleExceedsMaxLength);
    assert(spec_lines_fold(ig, ls.take(i + 1)).1.contains(Error::TitleExceedsMaxLength));
    lemma_fold_errors_grow(ig, ls, i + 1, Error::TitleExceedsMaxLength);
    lemma_fold_title_stays(ig, ls, i + 1);
    let acc = spec_lines_fold(ig, ls);
    lemma_present_field_never_missing(ig, acc.0);
    lemma_fold_no_missing(ig, ls);
    let pres = spec_presence_errors(ig, acc.0);
    let all = acc.1 + pres;
    let k = choose|k: int| 0 <= k < acc.1.len() && acc.1[k] == Error::TitleExceedsMaxLength;
    assert(all[k] == Error::TitleExceedsMaxLength);
    assert(all.contains(Error::TitleExceedsMaxLength));
    assert forall|m: int| 0 <= m < all.len() implies all[m] != Error::MissingTitleField by {
        if m < acc.1.len() {
            assert(!spec_missing_kind(acc.1[m]));
        } else {
            assert(pres[m - acc.1.len()] != Error::MissingTitleField);
        }
    }
}

} // verus!
