//! Field-level tests: the validators on raw values, the suppression
//! context, and the setup that builds it.

use eipv::ctx::Context;
use eipv::eip::{Category, Eip, Status, Type};
use eipv::error::Error;
use eipv::runner::Runner;
use eipv::validators;

#[test]
fn author_invalid_email() {
    let a = b"John Doe <@handle>";
    let e = validators::validate_author(&mut vec![], a);
    assert_eq!(e, Err(Error::MalformedEmail));

    let a = b"John Doe <@handle.com>";
    let e = validators::validate_author(&mut vec![], a);
    assert_eq!(e, Err(Error::MalformedEmail));
}

#[test]
fn author_accepts_email_and_handle() {
    let mut acc: Vec<Vec<u8>> = vec![];
    assert_eq!(validators::validate_author(&mut acc, b"John Doe <john@doe.com>"), Ok(()));
    assert_eq!(validators::validate_author(&mut acc, b"Jane Roe (@jane-roe)"), Ok(()));
    assert_eq!(acc.len(), 2);
    assert_eq!(
        validators::validate_author(&mut acc, b"Sam (@a--b)"),
        Err(Error::MalformedHandle)
    );
    assert_eq!(acc.len(), 2);
}

#[test]
fn integer_lists_parse_in_order() {
    assert_eq!(validators::requires_list(b"1, 2, 3"), Ok(vec![1, 2, 3]));
    assert_eq!(validators::requires_list(b"3, 2, 1"), Err(Error::OutOfOrderEips));
    assert_eq!(validators::requires_list(b"1,2"), Err(Error::MissingSpaceAfterComma));
    assert_eq!(validators::requires_list(b"1 ,2"), Err(Error::ExtraWhitespaceBeforeComma));
    assert_eq!(validators::replaces(b"1, 2, 3"), Ok(vec![1, 2, 3]));
    assert_eq!(validators::replaces(b"3, 2, 1"), Err(Error::OutOfOrderEips));
    assert_eq!(validators::replaces(b"1,2"), Err(Error::MissingSpaceAfterComma));
    assert_eq!(validators::replaces(b"1 ,2"), Err(Error::ExtraWhitespaceBeforeComma));
    assert_eq!(validators::superseded_by(b"1, 2, 3"), Ok(vec![1, 2, 3]));
    assert_eq!(validators::superseded_by(b"3, 2, 1"), Err(Error::OutOfOrderEips));
    assert_eq!(validators::superseded_by(b"1,2"), Err(Error::MissingSpaceAfterComma));
    assert_eq!(validators::superseded_by(b"1 ,2"), Err(Error::ExtraWhitespaceBeforeComma));
    assert_eq!(validators::requires_list(b"1, 1, 2"), Ok(vec![1, 1, 2]));
}

#[test]
fn eip_number_rules() {
    assert_eq!(validators::eip(b"42"), Ok(42));
    assert_eq!(validators::eip(b"007"), Ok(7));
    assert_eq!(validators::eip(b"+1"), Err(Error::MalformedEipNumber));
    assert_eq!(validators::eip(b"-1"), Err(Error::MalformedEipNumber));
    assert_eq!(validators::eip(b""), Err(Error::MalformedEipNumber));
    assert_eq!(validators::eip(b"18446744073709551615"), Ok(u64::MAX));
    assert_eq!(validators::eip(b"18446744073709551616"), Err(Error::MalformedEipNumber));
}

#[test]
fn title_and_description_bounds() {
    let t44 = "t".repeat(44);
    assert!(validators::title(t44.as_bytes()).is_ok());
    let t45 = "t".repeat(45);
    assert_eq!(validators::title(t45.as_bytes()), Err(Error::TitleExceedsMaxLength));
    let d140 = "d".repeat(140);
    assert!(validators::description(d140.as_bytes()).is_ok());
    let d141 = "d".repeat(141);
    assert_eq!(
        validators::description(d141.as_bytes()),
        Err(Error::DescriptionExceedsMaxLength)
    );
}

#[test]
fn url_fields() {
    assert!(validators::discussions_to(b"https://example.com/thread").is_ok());
    assert_eq!(
        validators::discussions_to(b"no scheme"),
        Err(Error::MalformedDiscussionsTo)
    );
    assert!(validators::resolution(b"https://example.com/r").is_ok());
    assert_eq!(validators::resolution(b"no scheme"), Err(Error::MalformedResolution));
}

#[test]
fn date_fields() {
    let d = validators::created(b"2021-03-04").unwrap();
    assert_eq!((d.year, d.month, d.day), (2021, 3, 4));
    assert_eq!(validators::created(b"2021-02-30"), Err(Error::MalformedCreated));
    assert_eq!(
        validators::review_period_end(b"nope"),
        Err(Error::MalformedLastCallDeadline)
    );
    assert!(validators::review_period_end(b"2020-06-01").is_ok());
    let ds = validators::updated(b"2021-01-01, 2021-02-02").unwrap();
    assert_eq!(ds.len(), 2);
    assert_eq!((ds[1].year, ds[1].month, ds[1].day), (2021, 2, 2));
    assert_eq!(validators::updated(b"2021-01-01, bad"), Err(Error::MalformedUpdated));
}

#[test]
fn enum_spellings() {
    assert_eq!(Status::from_str("Last Call"), Ok(Status::LastCall));
    assert_eq!(Status::from_str("last call"), Err(Error::UnknownStatus));
    assert_eq!(Type::from_str("Standards Track"), Ok(Type::Standards));
    assert_eq!(Type::from_str("Standards"), Err(Error::UnknownType));
    assert_eq!(Category::from_str("ERC"), Ok(Category::Erc));
    assert_eq!(Category::from_str("erc"), Err(Error::UnknownCategory));
}

#[test]
fn preamble_block_extraction() {
    let ok = validators::preamble(b"---\na: b\n---\nrest").unwrap();
    assert_eq!(ok.0, b"a: b\n");
    assert_eq!(ok.1, b"rest");
    assert_eq!(
        validators::preamble(b"a: b\n---\n"),
        Err(Error::StartDelimiterMissing)
    );
    assert_eq!(validators::preamble(b"---\na: b\n"), Err(Error::EndDelimiterMissing));
}

#[test]
fn suppression_tokens() {
    assert_eq!(Error::from_str("title_max_length"), Ok(Error::TitleExceedsMaxLength));
    assert_eq!(
        Error::from_str("description_max_length"),
        Ok(Error::DescriptionExceedsMaxLength)
    );
    assert_eq!(
        Error::from_str("missing_discussions_to"),
        Ok(Error::MissingDiscussionsToField)
    );
    assert_eq!(Error::from_str("unheard_of"), Err(()));
}

#[test]
fn suppressed_errors_make_document_valid() {
    let doc = format!(
        "---\neip: 1\ntitle: {}\nauthor: John Doe <john@doe.com>\ndiscussions-to: https://example.com/\nstatus: Draft\ntype: Meta\ncreated: 2021-01-01\n---\nbody",
        "t".repeat(45)
    );
    let plain = Context::new();
    assert!(Eip::from_str(&plain, &doc).is_err());

    let mut ctx = Context::new();
    ctx.ignore(Error::TitleExceedsMaxLength);
    assert!(Eip::from_str(&ctx, &doc).is_ok());

    // ignoring the same kind twice changes nothing
    let mut twice = Context::new();
    twice.ignore(Error::TitleExceedsMaxLength);
    twice.ignore(Error::TitleExceedsMaxLength);
    assert!(Eip::from_str(&twice, &doc).is_ok());
}

#[test]
fn description_token_suppresses_description_errors() {
    let doc = format!(
        "---\neip: 1\ntitle: A\ndescription: {}\nauthor: John Doe <john@doe.com>\ndiscussions-to: https://example.com/\nstatus: Draft\ntype: Meta\ncreated: 2021-01-01\n---\nbody",
        "d".repeat(141)
    );
    assert!(Eip::from_str(&Context::new(), &doc).is_err());
    let r = Runner::new("p", Some("description_max_length"), None).unwrap();
    assert!(r.ctx.should_ignore(&Error::DescriptionExceedsMaxLength));
    assert!(!r.ctx.should_ignore(&Error::TitleExceedsMaxLength));
    assert!(Eip::from_str(&r.ctx, &doc).is_ok());
}

#[test]
fn shape_errors_are_never_suppressed() {
    let doc = "---\neip: 1\ntitle: A\nno separator\nauthor: John Doe <john@doe.com>\ndiscussions-to: https://example.com/\nstatus: Draft\ntype: Meta\ncreated: 2021-01-01\n---\nbody";
    let mut ctx = Context::new();
    ctx.ignore(Error::MalformedField);
    let es = Eip::from_str(&ctx, doc).unwrap_err();
    assert_eq!(es, vec![Error::MalformedField]);
}

#[test]
fn context_skip_names() {
    let fresh: Context = Default::default();
    assert!(!fresh.should_ignore(&Error::MalformedField));
    assert!(!fresh.should_skip("any.md"));
    let mut ctx = Context::new();
    assert!(!ctx.should_skip("a.md"));
    ctx.skip("a.md");
    assert!(ctx.should_skip("a.md"));
    assert!(!ctx.should_skip("b.md"));
    assert!(!ctx.should_ignore(&Error::MalformedField));
    ctx.ignore(Error::MalformedField);
    assert!(ctx.should_ignore(&Error::MalformedField));
}

#[test]
fn runner_setup_parses_token_lists() {
    let r = Runner::new("p", Some("title_max_length,missing_discussions_to"), Some("a.md,b.md"))
        .unwrap();
    assert!(r.ctx.should_ignore(&Error::TitleExceedsMaxLength));
    assert!(r.ctx.should_ignore(&Error::MissingDiscussionsToField));
    assert!(!r.ctx.should_ignore(&Error::MalformedField));
    assert!(r.ctx.should_skip("a.md"));
    assert!(r.ctx.should_skip("b.md"));
    assert!(!r.ctx.should_skip("c.md"));
    assert!(Runner::new("p", Some("no_such_token"), None).is_err());
}

#[test]
fn runner_counts_invalid_documents() {
    let mut r = Runner::new("p", None, None).unwrap();
    r.count(
        Eip::from_str(&Context::new(), "no delimiters at all"),
        "broken.md".to_string(),
    );
    assert_eq!(r.invalid(), 1);
    assert_eq!(r.valid, 0);
    assert_eq!(r.errors.len(), 1);
    assert_eq!(r.errors[0].0, "broken.md");
    assert_eq!(r.errors[0].1, vec![Error::StartDelimiterMissing]);
}

#[test]
fn trailing_info_after_email_example() {
    let e = validators::validate_author(&mut vec![], b"A <x@y> extra");
    assert_eq!(e, Err(Error::TrailingInfoAfterEmail));
}
