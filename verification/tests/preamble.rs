//! Document-level tests: whole preambles through the parser, one fixture
//! per rule.

use eipv::ctx::Context;
use eipv::eip::Eip;
use eipv::error::Error;
use eipv::runner::Runner;

/// A document that passes every check.
fn valid_doc() -> String {
    "---\neip: 1\ntitle: A\nauthor: John Doe <john@doe.com>\ndiscussions-to: https://example.com/\nstatus: Draft\ntype: Meta\ncreated: 2021-01-01\n---\nsome body\n".to_string()
}

/// The same document with one line swapped out (an empty replacement drops
/// the line).
fn doc_with(from: &str, to: &str) -> String {
    let d = valid_doc();
    let line = d
        .lines()
        .find(|l| l.starts_with(from))
        .expect("line present")
        .to_string();
    if to.is_empty() {
        d.replace(&format!("{}\n", line), "")
    } else {
        d.replace(&line, to)
    }
}

fn parse_errors(doc: &str) -> Vec<Error> {
    match Eip::from_str(&Context::new(), doc) {
        Ok(_) => vec![],
        Err(es) => es,
    }
}

fn assert_has(doc: &str, e: Error) {
    let es = parse_errors(doc);
    assert!(es.contains(&e), "expected {:?} in {:?}", e, es);
}

fn assert_valid(doc: &str) {
    let es = parse_errors(doc);
    assert!(es.is_empty(), "expected no errors, got {:?}", es);
}

#[test]
fn valid() {
    let mut r = Runner::new("valid.md", None, None).unwrap();
    r.count(Eip::from_str(&Context::new(), &valid_doc()), "valid.md".to_string());
    assert_eq!(r.valid, 1);
    assert_eq!(r.invalid(), 0);
}

#[test]
fn preamble_start_malformed() {
    let doc = valid_doc().replacen("---\n", "--\n", 1);
    let es = parse_errors(&doc);
    assert_eq!(es, vec![Error::StartDelimiterMissing]);
    assert_eq!(
        Error::StartDelimiterMissing.human_readable(),
        "missing initial '---' in preamble"
    );
}

#[test]
fn preamble_end_malformed() {
    let doc = valid_doc().replace("\n---\nsome body\n", "\n--\nsome body\n");
    let es = parse_errors(&doc);
    assert_eq!(es, vec![Error::EndDelimiterMissing]);
    assert_eq!(
        Error::EndDelimiterMissing.human_readable(),
        "missing trailing '---' in preamble"
    );
}

#[test]
fn preamble_has_required_fields() {
    assert_has(&doc_with("eip:", ""), Error::MissingEipField);
    assert_has(&doc_with("title:", ""), Error::MissingTitleField);
    assert_has(&doc_with("author:", ""), Error::MissingAuthorField);
    assert_has(&doc_with("discussions-to:", ""), Error::MissingDiscussionsToField);
    assert_has(&doc_with("status:", ""), Error::MissingStatusField);
    assert_has(&doc_with("type:", ""), Error::MissingTypeField);
    let standards_no_category = doc_with("type:", "type: Standards Track");
    assert_has(&standards_no_category, Error::MissingCategoryField);
    assert_valid(&doc_with("type:", "type: Informational"));
}

#[test]
fn preamble_unknown_field() {
    assert_has(&doc_with("created:", "flavour: vanilla"), Error::UnknownPreambleField);
}

#[test]
fn preamble_malformed_field() {
    assert_has(&doc_with("created:", "no separator here"), Error::MalformedField);
}

#[test]
fn preamble_malformed_eip() {
    assert_has(&doc_with("eip:", "eip: abc"), Error::MalformedEipNumber);
    assert_has(&doc_with("eip:", "eip: -1"), Error::MalformedEipNumber);
}

#[test]
fn preamble_title_too_long() {
    let long = format!("title: {}", "a".repeat(45));
    assert_has(&doc_with("title:", &long), Error::TitleExceedsMaxLength);
}

#[test]
fn preamble_invalid_discussions_to() {
    assert_has(
        &doc_with("discussions-to:", "discussions-to: not-a-url"),
        Error::MalformedDiscussionsTo,
    );
}

#[test]
fn preamble_status() {
    let cases = [
        ("Draft", 0),
        ("Review", 1),
        ("Last Call", 2),
        ("Final", 3),
        ("Stagnant", 4),
        ("Withdrawn", 5),
        ("Living", 6),
    ];
    for (spelling, which) in cases.iter() {
        let doc = doc_with("status:", &format!("status: {}", spelling));
        let mut r = Runner::new("s.md", None, None).unwrap();
        r.count(Eip::from_str(&Context::new(), &doc), "s.md".to_string());
        assert_eq!(r.valid, 1, "status {} should be valid", spelling);
        let counts = [r.draft, r.review, r.last_call, r.final_, r.stagnant, r.withdrawn, r.living];
        for (i, c) in counts.iter().enumerate() {
            assert_eq!(*c, if i == *which { 1 } else { 0 });
        }
    }
    assert_has(&doc_with("status:", "status: Pending"), Error::UnknownStatus);
}

#[test]
fn preamble_type() {
    let with_category = doc_with("type:", "type: Standards Track\ncategory: Core");
    assert_valid(&with_category);
    assert_valid(&doc_with("type:", "type: Informational"));
    assert_valid(&doc_with("type:", "type: Meta"));
    assert_has(&doc_with("type:", "type: Imaginary"), Error::UnknownType);
}

#[test]
fn preamble_category() {
    for c in ["Core", "Networking", "Interface", "ERC"].iter() {
        let doc = doc_with("type:", &format!("type: Standards Track\ncategory: {}", c));
        assert_valid(&doc);
    }
    let doc = doc_with("type:", "type: Standards Track\ncategory: Imaginary");
    assert_has(&doc, Error::UnknownCategory);
}

#[test]
fn preamble_last_call_deadline() {
    let doc = doc_with("created:", "created: 2021-01-01\nreview-period-end: 2020-13-45");
    assert_has(&doc, Error::MalformedLastCallDeadline);
    let ok = doc_with("created:", "created: 2021-01-01\nreview-period-end: 2020-12-01");
    assert_valid(&ok);
}

#[test]
fn preamble_created() {
    assert_has(&doc_with("created:", "created: 2020-99-99"), Error::MalformedCreated);
}

#[test]
fn preamble_updated() {
    let doc = doc_with("created:", "created: 2021-01-01\nupdated: not-a-date");
    assert_has(&doc, Error::MalformedUpdated);
    let ok = doc_with("created:", "created: 2021-01-01\nupdated: 2021-02-02, 2021-03-03");
    assert_valid(&ok);
}

#[test]
fn preamble_requires() {
    assert_valid(&doc_with("created:", "created: 2021-01-01\nrequires: 1"));
    assert_valid(&doc_with("created:", "created: 2021-01-01\nrequires: 1, 2"));
    assert_has(
        &doc_with("created:", "created: 2021-01-01\nrequires: one"),
        Error::MalformedEipNumber,
    );
    assert_has(
        &doc_with("created:", "created: 2021-01-01\nrequires: 2, 1"),
        Error::OutOfOrderEips,
    );
    assert_has(
        &doc_with("created:", "created: 2021-01-01\nrequires: 1,2"),
        Error::MissingSpaceAfterComma,
    );
    assert_has(
        &doc_with("created:", "created: 2021-01-01\nrequires: 1,  2"),
        Error::MissingSpaceAfterComma,
    );
}

#[test]
fn preamble_author() {
    assert_has(
        &doc_with("author:", "author: John Doe <john"),
        Error::UnmatchedEmailDelimiter,
    );
    assert_has(
        &doc_with("author:", "author: John Doe (john"),
        Error::UnmatchedHandleDelimiter,
    );
    assert_has(
        &doc_with("author:", "author: John Doe <john@doe.com> (@john)"),
        Error::AuthorHasEmailAndHandle,
    );
    assert_has(
        &doc_with("author:", "author: John Doe <john@doe.com> extra"),
        Error::TrailingInfoAfterEmail,
    );
    assert_has(
        &doc_with("author:", "author: John Doe (@john) extra"),
        Error::TrailingInfoAfterHandle,
    );
    assert_has(&doc_with("author:", "author: John Doe <@handle>"), Error::MalformedEmail);
    assert_has(&doc_with("author:", "author: John Doe (@bad!)"), Error::MalformedHandle);
    assert_has(&doc_with("author:", "author: John Doe"), Error::AuthorHasNoContactDetails);
}

#[test]
fn preamble_only_error_not_missing_field() {
    let long = format!("title: {}", "a".repeat(45));
    let es = parse_errors(&doc_with("title:", &long));
    assert!(es.contains(&Error::TitleExceedsMaxLength));
    assert!(!es.contains(&Error::MissingTitleField));
    for e in es.iter() {
        assert!(!e.human_readable().contains("missing"));
    }
}

#[test]
fn preamble_description_too_long() {
    let long = format!("description: {}", "d".repeat(141));
    let doc = doc_with("created:", &format!("created: 2021-01-01\n{}", long));
    assert_has(&doc, Error::DescriptionExceedsMaxLength);
    let ok = format!("description: {}", "d".repeat(140));
    assert_valid(&doc_with("created:", &format!("created: 2021-01-01\n{}", ok)));
}

#[test]
fn body_is_text_after_end_delimiter() {
    let d = Eip::from_str(&Context::new(), &valid_doc()).expect("valid");
    assert_eq!(d.body, b"some body\n".to_vec());
    assert_eq!(d.preamble.eip, Some(Ok(1)));
}

#[test]
fn revalidation_is_deterministic() {
    let doc = doc_with("eip:", "eip: nope");
    let first = parse_errors(&doc);
    let second = parse_errors(&doc);
    assert_eq!(first, second);
}

#[test]
fn line_shape_errors() {
    assert_has(&doc_with("title:", " title: A"), Error::LeadingWhitespace);
    assert_has(&doc_with("title:", "title : A"), Error::ExtraWhitespace);
    assert_has(&doc_with("title:", "title:A"), Error::MissingSpaceAfterColon);
    assert_has(&doc_with("title:", "title:  A"), Error::ExtraWhitespace);
    assert_has(&doc_with("title:", "title: A "), Error::TrailingWhitespace);
}

#[test]
fn blank_line_in_block_is_not_an_error() {
    let doc = valid_doc().replace("status: Draft\n", "status: Draft\n\n");
    assert_valid(&doc);
}

#[test]
fn resolution_must_be_url() {
    let doc = doc_with("created:", "created: 2021-01-01\nresolution: nope");
    assert_has(&doc, Error::MalformedResolution);
    let ok = doc_with("created:", "created: 2021-01-01\nresolution: https://example.org/x");
    assert_valid(&ok);
}
