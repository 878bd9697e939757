//! The typed document: preamble fields, their enumerations, and the parsed
//! document value.

use vstd::prelude::*;
use vstd::string::StringSliceAdditionalSpecFns;

use crate::error::Error;
use crate::text::bytes_is;

verus! {

/// A calendar date as plain year, month and day, as the date parser hands
/// it back.
#[derive(Clone, Copy, Debug, Eq, PartialEq, Structural)]
pub struct Date {
    pub year: i32,
    pub month: u32,
    pub day: u32,
}

/// The publication status of a proposal.
#[derive(Clone, Copy, Debug, Eq, PartialEq, Structural)]
pub enum Status {
    Draft,
    Review,
    LastCall,
    Final,
    Stagnant,
    Withdrawn,
    Living,
}

/// The track of a proposal.
#[derive(Clone, Copy, Debug, Eq, PartialEq, Structural)]
pub enum Type {
    Standards,
    Informational,
    Meta,
}

/// The category of a Standards-track proposal.
#[derive(Clone, Copy, Debug, Eq, PartialEq, Structural)]
pub enum Category {
    Core,
    Networking,
    Interface,
    Erc,
}

/// The status a byte string spells, by exact match against the accepted
/// spellings.
pub open spec fn spec_status(s: Seq<u8>) -> Result<Status, Error> {
    if s == ("Draft").spec_bytes() {
        Ok(Status::Draft)
    } else if s == ("Review").spec_bytes() {
        Ok(Status::Review)
    } else if s == ("Last Call").spec_bytes() {
        Ok(Status::LastCall)
    } else if s == ("Final").spec_bytes() {
        Ok(Status::Final)
    } else if s == ("Stagnant").spec_bytes() {
        Ok(Status::Stagnant)
    } else if s == ("Withdrawn").spec_bytes() {
        Ok(Status::Withdrawn)
    } else if s == ("Living").spec_bytes() {
        Ok(Status::Living)
    } else {
        Err(Error::UnknownStatus)
    }
}

/// The type a byte string spells.
pub open spec fn spec_type(s: Seq<u8>) -> Result<Type, Error> {
    if s == ("Standards Track").spec_bytes() {
        Ok(Type::Standards)
    } else if s == ("Informational").spec_bytes() {
        Ok(Type::Informational)
    } else if s == ("Meta").spec_bytes() {
        Ok(Type::Meta)
    } else {
        Err(Error::UnknownType)
    }
}

/// The category a byte string spells.
pub open spec fn spec_category(s: Seq<u8>) -> Result<Category, Error> {
    if s == ("Core").spec_bytes() {
        Ok(Category::Core)
    } else if s == ("Networking").spec_bytes() {
        Ok(Category::Networking)
    } else if s == ("Interface").spec_bytes() {
        Ok(Category::Interface)
    } else if s == ("ERC").spec_bytes() {
        Ok(Category::Erc)
    } else {
        Err(Error::UnknownCategory)
    }
}

impl Status {
    /// Matches a raw value against the accepted status spellings.
    pub fn from_bytes(s: &[u8]) -> (r: Result<Self, Error>)
        ensures
            r == spec_status(s@),
    {
        if bytes_is(s, "Draft") {
            Ok(Status::Draft)
        } else if bytes_is(s, "Review") {
            Ok(Status::Review)
        } else if bytes_is(s, "Last Call") {
            Ok(Status::LastCall)
        } else if bytes_is(s, "Final") {
            Ok(Status::Final)
        } else if bytes_is(s, "Stagnant") {
            Ok(Status::Stagnant)
        } else if bytes_is(s, "Withdrawn") {
            Ok(Status::Withdrawn)
        } else if bytes_is(s, "Living") {
            Ok(Status::Living)
        } else {
            Err(Error::UnknownStatus)
        }
    }

    /// Matches a string against the accepted status spellings.
    pub fn from_str(s: &str) -> (r: Result<Self, Error>)
        ensures
            r == spec_status(s.spec_bytes()),
    {
        Self::from_bytes(s.as_bytes())
    }
}

impl Type {
    /// Matches a raw value against the accepted type spellings.
    pub fn from_bytes(s: &[u8]) -> (r: Result<Self, Error>)
        ensures
            r == spec_type(s@),
    {
        if bytes_is(s, "Standards Track") {
            Ok(Type::Standards)
        } else if bytes_is(s, "Informational") {
            Ok(Type::Informational)
        } else if bytes_is(s, "Meta") {
            Ok(Type::Meta)
        } else {
            Err(Error::UnknownType)
        }
    }

    /// Matches a string against the accepted type spellings.
    pub fn from_str(s: &str) -> (r: Result<Self, Error>)
        ensures
            r == spec_type(s.spec_bytes()),
    {
        Self::from_bytes(s.as_bytes())
    }
}

impl Category {
    /// Matches a raw value against the accepted category spellings.
    pub fn from_bytes(s: &[u8]) -> (r: Result<Self, Error>)
        ensures
            r == spec_category(s@),
    {
        if bytes_is(s, "Core") {
            Ok(Category::Core)
        } else if bytes_is(s, "Networking") {
            Ok(Category::Networking)
        } else if bytes_is(s, "Interface") {
            Ok(Category::Interface)
        } else if bytes_is(s, "ERC") {
            Ok(Category::Erc)
        } else {
            Err(Error::UnknownCategory)
        }
    }

    /// Matches a string against the accepted category spellings.
    pub fn from_str(s: &str) -> (r: Result<Self, Error>)
        ensures
            r == spec_category(s.spec_bytes()),
    {
        Self::from_bytes(s.as_bytes())
    }
}

} // verus!

verus! {

/// The view of an optional field holding raw bytes.
pub open spec fn field_bytes_view(o: Option<Result<Vec<u8>, ()>>) -> Option<Result<Seq<u8>, ()>> {
    match o {
        None => None,
        Some(Ok(v)) => Some(Ok(v@)),
        Some(Err(_)) => Some(Err(())),
    }
}

/// The view of an optional field holding a list of byte strings.
pub open spec fn field_list_view(o: Option<Result<Vec<Vec<u8>>, ()>>) -> Option<
    Result<Seq<Seq<u8>>, ()>,
> {
    match o {
        None => None,
        Some(Ok(v)) => Some(Ok(v.deep_view())),
        Some(Err(_)) => Some(Err(())),
    }
}

/// The view of an optional field holding a list of identifiers.
pub open spec fn field_nums_view(o: Option<Result<Vec<u64>, ()>>) -> Option<
    Result<Seq<u64>, ()>,
> {
    match o {
        None => None,
        Some(Ok(v)) => Some(Ok(v@)),
        Some(Err(_)) => Some(Err(())),
    }
}

/// The view of an optional field holding a list of dates.
pub open spec fn field_dates_view(o: Option<Result<Vec<Date>, ()>>) -> Option<
    Result<Seq<Date>, ()>,
> {
    match o {
        None => None,
        Some(Ok(v)) => Some(Ok(v@)),
        Some(Err(_)) => Some(Err(())),
    }
}

/// A parsed preamble: each recognized field is absent, present with its
/// typed value, or present but invalid.  A field is recorded as present
/// even when its value fails validation, so that a missing field and a
/// malformed one are never confused.
#[derive(Debug)]
pub struct Preamble {
    pub eip: Option<Result<u64, ()>>,
    pub title: Option<Result<Vec<u8>, ()>>,
    pub description: Option<Result<Vec<u8>, ()>>,
    pub author: Option<Result<Vec<Vec<u8>>, ()>>,
    pub discussions_to: Option<Result<Vec<u8>, ()>>,
    pub status: Option<Result<Status, ()>>,
    pub review_period_end: Option<Result<Date, ()>>,
    pub ty: Option<Result<Type, ()>>,
    pub category: Option<Result<Category, ()>>,
    pub created: Option<Result<Date, ()>>,
    pub updated: Option<Result<Vec<Date>, ()>>,
    pub requires: Option<Result<Vec<u64>, ()>>,
    pub replaces: Option<Result<Vec<u64>, ()>>,
    pub superseded_by: Option<Result<Vec<u64>, ()>>,
    pub resolution: Option<Result<Vec<u8>, ()>>,
}

/// The mathematical shape of a preamble, over sequences.
pub struct PreambleV {
    pub eip: Option<Result<u64, ()>>,
    pub title: Option<Result<Seq<u8>, ()>>,
    pub description: Option<Result<Seq<u8>, ()>>,
    pub author: Option<Result<Seq<Seq<u8>>, ()>>,
    pub discussions_to: Option<Result<Seq<u8>, ()>>,
    pub status: Option<Result<Status, ()>>,
    pub review_period_end: Option<Result<Date, ()>>,
    pub ty: Option<Result<Type, ()>>,
    pub category: Option<Result<Category, ()>>,
    pub created: Option<Result<Date, ()>>,
    pub updated: Option<Result<Seq<Date>, ()>>,
    pub requires: Option<Result<Seq<u64>, ()>>,
    pub replaces: Option<Result<Seq<u64>, ()>>,
    pub superseded_by: Option<Result<Seq<u64>, ()>>,
    pub resolution: Option<Result<Seq<u8>, ()>>,
}

impl View for Preamble {
    type V = PreambleV;

    open spec fn view(&self) -> PreambleV {
        PreambleV {
            eip: self.eip,
            title: field_bytes_view(self.title),
            description: field_bytes_view(self.description),
            author: field_list_view(self.author),
            discussions_to: field_bytes_view(self.discussions_to),
            status: self.status,
            review_period_end: self.review_period_end,
            ty: self.ty,
            category: self.category,
            created: self.created,
            updated: field_dates_view(self.updated),
            requires: field_nums_view(self.requires),
            replaces: field_nums_view(self.replaces),
            superseded_by: field_nums_view(self.superseded_by),
            resolution: field_bytes_view(self.resolution),
        }
    }
}

/// The preamble with every field absent.
pub open spec fn spec_empty_preamble() -> PreambleV {
    PreambleV {
        eip: None,
        title: None,
        description: None,
        author: None,
        discussions_to: None,
        status: None,
        review_period_end: None,
        ty: None,
        category: None,
        created: None,
        updated: None,
        requires: None,
        replaces: None,
        superseded_by: None,
        resolution: None,
    }
}

impl Default for Preamble {
    /// A preamble with every field absent.
    fn default() -> (r: Self)
        ensures
            r@ == spec_empty_preamble(),
    {
        Preamble {
            eip: None,
            title: None,
            description: None,
            author: None,
            discussions_to: None,
            status: None,
            review_period_end: None,
            ty: None,
            category: None,
            created: None,
            updated: None,
            requires: None,
            replaces: None,
            superseded_by: None,
            resolution: None,
        }
    }
}

/// A successfully parsed document: its preamble and the untouched body
/// after the closing delimiter.
#[derive(Debug)]
pub struct Eip {
    pub preamble: Preamble,
    pub body: Vec<u8>,
}

} // verus!

verus! {

/// The mathematical shape of a parsed document.
pub struct EipV {
    pub preamble: PreambleV,
    pub body: Seq<u8>,
}

impl View for Eip {
    type V = EipV;

    open spec fn view(&self) -> EipV {
        EipV { preamble: self.preamble@, body: self.body@ }
    }
}

impl Preamble {
    /// Parses a document into its preamble and body against the given
    /// context, surfacing the full error list on failure.
    pub fn from_str(ctx: &crate::ctx::Context, s: &str) -> (r: Result<(Preamble, Vec<u8>), Vec<Error>>)
        ensures
            ({
                let m = crate::parse::spec_parse(ctx.ignored_set(), s.spec_bytes());
                match r {
                    Ok(t) => m == Ok::<_, Seq<Error>>((t.0@, t.1@)),
                    Err(es) => m == Err::<(PreambleV, Seq<u8>), _>(es@),
                }
            }),
    {
        crate::parse::parse_document(ctx, s.as_bytes())
    }
}

impl Eip {
    /// Parses a whole document against the given context.
    pub fn from_str(ctx: &crate::ctx::Context, s: &str) -> (r: Result<Eip, Vec<Error>>)
        ensures
            ({
                let m = crate::parse::spec_parse(ctx.ignored_set(), s.spec_bytes());
                match r {
                    Ok(d) => m == Ok::<_, Seq<Error>>((d.preamble@, d.body@)),
                    Err(es) => m == Err::<(PreambleV, Seq<u8>), _>(es@),
                }
            }),
    {
        match Preamble::from_str(ctx, s) {
            Ok(t) => Ok(Eip { preamble: t.0, body: t.1 }),
            Err(e) => Err(e),
        }
    }
}

} // verus!
