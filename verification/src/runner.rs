//! The per-run bookkeeping around the validator: the suppression context
//! built from the caller's comma-separated token lists, and the counts of
//! valid and invalid documents by status, type and category.

use vstd::prelude::*;
use vstd::string::StringSliceAdditionalSpecFns;

use crate::ctx::Context;
use crate::eip::{Category, Eip, Status, Type};
use crate::error::{spec_token_error, Error};
use crate::text::{split, spec_split};

verus! {

/// The ignore set a comma-separated token list denotes from element `i`
/// on, or nothing when some token is unrecognized.
pub open spec fn spec_token_fold(elems: Seq<Seq<u8>>, i: int, acc: Set<Error>) -> Option<
    Set<Error>,
>
    decreases elems.len() - i when 0 <= i <= elems.len()
{
    if i >= elems.len() {
        Some(acc)
    } else {
        match spec_token_error(elems[i]) {
            None => None,
            Some(e) => spec_token_fold(elems, i + 1, acc.insert(e)),
        }
    }
}

/// The ignore set a whole comma-separated token list denotes, if every
/// token is recognized.
pub open spec fn spec_ignore_tokens(s: Seq<u8>) -> Option<Set<Error>> {
    spec_token_fold(spec_split(s, ',' as u8), 0, Set::empty())
}

/// One validation run: the path under scrutiny, the context, the surfaced
/// error lists by file, and the aggregate counts.
pub struct Runner<'a> {
    pub path: &'a str,
    pub ctx: Context,
    pub errors: Vec<(String, Vec<Error>)>,
    pub valid: u64,
    pub invalid: u64,
    pub draft: u64,
    pub review: u64,
    pub last_call: u64,
    pub final_: u64,
    pub stagnant: u64,
    pub withdrawn: u64,
    pub living: u64,
    pub standards: u64,
    pub meta: u64,
    pub informational: u64,
    pub core: u64,
    pub erc: u64,
    pub interface: u64,
    pub networking: u64,
}

impl<'a> Runner<'a> {
    /// Whether every count and list is still at its starting value.
    pub open spec fn fresh(&self) -> bool {
        &&& self.errors@ == Seq::<(String, Vec<Error>)>::empty()
        &&& self.valid == 0 && self.invalid == 0
        &&& self.draft == 0 && self.review == 0 && self.last_call == 0 && self.final_ == 0
        &&& self.stagnant == 0 && self.withdrawn == 0 && self.living == 0
        &&& self.standards == 0 && self.meta == 0 && self.informational == 0
        &&& self.core == 0 && self.erc == 0 && self.interface == 0 && self.networking == 0
    }

    /// Builds a runner: the ignore list's tokens are mapped to error kinds,
    /// an unrecognized token failing the whole setup, and the skip list's
    /// names are taken as they come.
    pub fn new(path: &'a str, ignore: Option<&'a str>, skip: Option<&'a str>) -> (r: Result<
        Self,
        (),
    >)
        ensures
            match r {
                Ok(run) => {
                    &&& run.path@ == path@
                    &&& run.fresh()
                    &&& match ignore {
                        None => run.ctx.ignored_set() == Set::<Error>::empty(),
                        Some(ig) => spec_ignore_tokens(ig.spec_bytes()) == Some(
                            run.ctx.ignored_set(),
                        ),
                    }
                    &&& match skip {
                        None => run.ctx.skipped_set() == Set::<Seq<u8>>::empty(),
                        Some(sk) => run.ctx.skipped_set() == spec_split(
                            sk.spec_bytes(),
                            ',' as u8,
                        ).to_set(),
                    }
                },
                Err(()) => match ignore {
                    None => false,
                    Some(ig) => spec_ignore_tokens(ig.spec_bytes()) is None,
                },
            },
    {
        let mut ctx = Context::new();
        match ignore {
            None => {},
            Some(ig) => {
                let parts = split(ig.as_bytes(), ',' as u8);
                let ghost elems = parts.deep_view();
                let mut i: usize = 0;
                while i < parts.len()
                    invariant
                        ignore matches Some(igg) && igg.spec_bytes() == ig.spec_bytes(),
                        i <= parts@.len(),
                        elems == parts.deep_view(),
                        elems == spec_split(ig.spec_bytes(), ',' as u8),
                        elems.len() == parts@.len(),
                        ctx.skipped_set() == Set::<Seq<u8>>::empty(),
                        spec_token_fold(elems, 0, Set::empty()) == spec_token_fold(
                            elems,
                            i as int,
                            ctx.ignored_set(),
                        ),
                    decreases parts@.len() - i,
                {
                    proof {
                        assert(elems[i as int] =~= parts@[i as int]@);
                    }
                    match Error::from_token(parts[i].as_slice()) {
                        None => {
                            proof {
                                assert(spec_token_error(elems[i as int]) is None);
                                assert(spec_token_fold(elems, i as int, ctx.ignored_set())
                                    == None::<Set<Error>>);
                                assert(elems == spec_split(ig.spec_bytes(), ',' as u8));
                                assert(spec_ignore_tokens(ig.spec_bytes()) is None);
                            }
                            return Err(());
                        },
                        Some(e) => {
                            ctx.ignore(e);
                        },
                    }
                    i += 1;
                }
            },
        }
        match skip {
            None => {},
            Some(sk) => {
                let parts = split(sk.as_bytes(), ',' as u8);
                let ghost elems = parts.deep_view();
                let ghost ig_before = ctx.ignored_set();
                let mut i: usize = 0;
                proof {
                    assert(elems.take(0) =~= Seq::<Seq<u8>>::empty());
                    assert(Seq::<Seq<u8>>::empty().to_set() =~= Set::<Seq<u8>>::empty());
                }
                while i < parts.len()
                    invariant
                        i <= parts@.len(),
                        elems == parts.deep_view(),
                        elems.len() == parts@.len(),
                        ctx.ignored_set() == ig_before,
                        ctx.skipped_set() == elems.take(i as int).to_set(),
                    decreases parts@.len() - i,
                {
                    proof {
                        assert(elems[i as int] =~= parts@[i as int]@);
                    }
                    ctx.skip_bytes(parts[i].as_slice());
                    i += 1;
                    proof {
                        assert(elems.take(i as int - 1).push(elems[i as int - 1]) =~= elems.take(
                            i as int,
                        ));
                        elems.take(i as int - 1).lemma_push_to_set_commute(elems[i as int - 1]);
                    }
                }
                proof {
                    assert(elems.take(parts@.len() as int) =~= elems);
                }
            },
        }
        Ok(
            Runner {
                path,
                ctx,
                errors: Vec::new(),
                valid: 0,
                invalid: 0,
                draft: 0,
                review: 0,
                last_call: 0,
                final_: 0,
                stagnant: 0,
                withdrawn: 0,
                living: 0,
                standards: 0,
                meta: 0,
                informational: 0,
                core: 0,
                erc: 0,
                interface: 0,
                networking: 0,
            },
        )
    }

    /// The count of invalid documents seen so far.
    pub fn invalid(&self) -> (r: u64)
        ensures
            r == self.invalid,
    {
        self.invalid
    }

    /// Folds one document's outcome into the counts: a parsed document
    /// raises the valid count and the counters of whatever status, type
    /// and category it carries; a failed one raises the invalid count and
    /// files its error list under the document's name.
    pub fn count(&mut self, res: Result<Eip, Vec<Error>>, file_name: String)
        requires
            old(self).valid < u64::MAX,
            old(self).invalid < u64::MAX,
            old(self).draft < u64::MAX,
            old(self).review < u64::MAX,
            old(self).last_call < u64::MAX,
            old(self).final_ < u64::MAX,
            old(self).stagnant < u64::MAX,
            old(self).withdrawn < u64::MAX,
            old(self).living < u64::MAX,
            old(self).standards < u64::MAX,
            old(self).meta < u64::MAX,
            old(self).informational < u64::MAX,
            old(self).core < u64::MAX,
            old(self).erc < u64::MAX,
            old(self).interface < u64::MAX,
            old(self).networking < u64::MAX,
        ensures
            final(self).path@ == old(self).path@,
            final(self).ctx == old(self).ctx,
            match res {
                Ok(d) => {
                    &&& final(self).valid == old(self).valid + 1
                    &&& final(self).invalid == old(self).invalid
                    &&& final(self).errors@ == old(self).errors@
                    &&& final(self).draft == old(self).draft + (if d.preamble.status == Some(
                        Ok::<Status, ()>(Status::Draft),
                    ) {
                        1int
                    } else {
                        0
                    })
                    &&& final(self).review == old(self).review + (if d.preamble.status == Some(
                        Ok::<Status, ()>(Status::Review),
                    ) {
                        1int
                    } else {
                        0
                    })
                    &&& final(self).last_call == old(self).last_call + (if d.preamble.status
                        == Some(Ok::<Status, ()>(Status::LastCall)) {
                        1int
                    } else {
                        0
                    })
                    &&& final(self).final_ == old(self).final_ + (if d.preamble.status == Some(
                        Ok::<Status, ()>(Status::Final),
                    ) {
                        1int
                    } else {
                        0
                    })
                    &&& final(self).stagnant == old(self).stagnant + (if d.preamble.status == Some(
                        Ok::<Status, ()>(Status::Stagnant),
                    ) {
                        1int
                    } else {
                        0
                    })
                    &&& final(self).withdrawn == old(self).withdrawn + (if d.preamble.status
                        == Some(Ok::<Status, ()>(Status::Withdrawn)) {
                        1int
                    } else {
                        0
                    })
                    &&& final(self).living == old(self).living + (if d.preamble.status == Some(
                        Ok::<Status, ()>(Status::Living),
                    ) {
                        1int
                    } else {
                        0
                    })
                    &&& final(self).standards == old(self).standards + (if d.preamble.ty == Some(
                        Ok::<Type, ()>(Type::Standards),
                    ) {
                        1int
                    } else {
                        0
                    })
                    &&& final(self).informational == old(self).informational + (if d.preamble.ty
                        == Some(Ok::<Type, ()>(Type::Informational)) {
                        1int
                    } else {
                        0
                    })
                    &&& final(self).meta == old(self).meta + (if d.preamble.ty == Some(
                        Ok::<Type, ()>(Type::Meta),
                    ) {
                        1int
                    } else {
                        0
                    })
                    &&& final(self).core == old(self).core + (if d.preamble.category == Some(
                        Ok::<Category, ()>(Category::Core),
                    ) {
                        1int
                    } else {
                        0
                    })
                    &&& final(self).networking == old(self).networking + (if d.preamble.category
                        == Some(Ok::<Category, ()>(Category::Networking)) {
                        1int
                    } else {
                        0
                    })
                    &&& final(self).interface == old(self).interface + (if d.preamble.category
                        == Some(Ok::<Category, ()>(Category::Interface)) {
                        1int
                    } else {
                        0
                    })
                    &&& final(self).erc == old(self).erc + (if d.preamble.category == Some(
                        Ok::<Category, ()>(Category::Erc),
                    ) {
                        1int
                    } else {
                        0
                    })
                },
                Err(es) => {
                    &&& final(self).invalid == old(self).invalid + 1
                    &&& final(self).valid == old(self).valid
                    &&& final(self).errors@ == old(self).errors@.push((file_name, es))
                    &&& final(self).draft == old(self).draft
                    &&& final(self).review == old(self).review
                    &&& final(self).last_call == old(self).last_call
                    &&& final(self).final_ == old(self).final_
                    &&& final(self).stagnant == old(self).stagnant
                    &&& final(self).withdrawn == old(self).withdrawn
                    &&& final(self).living == old(self).living
                    &&& final(self).standards == old(self).standards
                    &&& final(self).meta == old(self).meta
                    &&& final(self).informational == old(self).informational
                    &&& final(self).core == old(self).core
                    &&& final(self).erc == old(self).erc
                    &&& final(self).interface == old(self).interface
                    &&& final(self).networking == old(self).networking
                },
            },
    {
        match res {
            Ok(eip) => {
                self.valid = self.valid + 1;
                match eip.preamble.status {
                    Some(Ok(Status::Draft)) => {
                        self.draft = self.draft + 1;
                    },
                    Some(Ok(Status::Review)) => {
                        self.review = self.review + 1;
                    },
                    Some(Ok(Status::LastCall)) => {
                        self.last_call = self.last_call + 1;
                    },
                    Some(Ok(Status::Final)) => {
                        self.final_ = self.final_ + 1;
                    },
                    Some(Ok(Status::Stagnant)) => {
                        self.stagnant = self.stagnant + 1;
                    },
                    Some(Ok(Status::Withdrawn)) => {
                        self.withdrawn = self.withdrawn + 1;
                    },
                    Some(Ok(Status::Living)) => {
                        self.living = self.living + 1;
                    },
                    _ => {},
                }
                match eip.preamble.ty {
                    Some(Ok(Type::Standards)) => {
                        self.standards = self.standards + 1;
                    },
                    Some(Ok(Type::Informational)) => {
                        self.informational = self.informational + 1;
                    },
                    Some(Ok(Type::Meta)) => {
                        self.meta = self.meta + 1;
                    },
                    _ => {},
                }
                match eip.preamble.category {
                    Some(Ok(Category::Core)) => {
                        self.core = self.core + 1;
                    },
                    Some(Ok(Category::Networking)) => {
                        self.networking = self.networking + 1;
                    },
                    Some(Ok(Category::Interface)) => {
                        self.interface = self.interface + 1;
                    },
                    Some(Ok(Category::Erc)) => {
                        self.erc = self.erc + 1;
                    },
                    _ => {},
                }
            },
            Err(e) => {
                self.invalid = self.invalid + 1;
                self.errors.push((file_name, e));
            },
        }
    }
}

} // verus!
