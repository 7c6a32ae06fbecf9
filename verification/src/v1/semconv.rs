//! Semantic convention files, version 1.

use vstd::prelude::*;
use crate::error::{Error, ErrorView, WResult, errors_view, lemma_errors_view_add};
use crate::group::{GroupSpec, spec_group_errors};

verus! {

/// A version 1 file together with where it comes from.
pub struct SemConvSpecV1WithProvenance {
    /// The file.
    pub spec: SemConvSpecV1,
    /// Where it comes from.
    pub provenance: crate::provenance::Provenance,
}

/// A glob pattern selecting groups by id.
#[derive(Clone, Debug, PartialEq, Eq)]
pub struct GroupWildcard(pub String);

/// Groups imported from dependencies, by kind of signal.
#[derive(Clone, Debug, PartialEq)]
pub struct Imports {
    /// Metrics to import.
    pub metrics: Option<Vec<GroupWildcard>>,
    /// Events to import.
    pub events: Option<Vec<GroupWildcard>>,
    /// Entities to import.
    pub entities: Option<Vec<GroupWildcard>>,
    /// Spans to import.
    pub spans: Option<Vec<GroupWildcard>>,
    /// Attribute groups to import.
    pub attribute_groups: Option<Vec<GroupWildcard>>,
}

/// A semantic convention file, version 1.
#[derive(Debug, PartialEq)]
pub struct SemConvSpecV1 {
    /// The groups of the file.
    pub groups: Vec<GroupSpec>,
    /// Imports from dependencies.
    pub imports: Option<Imports>,
}

/// The errors of all groups, group after group.
pub open spec fn spec_groups_errors(groups: Seq<GroupSpec>, path: Seq<char>) -> Seq<ErrorView>
    decreases groups.len(),
{
    if groups.len() == 0 {
        Seq::empty()
    } else {
        spec_groups_errors(groups.drop_last(), path) + spec_group_errors(groups.last(), path)
    }
}

impl SemConvSpecV1 {
    /// A file made of `groups` and `imports`.
    pub fn new(groups: Vec<GroupSpec>, imports: Option<Imports>) -> (r: Self)
        ensures
            r.groups == groups,
            r.imports == imports,
    {
        SemConvSpecV1 { groups, imports }
    }

    /// The groups of the file.
    pub fn groups(&self) -> (r: &[GroupSpec])
        ensures
            r@ == self.groups@,
    {
        self.groups.as_slice()
    }

    /// The imports of the file.
    pub fn imports(&self) -> (r: Option<&Imports>)
        ensures
            r is Some <==> self.imports is Some,
            r is Some ==> *r->0 == self.imports->0,
    {
        match &self.imports {
            Some(i) => Some(i),
            None => None,
        }
    }

    /// Validates every group; the problems found are non-fatal.
    pub fn validate(self, provenance: &str) -> (r: WResult<SemConvSpecV1>)
        ensures
            match r {
                WResult::OkValue(s) => s == self && spec_groups_errors(self.groups@, provenance@).len()
                    == 0,
                WResult::OkWithNFEs(s, e) => s == self && errors_view(e@) == spec_groups_errors(
                    self.groups@,
                    provenance@,
                ) && e@.len() > 0,
                WResult::FatalErr(_) => false,
            },
    {
        let mut errors: Vec<Error> = Vec::new();
        let mut i: usize = 0;
        assert(self.groups@.subrange(0, 0) =~= Seq::<GroupSpec>::empty());
        assert(errors_view(errors@) =~= Seq::<ErrorView>::empty());
        while i < self.groups.len()
            invariant
                i <= self.groups@.len(),
                errors_view(errors@) == spec_groups_errors(self.groups@.subrange(0, i as int), provenance@),
            decreases self.groups@.len() - i,
        {
            proof {
                assert(self.groups@.subrange(0, i + 1).drop_last() =~= self.groups@.subrange(0, i as int));
            }
            let r = self.groups[i].validate(provenance);
            match r {
                WResult::OkValue(_) => {
                    assert(errors_view(errors@) + Seq::<ErrorView>::empty() =~= errors_view(errors@));
                },
                WResult::OkWithNFEs(_, mut errs) => {
                    proof {
                        lemma_errors_view_add(errors@, errs@);
                    }
                    errors.append(&mut errs);
                },
                WResult::FatalErr(_) => {},
            }
            proof {
                assert(errors_view(errors@) =~= spec_groups_errors(self.groups@.subrange(0, i + 1), provenance@));
            }
            i = i + 1;
        }
        assert(self.groups@.subrange(0, i as int) =~= self.groups@);
        proof {
            crate::error::lemma_errors_view_len(errors@);
        }
        WResult::with_non_fatal_errors(self, errors)
    }
}

} // verus!
