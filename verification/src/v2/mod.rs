//! Semantic convention definitions, version 2.

pub mod attribute;
pub mod attribute_group;
pub mod manifest;
pub mod entity;
pub mod event;
pub mod metric;
pub mod signal_id;
pub mod span;

use vstd::prelude::*;
use crate::deprecated::Deprecated;
use crate::error::{Error, ErrorKind, ErrorView, WResult, error_view, errors_view, ev,
    lemma_errors_view_push};
use crate::stability::Stability;
use crate::text::{concat2, str_eq};
use crate::v2::attribute::{AttributeDef, AttributeRef};
use crate::v2::attribute_group::AttributeGroup;
use crate::v2::entity::{Entity, EntityRefinement};
use crate::v2::event::{Event, EventRefinement};
use crate::v2::metric::{Metric, MetricRefinement};
use crate::v2::span::{Span, SpanRefinement};
use crate::yaml_value::Annotations;

verus! {

/// The fields shared by version 2 signals.
#[derive(Clone, Debug, PartialEq)]
pub struct CommonFields {
    /// A brief description.
    pub brief: String,
    /// A longer description.
    pub note: String,
    /// The stability.
    pub stability: Stability,
    /// The deprecation.
    pub deprecated: Option<Deprecated>,
    /// Annotations.
    pub annotations: Annotations,
}


/// Names the outcome of compiling a glob pattern with `globset`: the text of
/// the error when the pattern is rejected, `None` when it compiles.
pub uninterp spec fn glob_compile_error(pattern: Seq<char>) -> Option<Seq<char>>;

/// Compiles a glob pattern with `globset::Glob::new` and reports the text of
/// the error if the pattern is rejected. The contract ties the outcome to the
/// pattern through [`glob_compile_error`] and says nothing more of it.
#[verifier::external_body]
fn glob_check(pattern: &str) -> (r: Option<String>)
    ensures
        match glob_compile_error(pattern@) {
            Some(m) => r matches Some(x) && x@ == m,
            None => r is None,
        },
{
    match globset::Glob::new(pattern) {
        Ok(_) => None,
        Err(e) => Some(e.to_string()),
    }
}

/// A glob pattern selecting groups by id.
#[derive(Clone, Debug, PartialEq, Eq)]
pub struct GroupWildcard(pub String);

impl GroupWildcard {
    /// A wildcard for a pattern that `globset` accepts; the error text otherwise.
    pub fn new(pattern: &str) -> (r: Result<GroupWildcard, String>)
        ensures
            match glob_compile_error(pattern@) {
                Some(m) => r matches Err(x) && x@ == m,
                None => r matches Ok(w) && w.0@ == pattern@,
            },
    {
        match glob_check(pattern) {
            Some(m) => Err(m),
            None => Ok(GroupWildcard(String::from_str(pattern))),
        }
    }

    /// The pattern of the wildcard.
    pub fn as_str(&self) -> (s: &str)
        ensures
            s@ == self.0@,
    {
        self.0.as_str()
    }
}

/// Groups imported from dependencies, by kind of signal.
#[derive(Clone, Debug, PartialEq)]
pub struct Imports {
    /// Metrics to import.
    pub metrics: Option<Vec<GroupWildcard>>,
    /// Events to import.
    pub events: Option<Vec<GroupWildcard>>,
    /// Entities to import.
    pub entities: Option<Vec<GroupWildcard>>,
    /// Spans to import.
    pub spans: Option<Vec<GroupWildcard>>,
    /// Attribute groups to import.
    pub attribute_groups: Option<Vec<GroupWildcard>>,
}

/// A semantic convention file, version 2.
#[derive(Debug, PartialEq)]
pub struct SemConvSpecV2 {
    /// Attribute definitions.
    pub attributes: Vec<AttributeDef>,
    /// Entities.
    pub entities: Vec<Entity>,
    /// Events.
    pub events: Vec<Event>,
    /// Metrics.
    pub metrics: Vec<Metric>,
    /// Spans.
    pub spans: Vec<Span>,
    /// Attribute groups.
    pub attribute_groups: Vec<AttributeGroup>,
    /// Entity refinements.
    pub entity_refinements: Vec<EntityRefinement>,
    /// Event refinements.
    pub event_refinements: Vec<EventRefinement>,
    /// Metric refinements.
    pub metric_refinements: Vec<MetricRefinement>,
    /// Span refinements.
    pub span_refinements: Vec<SpanRefinement>,
    /// Imports from dependencies.
    pub imports: Option<Imports>,
}

/// A warning for each signal without requirement level, with the group id
/// `prefix` + name.
pub open spec fn spec_missing_level_warnings(
    names: Seq<Seq<char>>,
    missing: Seq<bool>,
    prefix: Seq<char>,
    path: Seq<char>,
) -> Seq<ErrorView>
    decreases names.len(),
{
    if names.len() == 0 || missing.len() != names.len() {
        Seq::empty()
    } else {
        spec_missing_level_warnings(names.drop_last(), missing.drop_last(), prefix, path) + if missing.last() {
            seq![ev(ErrorKind::MissingRequirementLevelWarning, seq![path, prefix + names.last()])]
        } else {
            Seq::empty()
        }
    }
}

/// The names and requirement-level gaps of the metrics.
pub open spec fn metric_names(s: Seq<Metric>) -> Seq<Seq<char>> {
    s.map_values(|m: Metric| m.name.0@)
}

/// Which metrics have no requirement level.
pub open spec fn metric_missing(s: Seq<Metric>) -> Seq<bool> {
    s.map_values(|m: Metric| m.requirement_level is None)
}

/// The types of the spans.
pub open spec fn span_names(s: Seq<Span>) -> Seq<Seq<char>> {
    s.map_values(|m: Span| m.type_.0@)
}

/// Which spans have no requirement level.
pub open spec fn span_missing(s: Seq<Span>) -> Seq<bool> {
    s.map_values(|m: Span| m.requirement_level is None)
}

/// The names of the events.
pub open spec fn event_names(s: Seq<Event>) -> Seq<Seq<char>> {
    s.map_values(|m: Event| m.name.0@)
}

/// Which events have no requirement level.
pub open spec fn event_missing(s: Seq<Event>) -> Seq<bool> {
    s.map_values(|m: Event| m.requirement_level is None)
}

/// The types of the entities.
pub open spec fn entity_names(s: Seq<Entity>) -> Seq<Seq<char>> {
    s.map_values(|m: Entity| m.type_.0@)
}

/// Which entities have no requirement level.
pub open spec fn entity_missing(s: Seq<Entity>) -> Seq<bool> {
    s.map_values(|m: Entity| m.requirement_level is None)
}

/// The warnings of a version 2 file: signals without requirement level,
/// metrics first, then spans, events and entities.
pub open spec fn spec_v2_warnings(spec: SemConvSpecV2, path: Seq<char>) -> Seq<ErrorView> {
    spec_missing_level_warnings(metric_names(spec.metrics@), metric_missing(spec.metrics@), "metric."@, path)
        + spec_missing_level_warnings(span_names(spec.spans@), span_missing(spec.spans@), "span."@, path)
        + spec_missing_level_warnings(event_names(spec.events@), event_missing(spec.events@), "event."@, path)
        + spec_missing_level_warnings(entity_names(spec.entities@), entity_missing(spec.entities@), "entity."@, path)
}

/// Whether an attribute reference is among `identity`.
pub open spec fn ref_in(identity: Seq<AttributeRef>, r: Seq<char>) -> bool {
    exists|i: int| 0 <= i < identity.len() && identity[i].ref_@ == r
}

/// An error for each descriptive attribute that is also identifying.
pub open spec fn spec_overlap_errors(
    identity: Seq<AttributeRef>,
    description: Seq<AttributeRef>,
    gid: Seq<char>,
    path: Seq<char>,
) -> Seq<ErrorView>
    decreases description.len(),
{
    if description.len() == 0 {
        Seq::empty()
    } else {
        spec_overlap_errors(identity, description.drop_last(), gid, path) + if ref_in(
            identity,
            description.last().ref_@,
        ) {
            seq![
                ev(
                    ErrorKind::AttributeInIdentityAndDescription,
                    seq![path, gid, description.last().ref_@],
                ),
            ]
        } else {
            Seq::empty()
        }
    }
}

/// The fatal errors about entities: overlaps between identity and
/// description, then a missing identity, entity by entity.
pub open spec fn spec_entity_errors(s: Seq<Entity>, path: Seq<char>) -> Seq<ErrorView>
    decreases s.len(),
{
    if s.len() == 0 {
        Seq::empty()
    } else {
        let e = s.last();
        spec_entity_errors(s.drop_last(), path) + spec_overlap_errors(
            e.identity@,
            e.description@,
            e.type_.0@,
            path,
        ) + if e.identity@.len() == 0 {
            seq![ev(ErrorKind::EntityMissingIdentity, seq![path, e.type_.0@])]
        } else {
            Seq::empty()
        }
    }
}

/// The fatal errors about entity refinements.
pub open spec fn spec_entity_refinement_errors(s: Seq<EntityRefinement>, path: Seq<char>) -> Seq<
    ErrorView,
>
    decreases s.len(),
{
    if s.len() == 0 {
        Seq::empty()
    } else {
        let e = s.last();
        spec_entity_refinement_errors(s.drop_last(), path) + spec_overlap_errors(
            e.identity@,
            e.description@,
            e.id.0@,
            path,
        )
    }
}

/// The fatal errors of a version 2 file.
pub open spec fn spec_v2_fatal_errors(spec: SemConvSpecV2, path: Seq<char>) -> Seq<ErrorView> {
    spec_entity_errors(spec.entities@, path) + spec_entity_refinement_errors(
        spec.entity_refinements@,
        path,
    )
}

/// Appends one error.
fn push_error(errors: &mut Vec<Error>, e: Error)
    ensures
        errors_view(final(errors)@) == errors_view(old(errors)@).push(error_view(e)),
{
    proof {
        lemma_errors_view_push(errors@, e);
    }
    errors.push(e);
}

/// Whether `r` is the reference of one of `identity`.
fn ref_in_exec(identity: &Vec<AttributeRef>, r: &str) -> (b: bool)
    ensures
        b == ref_in(identity@, r@),
{
    let mut i: usize = 0;
    while i < identity.len()
        invariant
            i <= identity@.len(),
            forall|j: int| 0 <= j < i ==> identity@[j].ref_@ != r@,
        decreases identity@.len() - i,
    {
        if str_eq(identity[i].ref_.as_str(), r) {
            return true;
        }
        i = i + 1;
    }
    false
}

/// Appends an error for each descriptive attribute that is also identifying.
fn check_identity_overlap(
    errors: &mut Vec<Error>,
    identity: &Vec<AttributeRef>,
    description: &Vec<AttributeRef>,
    group_id: &str,
    path_or_url: &str,
)
    ensures
        errors_view(final(errors)@) == errors_view(old(errors)@) + spec_overlap_errors(
            identity@,
            description@,
            group_id@,
            path_or_url@,
        ),
{
    let ghost start = errors_view(errors@);
    let mut i: usize = 0;
    assert(description@.subrange(0, 0) =~= Seq::<AttributeRef>::empty());
    assert(start + Seq::<ErrorView>::empty() =~= start);
    while i < description.len()
        invariant
            i <= description@.len(),
            errors_view(errors@) == start + spec_overlap_errors(
                identity@,
                description@.subrange(0, i as int),
                group_id@,
                path_or_url@,
            ),
        decreases description@.len() - i,
    {
        proof {
            assert(description@.subrange(0, i + 1).drop_last() =~= description@.subrange(0, i as int));
        }
        let attr = &description[i];
        if ref_in_exec(identity, attr.ref_.as_str()) {
            push_error(
                errors,
                Error::AttributeInIdentityAndDescription {
                    path_or_url: String::from_str(path_or_url),
                    group_id: String::from_str(group_id),
                    attribute_id: attr.ref_.clone(),
                },
            );
        }
        proof {
            assert(errors_view(errors@) =~= start + spec_overlap_errors(
                identity@,
                description@.subrange(0, i + 1),
                group_id@,
                path_or_url@,
            ));
        }
        i = i + 1;
    }
    assert(description@.subrange(0, description@.len() as int) =~= description@);
}

/// Appends a warning for each signal without requirement level.
fn check_levels(
    errors: &mut Vec<Error>,
    names: &Vec<&str>,
    missing: &Vec<bool>,
    prefix: &str,
    path_or_url: &str,
)
    requires
        names@.len() == missing@.len(),
    ensures
        errors_view(final(errors)@) == errors_view(old(errors)@) + spec_missing_level_warnings(
            names@.map_values(|s: &str| s@),
            missing@,
            prefix@,
            path_or_url@,
        ),
{
    let ghost start = errors_view(errors@);
    let ghost nv = names@.map_values(|s: &str| s@);
    let mut i: usize = 0;
    assert(nv.subrange(0, 0) =~= Seq::<Seq<char>>::empty());
    assert(start + Seq::<ErrorView>::empty() =~= start);
    while i < names.len()
        invariant
            i <= names@.len(),
            names@.len() == missing@.len(),
            nv == names@.map_values(|s: &str| s@),
            errors_view(errors@) == start + spec_missing_level_warnings(
                nv.subrange(0, i as int),
                missing@.subrange(0, i as int),
                prefix@,
                path_or_url@,
            ),
        decreases names@.len() - i,
    {
        proof {
            assert(nv.subrange(0, i + 1).drop_last() =~= nv.subrange(0, i as int));
            assert(missing@.subrange(0, i + 1).drop_last() =~= missing@.subrange(0, i as int));
        }
        if missing[i] {
            push_error(
                errors,
                Error::MissingRequirementLevelWarning {
                    path_or_url: String::from_str(path_or_url),
                    group_id: concat2(prefix, names[i]),
                },
            );
        }
        proof {
            assert(errors_view(errors@) =~= start + spec_missing_level_warnings(
                nv.subrange(0, i + 1),
                missing@.subrange(0, i + 1),
                prefix@,
                path_or_url@,
            ));
        }
        i = i + 1;
    }
    assert(nv.subrange(0, names@.len() as int) =~= nv);
    assert(missing@.subrange(0, names@.len() as int) =~= missing@);
}

impl SemConvSpecV2 {
    /// A file with the given attributes and signals and nothing else.
    pub fn new(
        attributes: Vec<AttributeDef>,
        entities: Vec<Entity>,
        events: Vec<Event>,
        metrics: Vec<Metric>,
        spans: Vec<Span>,
    ) -> (r: Self)
        ensures
            r.attributes == attributes,
            r.entities == entities,
            r.events == events,
            r.metrics == metrics,
            r.spans == spans,
            r.attribute_groups@.len() == 0,
            r.entity_refinements@.len() == 0,
            r.event_refinements@.len() == 0,
            r.metric_refinements@.len() == 0,
            r.span_refinements@.len() == 0,
            r.imports is None,
    {
        SemConvSpecV2 {
            attributes,
            entities,
            events,
            metrics,
            spans,
            attribute_groups: Vec::new(),
            entity_refinements: Vec::new(),
            event_refinements: Vec::new(),
            metric_refinements: Vec::new(),
            span_refinements: Vec::new(),
            imports: None,
        }
    }

    /// The attribute definitions.
    pub fn attributes(&self) -> (r: &[AttributeDef])
        ensures
            r@ == self.attributes@,
    {
        self.attributes.as_slice()
    }

    /// The entities.
    pub fn entities(&self) -> (r: &[Entity])
        ensures
            r@ == self.entities@,
    {
        self.entities.as_slice()
    }

    /// The events.
    pub fn events(&self) -> (r: &[Event])
        ensures
            r@ == self.events@,
    {
        self.events.as_slice()
    }

    /// The metrics.
    pub fn metrics(&self) -> (r: &[Metric])
        ensures
            r@ == self.metrics@,
    {
        self.metrics.as_slice()
    }

    /// The spans.
    pub fn spans(&self) -> (r: &[Span])
        ensures
            r@ == self.spans@,
    {
        self.spans.as_slice()
    }

    /// True when the file defines nothing (imports aside).
    pub fn is_empty(&self) -> (r: bool)
        ensures
            r == (self.attributes@.len() == 0 && self.entities@.len() == 0 && self.events@.len()
                == 0 && self.metrics@.len() == 0 && self.spans@.len() == 0
                && self.attribute_groups@.len() == 0 && self.entity_refinements@.len() == 0
                && self.event_refinements@.len() == 0 && self.metric_refinements@.len() == 0
                && self.span_refinements@.len() == 0),
    {
        self.attributes.len() == 0 && self.entities.len() == 0 && self.events.len() == 0
            && self.metrics.len() == 0 && self.spans.len() == 0 && self.attribute_groups.len() == 0
            && self.entity_refinements.len() == 0 && self.event_refinements.len() == 0
            && self.metric_refinements.len() == 0 && self.span_refinements.len() == 0
    }

    /// Validates the file. Signals without requirement level are reported as
    /// warnings; entities whose identity is empty or overlaps their
    /// description make the validation fail with all such errors.
    pub fn validate(self, provenance: &str) -> (r: WResult<SemConvSpecV2>)
        ensures
            spec_v2_fatal_errors(self, provenance@).len() > 0 ==> (r matches WResult::FatalErr(
                Error::CompoundError(v),
            ) && errors_view(v@) == spec_v2_fatal_errors(self, provenance@)),
            spec_v2_fatal_errors(self, provenance@).len() == 0 ==> match r {
                WResult::OkValue(s) => s == self && spec_v2_warnings(self, provenance@).len() == 0,
                WResult::OkWithNFEs(s, e) => s == self && errors_view(e@) == spec_v2_warnings(
                    self,
                    provenance@,
                ) && e@.len() > 0,
                WResult::FatalErr(_) => false,
            },
    {
        let mut errors: Vec<Error> = Vec::new();
        let mut names: Vec<&str> = Vec::new();
        let mut missing: Vec<bool> = Vec::new();
        let mut i: usize = 0;
        while i < self.metrics.len()
            invariant
                i <= self.metrics@.len(),
                names@.map_values(|s: &str| s@) == metric_names(self.metrics@).subrange(0, i as int),
                missing@ == metric_missing(self.metrics@).subrange(0, i as int),
            decreases self.metrics@.len() - i,
        {
            let n = self.metrics[i].name.as_str();
            let ghost old_names = names@;
            names.push(n);
            proof {
                assert(names@.map_values(|s: &str| s@) =~= old_names.map_values(|s: &str| s@).push(n@));
            }
            missing.push(self.metrics[i].requirement_level.is_none());
            proof {
                assert(names@.map_values(|s: &str| s@) =~= metric_names(self.metrics@).subrange(0, i + 1));
                assert(missing@ =~= metric_missing(self.metrics@).subrange(0, i + 1));
            }
            i = i + 1;
        }
        proof {
            assert(metric_names(self.metrics@).subrange(0, i as int) =~= metric_names(self.metrics@));
            assert(metric_missing(self.metrics@).subrange(0, i as int) =~= metric_missing(self.metrics@));
        }
        check_levels(&mut errors, &names, &missing, "metric.", provenance);
        let mut names: Vec<&str> = Vec::new();
        let mut missing: Vec<bool> = Vec::new();
        let mut i: usize = 0;
        while i < self.spans.len()
            invariant
                i <= self.spans@.len(),
                names@.map_values(|s: &str| s@) == span_names(self.spans@).subrange(0, i as int),
                missing@ == span_missing(self.spans@).subrange(0, i as int),
            decreases self.spans@.len() - i,
        {
            let n = self.spans[i].type_.as_str();
            let ghost old_names = names@;
            names.push(n);
            proof {
                assert(names@.map_values(|s: &str| s@) =~= old_names.map_values(|s: &str| s@).push(n@));
            }
            missing.push(self.spans[i].requirement_level.is_none());
            proof {
                assert(names@.map_values(|s: &str| s@) =~= span_names(self.spans@).subrange(0, i + 1));
                assert(missing@ =~= span_missing(self.spans@).subrange(0, i + 1));
            }
            i = i + 1;
        }
        proof {
            assert(span_names(self.spans@).subrange(0, i as int) =~= span_names(self.spans@));
            assert(span_missing(self.spans@).subrange(0, i as int) =~= span_missing(self.spans@));
        }
        check_levels(&mut errors, &names, &missing, "span.", provenance);
        let mut names: Vec<&str> = Vec::new();
        let mut missing: Vec<bool> = Vec::new();
        let mut i: usize = 0;
        while i < self.events.len()
            invariant
                i <= self.events@.len(),
                names@.map_values(|s: &str| s@) == event_names(self.events@).subrange(0, i as int),
                missing@ == event_missing(self.events@).subrange(0, i as int),
            decreases self.events@.len() - i,
        {
            let n = self.events[i].name.as_str();
            let ghost old_names = names@;
            names.push(n);
            proof {
                assert(names@.map_values(|s: &str| s@) =~= old_names.map_values(|s: &str| s@).push(n@));
            }
            missing.push(self.events[i].requirement_level.is_none());
            proof {
                assert(names@.map_values(|s: &str| s@) =~= event_names(self.events@).subrange(0, i + 1));
                assert(missing@ =~= event_missing(self.events@).subrange(0, i + 1));
            }
            i = i + 1;
        }
        proof {
            assert(event_names(self.events@).subrange(0, i as int) =~= event_names(self.events@));
            assert(event_missing(self.events@).subrange(0, i as int) =~= event_missing(self.events@));
        }
        check_levels(&mut errors, &names, &missing, "event.", provenance);
        let mut names: Vec<&str> = Vec::new();
        let mut missing: Vec<bool> = Vec::new();
        let mut i: usize = 0;
        while i < self.entities.len()
            invariant
                i <= self.entities@.len(),
                names@.map_values(|s: &str| s@) == entity_names(self.entities@).subrange(0, i as int),
                missing@ == entity_missing(self.entities@).subrange(0, i as int),
            decreases self.entities@.len() - i,
        {
            let n = self.entities[i].type_.as_str();
            let ghost old_names = names@;
            names.push(n);
            proof {
                assert(names@.map_values(|s: &str| s@) =~= old_names.map_values(|s: &str| s@).push(n@));
            }
            missing.push(self.entities[i].requirement_level.is_none());
            proof {
                assert(names@.map_values(|s: &str| s@) =~= entity_names(self.entities@).subrange(0, i + 1));
                assert(missing@ =~= entity_missing(self.entities@).subrange(0, i + 1));
            }
            i = i + 1;
        }
        proof {
            assert(entity_names(self.entities@).subrange(0, i as int) =~= entity_names(self.entities@));
            assert(entity_missing(self.entities@).subrange(0, i as int) =~= entity_missing(self.entities@));
        }
        check_levels(&mut errors, &names, &missing, "entity.", provenance);
        assert(errors_view(errors@) =~= spec_v2_warnings(self, provenance@));
        let fatal = self.fatal_errors(provenance);
        if fatal.len() > 0 {
            return WResult::FatalErr(Error::CompoundError(fatal));
        }
        proof {
            crate::error::lemma_errors_view_len(errors@);
        }
        WResult::with_non_fatal_errors(self, errors)
    }

    /// The fatal errors about entities and entity refinements.
    fn fatal_errors(&self, provenance: &str) -> (r: Vec<Error>)
        ensures
            errors_view(r@) == spec_v2_fatal_errors(*self, provenance@),
    {
        let mut fatal: Vec<Error> = Vec::new();
        let mut i: usize = 0;
        assert(self.entities@.subrange(0, 0) =~= Seq::<Entity>::empty());
        assert(errors_view(fatal@) =~= Seq::<ErrorView>::empty());
        while i < self.entities.len()
            invariant
                i <= self.entities@.len(),
                errors_view(fatal@) == spec_entity_errors(self.entities@.subrange(0, i as int), provenance@),
            decreases self.entities@.len() - i,
        {
            proof {
                assert(self.entities@.subrange(0, i + 1).drop_last() =~= self.entities@.subrange(0, i as int));
            }
            let e = &self.entities[i];
            let ghost before = errors_view(fatal@);
            check_identity_overlap(&mut fatal, &e.identity, &e.description, e.type_.as_str(), provenance);
            let ghost mid = errors_view(fatal@);
            if e.identity.len() == 0 {
                push_error(
                    &mut fatal,
                    Error::EntityMissingIdentity {
                        path_or_url: String::from_str(provenance),
                        group_id: e.type_.0.clone(),
                    },
                );
            }
            proof {
                if e.identity@.len() != 0 {
                    assert(mid + Seq::<ErrorView>::empty() =~= mid);
                }
                assert(errors_view(fatal@) =~= spec_entity_errors(self.entities@.subrange(0, i + 1), provenance@));
            }
            i = i + 1;
        }
        assert(self.entities@.subrange(0, i as int) =~= self.entities@);
        let ghost s1 = errors_view(fatal@);
        let mut i: usize = 0;
        assert(self.entity_refinements@.subrange(0, 0) =~= Seq::<EntityRefinement>::empty());
        assert(s1 + Seq::<ErrorView>::empty() =~= s1);
        while i < self.entity_refinements.len()
            invariant
                i <= self.entity_refinements@.len(),
                errors_view(fatal@) == s1 + spec_entity_refinement_errors(
                    self.entity_refinements@.subrange(0, i as int),
                    provenance@,
                ),
            decreases self.entity_refinements@.len() - i,
        {
            proof {
                assert(self.entity_refinements@.subrange(0, i + 1).drop_last()
                    =~= self.entity_refinements@.subrange(0, i as int));
            }
            let e = &self.entity_refinements[i];
            check_identity_overlap(&mut fatal, &e.identity, &e.description, e.id.as_str(), provenance);
            proof {
                assert(errors_view(fatal@) =~= s1 + spec_entity_refinement_errors(
                    self.entity_refinements@.subrange(0, i + 1),
                    provenance@,
                ));
            }
            i = i + 1;
        }
        assert(self.entity_refinements@.subrange(0, i as int) =~= self.entity_refinements@);
        fatal
    }
}
} // verus!
