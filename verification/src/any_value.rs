//! Specification of values of any type (event bodies and their fields).

use vstd::prelude::*;
use crate::attribute::{BasicRequirementLevelSpec, EnumEntriesSpec, Examples, RequirementLevel};
use crate::stability::Stability;
use crate::text::{concat3, push_str};

verus! {

/// The properties shared by every kind of any-value.
#[derive(Clone, Debug, PartialEq, Eq, Hash)]
pub struct AnyValueCommonSpec {
    /// The identifier of the value.
    pub id: String,
    /// A brief description of the value.
    pub brief: String,
    /// A longer description of the value.
    pub note: String,
    /// The stability of the value.
    pub stability: Option<Stability>,
    /// Examples for the value.
    pub examples: Option<Examples>,
    /// Whether the value is required.
    pub requirement_level: RequirementLevel,
    /// Why the value is deprecated, if it is.
    pub deprecated: Option<String>,
}

/// A value that can be of any type.
#[derive(Debug, PartialEq, Eq, Hash)]
pub enum AnyValueSpec {
    /// A boolean.
    Boolean { common: AnyValueCommonSpec },
    /// A signed 64 bit integer.
    Int { common: AnyValueCommonSpec },
    /// A double.
    Double { common: AnyValueCommonSpec },
    /// A string.
    String { common: AnyValueCommonSpec },
    /// An array of strings.
    Strings { common: AnyValueCommonSpec },
    /// An array of integers.
    Ints { common: AnyValueCommonSpec },
    /// An array of doubles.
    Doubles { common: AnyValueCommonSpec },
    /// An array of booleans.
    Booleans { common: AnyValueCommonSpec },
    /// A map whose entries are described by `fields`.
    Mapping { common: AnyValueCommonSpec, fields: Vec<AnyValueSpec> },
    /// Bytes.
    Bytes { common: AnyValueCommonSpec },
    /// A value whose type is not specified.
    Undefined { common: AnyValueCommonSpec },
    /// An enum.
    Enum {
        common: AnyValueCommonSpec,
        /// Whether values other than the members are accepted.
        allow_custom_values: bool,
        /// The members of the enum.
        members: Vec<EnumEntriesSpec>,
    },
}

/// The common properties of an any-value.
pub open spec fn spec_common(v: AnyValueSpec) -> AnyValueCommonSpec {
    match v {
        AnyValueSpec::Boolean { common } => common,
        AnyValueSpec::Int { common } => common,
        AnyValueSpec::Double { common } => common,
        AnyValueSpec::String { common } => common,
        AnyValueSpec::Strings { common } => common,
        AnyValueSpec::Ints { common } => common,
        AnyValueSpec::Doubles { common } => common,
        AnyValueSpec::Booleans { common } => common,
        AnyValueSpec::Mapping { common, .. } => common,
        AnyValueSpec::Bytes { common } => common,
        AnyValueSpec::Undefined { common } => common,
        AnyValueSpec::Enum { common, .. } => common,
    }
}

/// The identifier of an any-value.
pub open spec fn spec_any_value_id(v: AnyValueSpec) -> Seq<char> {
    spec_common(v).id@
}

/// The human readable form of an any-value type.
pub open spec fn spec_any_value_display(v: AnyValueSpec) -> Seq<char>
    decreases v,
{
    match v {
        AnyValueSpec::Mapping { common, fields } => "map<"@ + common.id@ + ">{ "@
            + spec_join_displays(fields@) + " }"@,
        AnyValueSpec::Boolean { .. } => "boolean"@,
        AnyValueSpec::Int { .. } => "int"@,
        AnyValueSpec::Double { .. } => "double"@,
        AnyValueSpec::String { .. } => "string"@,
        AnyValueSpec::Strings { .. } => "string[]"@,
        AnyValueSpec::Ints { .. } => "int[]"@,
        AnyValueSpec::Doubles { .. } => "double[]"@,
        AnyValueSpec::Booleans { .. } => "boolean[]"@,
        AnyValueSpec::Bytes { .. } => "byte[]"@,
        AnyValueSpec::Undefined { .. } => "undefined"@,
        AnyValueSpec::Enum { common, .. } => "enum<"@ + common.id@ + ">"@,
    }
}

/// The human readable forms of a sequence of any-values joined by `", "`.
pub open spec fn spec_join_displays(s: Seq<AnyValueSpec>) -> Seq<char>
    decreases s,
{
    if s.len() == 0 {
        Seq::empty()
    } else if s.len() == 1 {
        spec_any_value_display(s[0])
    } else {
        spec_join_displays(s.drop_last()) + ", "@ + spec_any_value_display(s.last())
    }
}

impl AnyValueSpec {
    /// Returns the common properties of this value.
    pub fn common(&self) -> (c: &AnyValueCommonSpec)
        ensures
            *c == spec_common(*self),
    {
        match self {
            AnyValueSpec::Boolean { common } => common,
            AnyValueSpec::Int { common } => common,
            AnyValueSpec::Double { common } => common,
            AnyValueSpec::String { common } => common,
            AnyValueSpec::Strings { common } => common,
            AnyValueSpec::Ints { common } => common,
            AnyValueSpec::Doubles { common } => common,
            AnyValueSpec::Booleans { common } => common,
            AnyValueSpec::Mapping { common, .. } => common,
            AnyValueSpec::Bytes { common } => common,
            AnyValueSpec::Undefined { common } => common,
            AnyValueSpec::Enum { common, .. } => common,
        }
    }

    /// Returns true if the value is required.
    pub fn is_required(&self) -> (r: bool)
        ensures
            r == (spec_common(*self).requirement_level matches RequirementLevel::Basic(
                BasicRequirementLevelSpec::Required,
            )),
    {
        match &self.common().requirement_level {
            RequirementLevel::Basic(BasicRequirementLevelSpec::Required) => true,
            _ => false,
        }
    }

    /// Returns the identifier of the value.
    pub fn id(&self) -> (s: String)
        ensures
            s@ == spec_any_value_id(*self),
    {
        self.common().id.clone()
    }

    /// Returns the brief description of the value.
    pub fn brief(&self) -> (s: String)
        ensures
            s@ == spec_common(*self).brief@,
    {
        self.common().brief.clone()
    }

    /// Returns the note of the value.
    pub fn note(&self) -> (s: String)
        ensures
            s@ == spec_common(*self).note@,
    {
        self.common().note.clone()
    }

    /// Returns the human readable form of the value type.
    pub fn to_string(&self) -> (s: String)
        ensures
            s@ == spec_any_value_display(*self),
        decreases self,
    {
        match self {
            AnyValueSpec::Mapping { common, fields } => {
                let mut s = concat3("map<", common.id.as_str(), ">{ ");
                let inner = join_displays(fields);
                push_str(&mut s, inner.as_str());
                push_str(&mut s, " }");
                s
            },
            AnyValueSpec::Boolean { .. } => String::from_str("boolean"),
            AnyValueSpec::Int { .. } => String::from_str("int"),
            AnyValueSpec::Double { .. } => String::from_str("double"),
            AnyValueSpec::String { .. } => String::from_str("string"),
            AnyValueSpec::Strings { .. } => String::from_str("string[]"),
            AnyValueSpec::Ints { .. } => String::from_str("int[]"),
            AnyValueSpec::Doubles { .. } => String::from_str("double[]"),
            AnyValueSpec::Booleans { .. } => String::from_str("boolean[]"),
            AnyValueSpec::Bytes { .. } => String::from_str("byte[]"),
            AnyValueSpec::Undefined { .. } => String::from_str("undefined"),
            AnyValueSpec::Enum { common, .. } => concat3("enum<", common.id.as_str(), ">"),
        }
    }
}

/// Joins the human readable forms of the fields with `", "`.
fn join_displays(fields: &Vec<AnyValueSpec>) -> (s: String)
    ensures
        s@ == spec_join_displays(fields@),
    decreases fields,
{
    let mut s = String::new();
    let mut i: usize = 0;
    while i < fields.len()
        invariant
            i <= fields@.len(),
            s@ == spec_join_displays(fields@.subrange(0, i as int)),
        decreases fields@.len() - i,
    {
        proof {
            reveal_strlit(", ");
            assert(fields@.subrange(0, i + 1).drop_last() =~= fields@.subrange(0, i as int));
            assert(decreases_to!(fields => fields@));
            assert(decreases_to!(fields@ => fields@[i as int]));
        }
        if i > 0 {
            s.append(", ");
        }
        let d = fields[i].to_string();
        s.append(d.as_str());
        i = i + 1;
    }
    assert(fields@.subrange(0, fields@.len() as int) =~= fields@);
    s
}

/// The value of `allow_custom_values` when it is not given: custom values
/// are allowed.
pub fn default_as_true() -> (r: bool)
    ensures
        r,
{
    true
}

} // verus!
