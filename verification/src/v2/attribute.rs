//! Attribute definitions and references (version 2).

use vstd::prelude::*;
use crate::deprecated::Deprecated;
use crate::stability::Stability;
use crate::text::concat3;
use crate::v2::signal_id::SignalId;
use crate::v2::CommonFields;
use crate::yaml_value::{Annotations, F64Bits};

verus! {

/// Primitive or array types.
#[derive(Clone, Copy, Debug, PartialEq, Eq, Structural, Hash)]
pub enum PrimitiveOrArrayTypeSpec {
    /// A boolean.
    Boolean,
    /// A signed 64 bit integer.
    Int,
    /// A double.
    Double,
    /// A string.
    String,
    /// Any type.
    Any,
    /// An array of strings.
    Strings,
    /// An array of integers.
    Ints,
    /// An array of doubles.
    Doubles,
    /// An array of booleans.
    Booleans,
}

impl PrimitiveOrArrayTypeSpec {
    /// The name of a type.
    pub open spec fn spec_name(self) -> Seq<char> {
        match self {
            PrimitiveOrArrayTypeSpec::Boolean => "boolean"@,
            PrimitiveOrArrayTypeSpec::Int => "int"@,
            PrimitiveOrArrayTypeSpec::Double => "double"@,
            PrimitiveOrArrayTypeSpec::String => "string"@,
            PrimitiveOrArrayTypeSpec::Strings => "string[]"@,
            PrimitiveOrArrayTypeSpec::Ints => "int[]"@,
            PrimitiveOrArrayTypeSpec::Doubles => "double[]"@,
            PrimitiveOrArrayTypeSpec::Booleans => "boolean[]"@,
            PrimitiveOrArrayTypeSpec::Any => "any"@,
        }
    }

    /// Returns the name of this type.
    pub fn to_string(&self) -> (s: String)
        ensures
            s@ == self.spec_name(),
    {
        match self {
            PrimitiveOrArrayTypeSpec::Boolean => String::from_str("boolean"),
            PrimitiveOrArrayTypeSpec::Int => String::from_str("int"),
            PrimitiveOrArrayTypeSpec::Double => String::from_str("double"),
            PrimitiveOrArrayTypeSpec::String => String::from_str("string"),
            PrimitiveOrArrayTypeSpec::Strings => String::from_str("string[]"),
            PrimitiveOrArrayTypeSpec::Ints => String::from_str("int[]"),
            PrimitiveOrArrayTypeSpec::Doubles => String::from_str("double[]"),
            PrimitiveOrArrayTypeSpec::Booleans => String::from_str("boolean[]"),
            PrimitiveOrArrayTypeSpec::Any => String::from_str("any"),
        }
    }
}

/// Template types.
#[derive(Clone, Copy, Debug, PartialEq, Eq, Structural, Hash)]
pub enum TemplateTypeSpec {
    /// A boolean template.
    Boolean,
    /// An integer template.
    Int,
    /// A double template.
    Double,
    /// A string template.
    String,
    /// A template of any type.
    Any,
    /// A string array template.
    Strings,
    /// An integer array template.
    Ints,
    /// A double array template.
    Doubles,
    /// A boolean array template.
    Booleans,
}

impl TemplateTypeSpec {
    /// The name of a template type.
    pub open spec fn spec_name(self) -> Seq<char> {
        match self {
            TemplateTypeSpec::Boolean => "template[boolean]"@,
            TemplateTypeSpec::Int => "template[int]"@,
            TemplateTypeSpec::Double => "template[double]"@,
            TemplateTypeSpec::String => "template[string]"@,
            TemplateTypeSpec::Any => "template[any]"@,
            TemplateTypeSpec::Strings => "template[string[]]"@,
            TemplateTypeSpec::Ints => "template[int[]]"@,
            TemplateTypeSpec::Doubles => "template[double[]]"@,
            TemplateTypeSpec::Booleans => "template[boolean[]]"@,
        }
    }

    /// Returns the name of this template type.
    pub fn to_string(&self) -> (s: String)
        ensures
            s@ == self.spec_name(),
    {
        match self {
            TemplateTypeSpec::Boolean => String::from_str("template[boolean]"),
            TemplateTypeSpec::Int => String::from_str("template[int]"),
            TemplateTypeSpec::Double => String::from_str("template[double]"),
            TemplateTypeSpec::String => String::from_str("template[string]"),
            TemplateTypeSpec::Any => String::from_str("template[any]"),
            TemplateTypeSpec::Strings => String::from_str("template[string[]]"),
            TemplateTypeSpec::Ints => String::from_str("template[int[]]"),
            TemplateTypeSpec::Doubles => String::from_str("template[double[]]"),
            TemplateTypeSpec::Booleans => String::from_str("template[boolean[]]"),
        }
    }
}

/// The different types of values.
#[derive(Clone, Debug, PartialEq, Eq, Hash)]
pub enum ValueSpec {
    /// An integer value.
    Int(i64),
    /// A double value.
    Double(F64Bits),
    /// A string value.
    String(String),
    /// A boolean value.
    Bool(bool),
}

/// An enum member.
#[derive(Clone, Debug, PartialEq, Eq, Hash)]
pub struct EnumEntriesSpec {
    /// The identifier of the member.
    pub id: String,
    /// The value of the member.
    pub value: ValueSpec,
    /// A brief description.
    pub brief: Option<String>,
    /// A longer description.
    pub note: Option<String>,
    /// The stability.
    pub stability: Option<Stability>,
    /// The deprecation.
    pub deprecated: Option<Deprecated>,
    /// Annotations.
    pub annotations: Option<Annotations>,
}

impl EnumEntriesSpec {
    /// Builds a member from its fields as written in a definition file: a
    /// member without a value takes its identifier, as a string, for value.
    pub fn from_fields(
        id: String,
        value: Option<ValueSpec>,
        brief: Option<String>,
        note: Option<String>,
        stability: Option<Stability>,
        deprecated: Option<Deprecated>,
        annotations: Option<Annotations>,
    ) -> (r: EnumEntriesSpec)
        ensures
            r.id == id,
            match value {
                Some(v) => r.value == v,
                None => r.value matches ValueSpec::String(s) && s@ == id@,
            },
            r.brief == brief,
            r.note == note,
            r.stability == stability,
            r.deprecated == deprecated,
            r.annotations == annotations,
    {
        let value = match value {
            Some(v) => v,
            None => ValueSpec::String(id.clone()),
        };
        EnumEntriesSpec { id, value, brief, note, stability, deprecated, annotations }
    }
}

/// The different types of attributes.
#[derive(Clone, Debug, PartialEq, Eq, Hash)]
pub enum AttributeType {
    /// A primitive or array type.
    PrimitiveOrArray(PrimitiveOrArrayTypeSpec),
    /// A template type.
    Template(TemplateTypeSpec),
    /// An enum.
    Enum {
        /// The members of the enum.
        members: Vec<EnumEntriesSpec>,
    },
}

/// The different kinds of examples.
#[derive(Clone, Debug, PartialEq, Eq, Hash)]
pub enum Examples {
    /// A boolean example.
    Bool(bool),
    /// An integer example.
    Int(i64),
    /// A double example.
    Double(F64Bits),
    /// A string example.
    String(String),
    /// An example of any type.
    Any(ValueSpec),
    /// Integer examples.
    Ints(Vec<i64>),
    /// Double examples.
    Doubles(Vec<F64Bits>),
    /// Boolean examples.
    Bools(Vec<bool>),
    /// String examples.
    Strings(Vec<String>),
    /// Examples of any type.
    Anys(Vec<ValueSpec>),
    /// Integer array examples.
    ListOfInts(Vec<Vec<i64>>),
    /// Double array examples.
    ListOfDoubles(Vec<Vec<F64Bits>>),
    /// Boolean array examples.
    ListOfBools(Vec<Vec<bool>>),
    /// String array examples.
    ListOfStrings(Vec<Vec<String>>),
}

/// The basic requirement levels.
#[derive(Clone, Copy, Debug, PartialEq, Eq, Structural, Hash)]
pub enum BasicRequirementLevelSpec {
    /// Required.
    Required,
    /// Recommended.
    Recommended,
    /// Opt-in.
    OptIn,
}

impl BasicRequirementLevelSpec {
    /// The name of a basic requirement level.
    pub open spec fn spec_name(self) -> Seq<char> {
        match self {
            BasicRequirementLevelSpec::Required => "required"@,
            BasicRequirementLevelSpec::Recommended => "recommended"@,
            BasicRequirementLevelSpec::OptIn => "opt-in"@,
        }
    }

    /// Returns the name of this level.
    pub fn to_string(&self) -> (s: String)
        ensures
            s@ == self.spec_name(),
    {
        match self {
            BasicRequirementLevelSpec::Required => String::from_str("required"),
            BasicRequirementLevelSpec::Recommended => String::from_str("recommended"),
            BasicRequirementLevelSpec::OptIn => String::from_str("opt-in"),
        }
    }
}

/// The requirement level of an attribute.
#[derive(Clone, Debug, PartialEq, Eq, Hash)]
pub enum RequirementLevel {
    /// A basic requirement level.
    Basic(BasicRequirementLevelSpec),
    /// Required under the condition described by `text`.
    ConditionallyRequired { text: String },
    /// Recommended, with a description.
    Recommended { text: String },
    /// Opt-in, with a description.
    OptIn { text: String },
}

impl RequirementLevel {
    /// Returns the human readable form of this requirement level.
    pub fn to_string(&self) -> (s: String)
        ensures
            s@ == match *self {
                RequirementLevel::Basic(b) => b.spec_name(),
                RequirementLevel::ConditionallyRequired { text } => "conditionally required (condition: "@
                    + text@ + ")"@,
                RequirementLevel::Recommended { text } => "recommended ("@ + text@ + ")"@,
                RequirementLevel::OptIn { text } => "opt in ("@ + text@ + ")"@,
            },
    {
        match self {
            RequirementLevel::Basic(b) => b.to_string(),
            RequirementLevel::ConditionallyRequired { text } => concat3(
                "conditionally required (condition: ",
                text.as_str(),
                ")",
            ),
            RequirementLevel::Recommended { text } => concat3("recommended (", text.as_str(), ")"),
            RequirementLevel::OptIn { text } => concat3("opt in (", text.as_str(), ")"),
        }
    }
}

impl Default for RequirementLevel {
    /// The default requirement level is `recommended`.
    fn default() -> (r: Self)
        ensures
            r == RequirementLevel::Basic(BasicRequirementLevelSpec::Recommended),
    {
        RequirementLevel::Basic(BasicRequirementLevelSpec::Recommended)
    }
}

/// A reference to an attribute, with local refinements.
#[derive(Clone, Debug, PartialEq)]
pub struct AttributeRef {
    /// The key of the referenced attribute.
    pub ref_: String,
    /// A brief description.
    pub brief: Option<String>,
    /// Examples.
    pub examples: Option<Examples>,
    /// The requirement level.
    pub requirement_level: Option<RequirementLevel>,
    /// A longer description.
    pub note: Option<String>,
    /// Annotations.
    pub annotations: Annotations,
}

/// The definition of an attribute.
#[derive(Clone, Debug, PartialEq)]
pub struct AttributeDef {
    /// The key of the attribute.
    pub key: String,
    /// The type of the attribute.
    pub type_: AttributeType,
    /// Examples.
    pub examples: Option<Examples>,
    /// Brief, note, stability, deprecation and annotations.
    pub common: CommonFields,
}

/// A reference to an attribute group.
#[derive(Clone, Debug, PartialEq)]
pub struct GroupRef {
    /// The id of the referenced group.
    pub ref_group: SignalId,
}

/// A reference to an attribute or to an attribute group.
#[derive(Clone, Debug, PartialEq)]
pub enum AttributeOrGroupRef {
    /// A reference to an attribute.
    Attribute(AttributeRef),
    /// A reference to a group.
    Group(GroupRef),
}

/// The attribute references of a list, in order.
pub open spec fn spec_attribute_refs(s: Seq<AttributeOrGroupRef>) -> Seq<AttributeRef>
    decreases s.len(),
{
    if s.len() == 0 {
        Seq::empty()
    } else {
        match s.last() {
            AttributeOrGroupRef::Attribute(a) => spec_attribute_refs(s.drop_last()).push(a),
            AttributeOrGroupRef::Group(_) => spec_attribute_refs(s.drop_last()),
        }
    }
}

/// The group references of a list, in order.
pub open spec fn spec_group_refs(s: Seq<AttributeOrGroupRef>) -> Seq<SignalId>
    decreases s.len(),
{
    if s.len() == 0 {
        Seq::empty()
    } else {
        match s.last() {
            AttributeOrGroupRef::Attribute(_) => spec_group_refs(s.drop_last()),
            AttributeOrGroupRef::Group(g) => spec_group_refs(s.drop_last()).push(g.ref_group),
        }
    }
}

/// Splits a list of references into the attribute references and the group
/// ids, each in their original order.
pub fn split_attributes_and_groups(attributes_and_groups: Vec<AttributeOrGroupRef>) -> (r: (
    Vec<AttributeRef>,
    Vec<SignalId>,
))
    ensures
        r.0@ == spec_attribute_refs(attributes_and_groups@),
        r.1@ == spec_group_refs(attributes_and_groups@),
{
    let mut attributes: Vec<AttributeRef> = Vec::new();
    let mut groups: Vec<SignalId> = Vec::new();
    let ghost all = attributes_and_groups@;
    let mut rest = crate::vec_util::into_reversed(attributes_and_groups);
    proof {
        assert(rest@.reverse() =~= all);
        assert(all.subrange(0, 0) + rest@.reverse() =~= all);
    }
    while rest.len() > 0
        invariant
            all.len() == attributes_and_groups@.len(),
            all == attributes_and_groups@,
            rest@.len() <= all.len(),
            all == all.subrange(0, all.len() - rest@.len()) + rest@.reverse(),
            attributes@ == spec_attribute_refs(all.subrange(0, all.len() - rest@.len())),
            groups@ == spec_group_refs(all.subrange(0, all.len() - rest@.len())),
        decreases rest.len(),
    {
        let ghost k = all.len() - rest@.len();
        let item = rest.pop().unwrap();
        proof {
            assert(all[k] == item) by {
                assert((all.subrange(0, k) + rest@.push(item).reverse())[k] == item);
            }
            assert(all.subrange(0, k + 1).drop_last() =~= all.subrange(0, k));
            assert(all =~= all.subrange(0, k + 1) + rest@.reverse()) by {
                assert(all.subrange(0, k) + rest@.push(item).reverse() =~= all.subrange(0, k + 1)
                    + rest@.reverse());
            }
        }
        match item {
            AttributeOrGroupRef::Attribute(a) => attributes.push(a),
            AttributeOrGroupRef::Group(g) => groups.push(g.ref_group),
        }
    }
    assert(all.subrange(0, all.len() as int) =~= all);
    (attributes, groups)
}

} // verus!
