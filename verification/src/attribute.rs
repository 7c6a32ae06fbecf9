//! Attribute specification.

use vstd::prelude::*;
use crate::any_value::{AnyValueSpec, spec_any_value_display, spec_any_value_id};
use crate::deprecated::Deprecated;
use crate::error::{Error, ErrorKind, ErrorView, WResult, ev};
use crate::stability::Stability;
use crate::text::{concat3, push_str};
use crate::yaml_value::{Annotations, F64Bits};

verus! {

/// Primitive or array types.
#[derive(Clone, Copy, Debug, PartialEq, Eq, Structural, Hash)]
pub enum PrimitiveOrArrayTypeSpec {
    /// A boolean attribute.
    Boolean,
    /// A signed 64 bit integer attribute.
    Int,
    /// A double precision floating point attribute.
    Double,
    /// A string attribute.
    String,
    /// An attribute of any type.
    Any,
    /// An array of strings.
    Strings,
    /// An array of integers.
    Ints,
    /// An array of doubles.
    Doubles,
    /// An array of booleans.
    Booleans,
}

impl PrimitiveOrArrayTypeSpec {
    /// The name of a primitive or array type.
    pub open spec fn spec_name(self) -> Seq<char> {
        match self {
            PrimitiveOrArrayTypeSpec::Boolean => "boolean"@,
            PrimitiveOrArrayTypeSpec::Int => "int"@,
            PrimitiveOrArrayTypeSpec::Double => "double"@,
            PrimitiveOrArrayTypeSpec::String => "string"@,
            PrimitiveOrArrayTypeSpec::Strings => "string[]"@,
            PrimitiveOrArrayTypeSpec::Ints => "int[]"@,
            PrimitiveOrArrayTypeSpec::Doubles => "double[]"@,
            PrimitiveOrArrayTypeSpec::Booleans => "boolean[]"@,
            PrimitiveOrArrayTypeSpec::Any => "any"@,
        }
    }

    /// Returns the name of this type.
    pub fn to_string(&self) -> (s: String)
        ensures
            s@ == self.spec_name(),
    {
        match self {
            PrimitiveOrArrayTypeSpec::Boolean => String::from_str("boolean"),
            PrimitiveOrArrayTypeSpec::Int => String::from_str("int"),
            PrimitiveOrArrayTypeSpec::Double => String::from_str("double"),
            PrimitiveOrArrayTypeSpec::String => String::from_str("string"),
            PrimitiveOrArrayTypeSpec::Strings => String::from_str("string[]"),
            PrimitiveOrArrayTypeSpec::Ints => String::from_str("int[]"),
            PrimitiveOrArrayTypeSpec::Doubles => String::from_str("double[]"),
            PrimitiveOrArrayTypeSpec::Booleans => String::from_str("boolean[]"),
            PrimitiveOrArrayTypeSpec::Any => String::from_str("any"),
        }
    }

    /// `any` is compatible with every type, other types only with themselves.
    pub open spec fn spec_is_compatible(self, other: PrimitiveOrArrayTypeSpec) -> bool {
        self == PrimitiveOrArrayTypeSpec::Any || other == PrimitiveOrArrayTypeSpec::Any || self
            == other
    }

    /// Returns true if this type is compatible with the other one: `any` is
    /// compatible with every type, other types only with themselves.
    pub fn is_compatible(&self, other: &PrimitiveOrArrayTypeSpec) -> (r: bool)
        ensures
            r == self.spec_is_compatible(*other),
    {
        match (self, other) {
            (PrimitiveOrArrayTypeSpec::Any, _) => true,
            (_, PrimitiveOrArrayTypeSpec::Any) => true,
            _ => *self == *other,
        }
    }
}

/// Template types.
#[derive(Clone, Copy, Debug, PartialEq, Eq, Structural, Hash)]
pub enum TemplateTypeSpec {
    /// A boolean template.
    Boolean,
    /// An integer template.
    Int,
    /// A double template.
    Double,
    /// A string template.
    String,
    /// A template of any type.
    Any,
    /// A string array template.
    Strings,
    /// An integer array template.
    Ints,
    /// A double array template.
    Doubles,
    /// A boolean array template.
    Booleans,
}

impl TemplateTypeSpec {
    /// The name of a template type.
    pub open spec fn spec_name(self) -> Seq<char> {
        match self {
            TemplateTypeSpec::Boolean => "template[boolean]"@,
            TemplateTypeSpec::Int => "template[int]"@,
            TemplateTypeSpec::Double => "template[double]"@,
            TemplateTypeSpec::String => "template[string]"@,
            TemplateTypeSpec::Any => "template[any]"@,
            TemplateTypeSpec::Strings => "template[string[]]"@,
            TemplateTypeSpec::Ints => "template[int[]]"@,
            TemplateTypeSpec::Doubles => "template[double[]]"@,
            TemplateTypeSpec::Booleans => "template[boolean[]]"@,
        }
    }

    /// Returns the name of this template type.
    pub fn to_string(&self) -> (s: String)
        ensures
            s@ == self.spec_name(),
    {
        match self {
            TemplateTypeSpec::Boolean => String::from_str("template[boolean]"),
            TemplateTypeSpec::Int => String::from_str("template[int]"),
            TemplateTypeSpec::Double => String::from_str("template[double]"),
            TemplateTypeSpec::String => String::from_str("template[string]"),
            TemplateTypeSpec::Any => String::from_str("template[any]"),
            TemplateTypeSpec::Strings => String::from_str("template[string[]]"),
            TemplateTypeSpec::Ints => String::from_str("template[int[]]"),
            TemplateTypeSpec::Doubles => String::from_str("template[double[]]"),
            TemplateTypeSpec::Booleans => String::from_str("template[boolean[]]"),
        }
    }
}

/// The roles of attributes in groups.
#[derive(Clone, Copy, Debug, PartialEq, Eq, Structural, Hash)]
pub enum AttributeRole {
    /// The attribute identifies the signal it is associated with.
    Identifying,
    /// The attribute describes the signal it is associated with.
    Descriptive,
}

impl AttributeRole {
    /// True if the role is `Identifying`.
    pub fn is_identifying(&self) -> (r: bool)
        ensures
            r == (*self == AttributeRole::Identifying),
    {
        match self {
            AttributeRole::Identifying => true,
            AttributeRole::Descriptive => false,
        }
    }
}

impl Default for AttributeRole {
    /// The default role is `Identifying`.
    fn default() -> (r: Self)
        ensures
            r == AttributeRole::Identifying,
    {
        AttributeRole::Identifying
    }
}

/// The different types of values.
#[derive(Clone, Debug, PartialEq, Eq, Hash)]
pub enum ValueSpec {
    /// An integer value.
    Int(i64),
    /// A double value.
    Double(F64Bits),
    /// A string value.
    String(String),
    /// A boolean value.
    Bool(bool),
}

/// An enum member.
#[derive(Clone, Debug, PartialEq, Eq, Hash)]
pub struct EnumEntriesSpec {
    /// The identifier of the member.
    pub id: String,
    /// The value of the member.
    pub value: ValueSpec,
    /// A brief description of the member.
    pub brief: Option<String>,
    /// A longer description of the member.
    pub note: Option<String>,
    /// The stability of the member.
    pub stability: Option<Stability>,
    /// The deprecation of the member.
    pub deprecated: Option<Deprecated>,
    /// Annotations for the member.
    pub annotations: Option<Annotations>,
}

/// The different types of attributes.
#[derive(Clone, Debug, PartialEq, Eq, Hash)]
pub enum AttributeType {
    /// A primitive or array type.
    PrimitiveOrArray(PrimitiveOrArrayTypeSpec),
    /// A template type.
    Template(TemplateTypeSpec),
    /// An enum.
    Enum {
        /// Whether values other than the members are accepted (no longer used).
        allow_custom_values: Option<bool>,
        /// The members of the enum.
        members: Vec<EnumEntriesSpec>,
    },
}

/// The identifiers of enum members joined by `", "`.
pub open spec fn spec_join_member_ids(members: Seq<EnumEntriesSpec>) -> Seq<char>
    decreases members.len(),
{
    if members.len() == 0 {
        Seq::empty()
    } else if members.len() == 1 {
        members[0].id@
    } else {
        spec_join_member_ids(members.drop_last()) + ", "@ + members.last().id@
    }
}

/// The human readable form of an attribute type.
pub open spec fn spec_attribute_type_display(t: AttributeType) -> Seq<char> {
    match t {
        AttributeType::PrimitiveOrArray(p) => p.spec_name(),
        AttributeType::Template(p) => p.spec_name(),
        AttributeType::Enum { members, .. } => "enum {"@ + spec_join_member_ids(members@) + "}"@,
    }
}

/// Joins the identifiers of enum members with `", "`.
fn join_member_ids(members: &Vec<EnumEntriesSpec>) -> (s: String)
    ensures
        s@ == spec_join_member_ids(members@),
{
    let mut s = String::new();
    let mut i: usize = 0;
    while i < members.len()
        invariant
            i <= members@.len(),
            s@ == spec_join_member_ids(members@.subrange(0, i as int)),
        decreases members@.len() - i,
    {
        proof {
            reveal_strlit(", ");
            assert(members@.subrange(0, i + 1).drop_last() =~= members@.subrange(0, i as int));
        }
        if i > 0 {
            s.append(", ");
        }
        s.append(members[i].id.as_str());
        i = i + 1;
    }
    assert(members@.subrange(0, members@.len() as int) =~= members@);
    s
}

impl AttributeType {
    /// Returns the human readable form of this attribute type.
    pub fn to_string(&self) -> (s: String)
        ensures
            s@ == spec_attribute_type_display(*self),
    {
        match self {
            AttributeType::PrimitiveOrArray(p) => p.to_string(),
            AttributeType::Template(p) => p.to_string(),
            AttributeType::Enum { members, .. } => {
                let ids = join_member_ids(members);
                concat3("enum {", ids.as_str(), "}")
            },
        }
    }
}

/// The different kinds of examples.
#[derive(Clone, Debug, PartialEq, Eq, Hash)]
pub enum Examples {
    /// A boolean example.
    Bool(bool),
    /// An integer example.
    Int(i64),
    /// A double example.
    Double(F64Bits),
    /// A string example.
    String(String),
    /// An example of any type.
    Any(ValueSpec),
    /// Integer examples.
    Ints(Vec<i64>),
    /// Double examples.
    Doubles(Vec<F64Bits>),
    /// Boolean examples.
    Bools(Vec<bool>),
    /// String examples.
    Strings(Vec<String>),
    /// Examples of any type.
    Anys(Vec<ValueSpec>),
    /// Integer array examples.
    ListOfInts(Vec<Vec<i64>>),
    /// Double array examples.
    ListOfDoubles(Vec<Vec<F64Bits>>),
    /// Boolean array examples.
    ListOfBools(Vec<Vec<bool>>),
    /// String array examples.
    ListOfStrings(Vec<Vec<String>>),
}

/// How an example fits a type.
#[derive(Clone, Copy, Debug, PartialEq, Eq, Structural)]
pub enum ExampleFit {
    /// The example fits the type.
    Fits,
    /// The example follows an older convention that is still accepted.
    Tolerated,
    /// The example does not fit the type.
    Mismatch,
}

/// How examples fit an attribute type.
pub open spec fn spec_example_fit(ex: Examples, t: AttributeType) -> ExampleFit {
    match (ex, t) {
        (_, AttributeType::PrimitiveOrArray(PrimitiveOrArrayTypeSpec::Any)) => ExampleFit::Fits,
        (_, AttributeType::Enum { .. }) => ExampleFit::Fits,
        (_, AttributeType::Template(TemplateTypeSpec::Any)) => ExampleFit::Fits,
        (Examples::Bool(_), AttributeType::PrimitiveOrArray(PrimitiveOrArrayTypeSpec::Boolean))
        | (Examples::Int(_), AttributeType::PrimitiveOrArray(PrimitiveOrArrayTypeSpec::Int))
        | (Examples::Double(_), AttributeType::PrimitiveOrArray(PrimitiveOrArrayTypeSpec::Double))
        | (Examples::String(_), AttributeType::PrimitiveOrArray(PrimitiveOrArrayTypeSpec::String))
        | (Examples::Ints(_), AttributeType::PrimitiveOrArray(PrimitiveOrArrayTypeSpec::Int))
        | (Examples::Doubles(_), AttributeType::PrimitiveOrArray(PrimitiveOrArrayTypeSpec::Double))
        | (Examples::Bools(_), AttributeType::PrimitiveOrArray(PrimitiveOrArrayTypeSpec::Boolean))
        | (Examples::Strings(_), AttributeType::PrimitiveOrArray(PrimitiveOrArrayTypeSpec::String))
        | (Examples::ListOfInts(_), AttributeType::PrimitiveOrArray(PrimitiveOrArrayTypeSpec::Ints))
        | (
            Examples::ListOfDoubles(_),
            AttributeType::PrimitiveOrArray(PrimitiveOrArrayTypeSpec::Doubles),
        )
        | (
            Examples::ListOfBools(_),
            AttributeType::PrimitiveOrArray(PrimitiveOrArrayTypeSpec::Booleans),
        )
        | (
            Examples::ListOfStrings(_),
            AttributeType::PrimitiveOrArray(PrimitiveOrArrayTypeSpec::Strings),
        ) => ExampleFit::Fits,
        (Examples::Ints(_), AttributeType::PrimitiveOrArray(PrimitiveOrArrayTypeSpec::Ints))
        | (Examples::Doubles(_), AttributeType::PrimitiveOrArray(PrimitiveOrArrayTypeSpec::Doubles))
        | (Examples::Bools(_), AttributeType::PrimitiveOrArray(PrimitiveOrArrayTypeSpec::Booleans))
        | (
            Examples::Strings(_),
            AttributeType::PrimitiveOrArray(PrimitiveOrArrayTypeSpec::Strings),
        ) => ExampleFit::Tolerated,
        (Examples::String(_), AttributeType::Template(TemplateTypeSpec::String))
        | (Examples::Int(_), AttributeType::Template(TemplateTypeSpec::Int))
        | (Examples::Double(_), AttributeType::Template(TemplateTypeSpec::Double))
        | (Examples::Bool(_), AttributeType::Template(TemplateTypeSpec::Boolean))
        | (Examples::ListOfStrings(_), AttributeType::Template(TemplateTypeSpec::Strings))
        | (Examples::ListOfInts(_), AttributeType::Template(TemplateTypeSpec::Ints))
        | (Examples::ListOfDoubles(_), AttributeType::Template(TemplateTypeSpec::Doubles))
        | (Examples::ListOfBools(_), AttributeType::Template(TemplateTypeSpec::Booleans))
        | (Examples::Strings(_), AttributeType::Template(TemplateTypeSpec::String))
        | (Examples::Ints(_), AttributeType::Template(TemplateTypeSpec::Int))
        | (Examples::Doubles(_), AttributeType::Template(TemplateTypeSpec::Double))
        | (Examples::Bools(_), AttributeType::Template(TemplateTypeSpec::Boolean)) =>
            ExampleFit::Fits,
        (Examples::String(_), AttributeType::Template(TemplateTypeSpec::Strings))
        | (Examples::Strings(_), AttributeType::Template(TemplateTypeSpec::Strings)) =>
            ExampleFit::Tolerated,
        _ => ExampleFit::Mismatch,
    }
}

/// The errors reported for examples of an attribute `attr_id` of type `t` in
/// group `group_id`.
pub open spec fn spec_examples_errors(
    ex: Examples,
    t: AttributeType,
    group_id: Seq<char>,
    attr_id: Seq<char>,
    path_or_url: Seq<char>,
) -> Seq<ErrorView> {
    match spec_example_fit(ex, t) {
        ExampleFit::Fits => Seq::empty(),
        ExampleFit::Tolerated => seq![
            ev(
                ErrorKind::InvalidExampleWarning,
                seq![
                    path_or_url,
                    group_id,
                    attr_id,
                    "All examples SHOULD be of type `"@ + spec_attribute_type_display(t) + "`"@,
                ],
            ),
        ],
        ExampleFit::Mismatch => seq![
            ev(
                ErrorKind::InvalidExampleError,
                seq![
                    path_or_url,
                    group_id,
                    attr_id,
                    "All examples MUST be of type `"@ + spec_attribute_type_display(t) + "`"@,
                ],
            ),
        ],
    }
}

/// How examples fit an any-value definition.
pub open spec fn spec_any_value_example_fit(ex: Examples, v: AnyValueSpec) -> ExampleFit {
    match (ex, v) {
        (_, AnyValueSpec::Enum { .. }) | (_, AnyValueSpec::Bytes { .. }) | (
            _,
            AnyValueSpec::Undefined { .. },
        ) => ExampleFit::Fits,
        (Examples::Bool(_), AnyValueSpec::Boolean { .. })
        | (Examples::Int(_), AnyValueSpec::Int { .. })
        | (Examples::Double(_), AnyValueSpec::Double { .. })
        | (Examples::String(_), AnyValueSpec::String { .. })
        | (Examples::String(_), AnyValueSpec::Mapping { .. })
        | (Examples::Ints(_), AnyValueSpec::Int { .. })
        | (Examples::Doubles(_), AnyValueSpec::Double { .. })
        | (Examples::Bools(_), AnyValueSpec::Boolean { .. })
        | (Examples::Strings(_), AnyValueSpec::String { .. })
        | (Examples::Strings(_), AnyValueSpec::Mapping { .. })
        | (Examples::ListOfInts(_), AnyValueSpec::Ints { .. })
        | (Examples::ListOfDoubles(_), AnyValueSpec::Doubles { .. })
        | (Examples::ListOfBools(_), AnyValueSpec::Booleans { .. })
        | (Examples::ListOfStrings(_), AnyValueSpec::Strings { .. })
        | (Examples::ListOfStrings(_), AnyValueSpec::Mapping { .. }) => ExampleFit::Fits,
        (Examples::Ints(_), AnyValueSpec::Ints { .. })
        | (Examples::Doubles(_), AnyValueSpec::Doubles { .. })
        | (Examples::Bools(_), AnyValueSpec::Booleans { .. })
        | (Examples::Strings(_), AnyValueSpec::Strings { .. }) => ExampleFit::Tolerated,
        _ => ExampleFit::Mismatch,
    }
}

/// Whether an any-value is a map.
pub open spec fn is_map_like(v: AnyValueSpec) -> bool {
    v is Mapping
}

/// The errors reported for examples of an any-value definition.
pub open spec fn spec_any_value_examples_errors(
    ex: Examples,
    v: AnyValueSpec,
    group_id: Seq<char>,
    path_or_url: Seq<char>,
) -> Seq<ErrorView> {
    let text = match spec_any_value_example_fit(ex, v) {
        ExampleFit::Fits => Seq::empty(),
        ExampleFit::Tolerated => "All examples SHOULD be of type `"@ + spec_any_value_display(v)
            + "`"@,
        ExampleFit::Mismatch => if is_map_like(v) {
            "Examples for `"@ + spec_any_value_display(v) + "` values MUST be a supported string type"@
        } else {
            "All examples MUST be of type `"@ + spec_any_value_display(v) + "`"@
        },
    };
    if spec_any_value_example_fit(ex, v) == ExampleFit::Fits {
        Seq::empty()
    } else {
        seq![
            ev(
                ErrorKind::InvalidAnyValueExampleError,
                seq![path_or_url, group_id, spec_any_value_id(v), text],
            ),
        ]
    }
}

/// The single error of a non-fatal result, if any.
pub open spec fn spec_unit_result_errors(r: WResult<()>) -> Seq<ErrorView> {
    match r {
        WResult::OkValue(_) => Seq::empty(),
        WResult::OkWithNFEs(_, errs) => crate::error::errors_view(errs@),
        WResult::FatalErr(e) => seq![e@],
    }
}

impl Examples {
    /// How these examples fit an attribute type.
    pub fn fit(&self, attr_type: &AttributeType) -> (r: ExampleFit)
        ensures
            r == spec_example_fit(*self, *attr_type),
    {
        match (self, attr_type) {
            (_, AttributeType::PrimitiveOrArray(PrimitiveOrArrayTypeSpec::Any)) => ExampleFit::Fits,
            (_, AttributeType::Enum { .. }) => ExampleFit::Fits,
            (_, AttributeType::Template(TemplateTypeSpec::Any)) => ExampleFit::Fits,
            (Examples::Bool(_), AttributeType::PrimitiveOrArray(PrimitiveOrArrayTypeSpec::Boolean))
            | (Examples::Int(_), AttributeType::PrimitiveOrArray(PrimitiveOrArrayTypeSpec::Int))
            | (
                Examples::Double(_),
                AttributeType::PrimitiveOrArray(PrimitiveOrArrayTypeSpec::Double),
            )
            | (
                Examples::String(_),
                AttributeType::PrimitiveOrArray(PrimitiveOrArrayTypeSpec::String),
            )
            | (Examples::Ints(_), AttributeType::PrimitiveOrArray(PrimitiveOrArrayTypeSpec::Int))
            | (
                Examples::Doubles(_),
                AttributeType::PrimitiveOrArray(PrimitiveOrArrayTypeSpec::Double),
            )
            | (
                Examples::Bools(_),
                AttributeType::PrimitiveOrArray(PrimitiveOrArrayTypeSpec::Boolean),
            )
            | (
                Examples::Strings(_),
                AttributeType::PrimitiveOrArray(PrimitiveOrArrayTypeSpec::String),
            )
            | (
                Examples::ListOfInts(_),
                AttributeType::PrimitiveOrArray(PrimitiveOrArrayTypeSpec::Ints),
            )
            | (
                Examples::ListOfDoubles(_),
                AttributeType::PrimitiveOrArray(PrimitiveOrArrayTypeSpec::Doubles),
            )
            | (
                Examples::ListOfBools(_),
                AttributeType::PrimitiveOrArray(PrimitiveOrArrayTypeSpec::Booleans),
            )
            | (
                Examples::ListOfStrings(_),
                AttributeType::PrimitiveOrArray(PrimitiveOrArrayTypeSpec::Strings),
            ) => ExampleFit::Fits,
            (Examples::Ints(_), AttributeType::PrimitiveOrArray(PrimitiveOrArrayTypeSpec::Ints))
            | (
                Examples::Doubles(_),
                AttributeType::PrimitiveOrArray(PrimitiveOrArrayTypeSpec::Doubles),
            )
            | (
                Examples::Bools(_),
                AttributeType::PrimitiveOrArray(PrimitiveOrArrayTypeSpec::Booleans),
            )
            | (
                Examples::Strings(_),
                AttributeType::PrimitiveOrArray(PrimitiveOrArrayTypeSpec::Strings),
            ) => ExampleFit::Tolerated,
            (Examples::String(_), AttributeType::Template(TemplateTypeSpec::String))
            | (Examples::Int(_), AttributeType::Template(TemplateTypeSpec::Int))
            | (Examples::Double(_), AttributeType::Template(TemplateTypeSpec::Double))
            | (Examples::Bool(_), AttributeType::Template(TemplateTypeSpec::Boolean))
            | (Examples::ListOfStrings(_), AttributeType::Template(TemplateTypeSpec::Strings))
            | (Examples::ListOfInts(_), AttributeType::Template(TemplateTypeSpec::Ints))
            | (Examples::ListOfDoubles(_), AttributeType::Template(TemplateTypeSpec::Doubles))
            | (Examples::ListOfBools(_), AttributeType::Template(TemplateTypeSpec::Booleans))
            | (Examples::Strings(_), AttributeType::Template(TemplateTypeSpec::String))
            | (Examples::Ints(_), AttributeType::Template(TemplateTypeSpec::Int))
            | (Examples::Doubles(_), AttributeType::Template(TemplateTypeSpec::Double))
            | (Examples::Bools(_), AttributeType::Template(TemplateTypeSpec::Boolean)) =>
                ExampleFit::Fits,
            (Examples::String(_), AttributeType::Template(TemplateTypeSpec::Strings))
            | (Examples::Strings(_), AttributeType::Template(TemplateTypeSpec::Strings)) =>
                ExampleFit::Tolerated,
            _ => ExampleFit::Mismatch,
        }
    }

    /// Checks that these examples fit the attribute type. A mismatch is
    /// reported as an error, an example following the older conventions as
    /// a warning; both are non-fatal.
    pub fn validate(
        &self,
        attr_type: &AttributeType,
        group_id: &str,
        attr_id: &str,
        path_or_url: &str,
    ) -> (r: WResult<()>)
        ensures
            r !is FatalErr,
            spec_unit_result_errors(r) == spec_examples_errors(
                *self,
                *attr_type,
                group_id@,
                attr_id@,
                path_or_url@,
            ),
            (r is OkValue) <==> spec_examples_errors(
                *self,
                *attr_type,
                group_id@,
                attr_id@,
                path_or_url@,
            ).len() == 0,
    {
        let fit = self.fit(attr_type);
        match fit {
            ExampleFit::Fits => {
                let r = WResult::OkValue(());
                r
            },
            ExampleFit::Tolerated => {
                let mut error = String::from_str("All examples SHOULD be of type `");
                let t = attr_type.to_string();
                push_str(&mut error, t.as_str());
                push_str(&mut error, "`");
                let e = Error::InvalidExampleWarning {
                    path_or_url: String::from_str(path_or_url),
                    group_id: String::from_str(group_id),
                    attribute_id: String::from_str(attr_id),
                    error,
                };
                let mut v: Vec<Error> = Vec::new();
                v.push(e);
                proof {
                    crate::error::lemma_errors_view_push(Seq::empty(), e);
                    assert(Seq::<Error>::empty().push(e) =~= v@);
                }
                WResult::OkWithNFEs((), v)
            },
            ExampleFit::Mismatch => {
                let mut error = String::from_str("All examples MUST be of type `");
                let t = attr_type.to_string();
                push_str(&mut error, t.as_str());
                push_str(&mut error, "`");
                let e = Error::InvalidExampleError {
                    path_or_url: String::from_str(path_or_url),
                    group_id: String::from_str(group_id),
                    attribute_id: String::from_str(attr_id),
                    error,
                };
                let mut v: Vec<Error> = Vec::new();
                v.push(e);
                proof {
                    crate::error::lemma_errors_view_push(Seq::empty(), e);
                    assert(Seq::<Error>::empty().push(e) =~= v@);
                }
                WResult::OkWithNFEs((), v)
            },
        }
    }
}


/// The basic requirement levels.
#[derive(Clone, Copy, Debug, PartialEq, Eq, Structural, Hash)]
pub enum BasicRequirementLevelSpec {
    /// Required.
    Required,
    /// Recommended.
    Recommended,
    /// Opt-in.
    OptIn,
}

impl BasicRequirementLevelSpec {
    /// The human readable name of a basic requirement level.
    pub open spec fn spec_name(self) -> Seq<char> {
        match self {
            BasicRequirementLevelSpec::Required => "required"@,
            BasicRequirementLevelSpec::Recommended => "recommended"@,
            BasicRequirementLevelSpec::OptIn => "opt-in"@,
        }
    }

    /// Returns the human readable name of this level.
    pub fn to_string(&self) -> (s: String)
        ensures
            s@ == self.spec_name(),
    {
        match self {
            BasicRequirementLevelSpec::Required => String::from_str("required"),
            BasicRequirementLevelSpec::Recommended => String::from_str("recommended"),
            BasicRequirementLevelSpec::OptIn => String::from_str("opt-in"),
        }
    }
}

/// The requirement level of an attribute.
#[derive(Clone, Debug, PartialEq, Eq, Hash)]
pub enum RequirementLevel {
    /// A basic requirement level.
    Basic(BasicRequirementLevelSpec),
    /// Required under the condition described by `text`.
    ConditionallyRequired { text: String },
    /// Recommended, with a description of the recommendation.
    Recommended { text: String },
    /// Opt-in, with a description.
    OptIn { text: String },
}

/// The human readable form of a requirement level.
pub open spec fn spec_requirement_level_display(r: RequirementLevel) -> Seq<char> {
    match r {
        RequirementLevel::Basic(b) => b.spec_name(),
        RequirementLevel::ConditionallyRequired { text } => "conditionally required (condition: "@
            + text@ + ")"@,
        RequirementLevel::Recommended { text } => "recommended ("@ + text@ + ")"@,
        RequirementLevel::OptIn { text } => "opt in ("@ + text@ + ")"@,
    }
}

impl RequirementLevel {
    /// Returns the human readable form of this requirement level.
    pub fn to_string(&self) -> (s: String)
        ensures
            s@ == spec_requirement_level_display(*self),
    {
        match self {
            RequirementLevel::Basic(b) => b.to_string(),
            RequirementLevel::ConditionallyRequired { text } => concat3(
                "conditionally required (condition: ",
                text.as_str(),
                ")",
            ),
            RequirementLevel::Recommended { text } => concat3("recommended (", text.as_str(), ")"),
            RequirementLevel::OptIn { text } => concat3("opt in (", text.as_str(), ")"),
        }
    }
}

impl Default for RequirementLevel {
    /// The default requirement level is `recommended`.
    fn default() -> (r: Self)
        ensures
            r == RequirementLevel::Basic(BasicRequirementLevelSpec::Recommended),
    {
        RequirementLevel::Basic(BasicRequirementLevelSpec::Recommended)
    }
}

/// A reference to an attribute, or the definition of an attribute.
#[derive(Clone, Debug, PartialEq)]
pub enum AttributeSpec {
    /// A reference to another attribute, with local refinements.
    Ref {
        /// The id of the referenced attribute.
        ref_: String,
        /// A brief description.
        brief: Option<String>,
        /// Examples.
        examples: Option<Examples>,
        /// A tag ("sub-group") for the attribute.
        tag: Option<String>,
        /// The requirement level.
        requirement_level: Option<RequirementLevel>,
        /// Whether the attribute is relevant for sampling.
        sampling_relevant: Option<bool>,
        /// A longer description.
        note: Option<String>,
        /// The stability.
        stability: Option<Stability>,
        /// The deprecation.
        deprecated: Option<Deprecated>,
        /// Whether the group prefix is added to the resolved id.
        prefix: bool,
        /// Annotations.
        annotations: Option<Annotations>,
        /// Whether the attribute is identifying or descriptive.
        role: Option<AttributeRole>,
    },
    /// The definition of an attribute.
    Id {
        /// The id of the attribute.
        id: String,
        /// The type of the attribute.
        type_: AttributeType,
        /// A brief description.
        brief: Option<String>,
        /// Examples.
        examples: Option<Examples>,
        /// A tag ("sub-group") for the attribute.
        tag: Option<String>,
        /// The requirement level.
        requirement_level: RequirementLevel,
        /// Whether the attribute is relevant for sampling.
        sampling_relevant: Option<bool>,
        /// A longer description.
        note: String,
        /// The stability.
        stability: Option<Stability>,
        /// The deprecation.
        deprecated: Option<Deprecated>,
        /// Annotations.
        annotations: Option<Annotations>,
        /// Whether the attribute is identifying or descriptive.
        role: Option<AttributeRole>,
    },
}

/// The id of an attribute: the referenced id or the defined id.
pub open spec fn spec_attribute_id(a: AttributeSpec) -> Seq<char> {
    match a {
        AttributeSpec::Ref { ref_, .. } => ref_@,
        AttributeSpec::Id { id, .. } => id@,
    }
}

/// The value of an optional string, or the empty string.
pub open spec fn opt_text(s: Option<String>) -> Seq<char> {
    match s {
        Some(x) => x@,
        None => Seq::empty(),
    }
}

impl AttributeSpec {
    /// Returns true if the attribute is required.
    pub fn is_required(&self) -> (r: bool)
        ensures
            r == match *self {
                AttributeSpec::Ref { requirement_level, .. } => requirement_level == Some(
                    RequirementLevel::Basic(BasicRequirementLevelSpec::Required),
                ),
                AttributeSpec::Id { requirement_level, .. } => requirement_level
                    == RequirementLevel::Basic(BasicRequirementLevelSpec::Required),
            },
    {
        match self {
            AttributeSpec::Ref {
                requirement_level: Some(
                    RequirementLevel::Basic(BasicRequirementLevelSpec::Required),
                ),
                ..
            } => true,
            AttributeSpec::Id {
                requirement_level: RequirementLevel::Basic(BasicRequirementLevelSpec::Required),
                ..
            } => true,
            _ => false,
        }
    }

    /// Returns the id of the attribute.
    pub fn id(&self) -> (s: String)
        ensures
            s@ == spec_attribute_id(*self),
    {
        match self {
            AttributeSpec::Ref { ref_, .. } => ref_.clone(),
            AttributeSpec::Id { id, .. } => id.clone(),
        }
    }

    /// Returns the brief description of the attribute, or an empty string.
    pub fn brief(&self) -> (s: String)
        ensures
            s@ == match *self {
                AttributeSpec::Ref { brief, .. } => opt_text(brief),
                AttributeSpec::Id { brief, .. } => opt_text(brief),
            },
    {
        let b = match self {
            AttributeSpec::Ref { brief, .. } => brief,
            AttributeSpec::Id { brief, .. } => brief,
        };
        match b {
            Some(x) => x.clone(),
            None => String::new(),
        }
    }

    /// Returns the note of the attribute, or an empty string.
    pub fn note(&self) -> (s: String)
        ensures
            s@ == match *self {
                AttributeSpec::Ref { note, .. } => opt_text(note),
                AttributeSpec::Id { note, .. } => note@,
            },
    {
        match self {
            AttributeSpec::Ref { note, .. } => match note {
                Some(x) => x.clone(),
                None => String::new(),
            },
            AttributeSpec::Id { note, .. } => note.clone(),
        }
    }

    /// Returns the tag of the attribute, if any.
    pub fn tag(&self) -> (t: Option<String>)
        ensures
            t is Some <==> (match *self {
                AttributeSpec::Ref { tag, .. } => tag is Some,
                AttributeSpec::Id { tag, .. } => tag is Some,
            }),
            t is Some ==> t->0@ == (match *self {
                AttributeSpec::Ref { tag, .. } => opt_text(tag),
                AttributeSpec::Id { tag, .. } => opt_text(tag),
            }),
    {
        match self {
            AttributeSpec::Ref { tag, .. } => crate::text::clone_opt_string(tag),
            AttributeSpec::Id { tag, .. } => crate::text::clone_opt_string(tag),
        }
    }
}

impl Examples {
    /// How these examples fit an any-value definition.
    pub fn fit_any_value(&self, any_value: &AnyValueSpec) -> (r: ExampleFit)
        ensures
            r == spec_any_value_example_fit(*self, *any_value),
    {
        match (self, any_value) {
            (_, AnyValueSpec::Enum { .. }) | (_, AnyValueSpec::Bytes { .. }) | (
                _,
                AnyValueSpec::Undefined { .. },
            ) => ExampleFit::Fits,
            (Examples::Bool(_), AnyValueSpec::Boolean { .. })
            | (Examples::Int(_), AnyValueSpec::Int { .. })
            | (Examples::Double(_), AnyValueSpec::Double { .. })
            | (Examples::String(_), AnyValueSpec::String { .. })
            | (Examples::String(_), AnyValueSpec::Mapping { .. })
            | (Examples::Ints(_), AnyValueSpec::Int { .. })
            | (Examples::Doubles(_), AnyValueSpec::Double { .. })
            | (Examples::Bools(_), AnyValueSpec::Boolean { .. })
            | (Examples::Strings(_), AnyValueSpec::String { .. })
            | (Examples::Strings(_), AnyValueSpec::Mapping { .. })
            | (Examples::ListOfInts(_), AnyValueSpec::Ints { .. })
            | (Examples::ListOfDoubles(_), AnyValueSpec::Doubles { .. })
            | (Examples::ListOfBools(_), AnyValueSpec::Booleans { .. })
            | (Examples::ListOfStrings(_), AnyValueSpec::Strings { .. })
            | (Examples::ListOfStrings(_), AnyValueSpec::Mapping { .. }) => ExampleFit::Fits,
            (Examples::Ints(_), AnyValueSpec::Ints { .. })
            | (Examples::Doubles(_), AnyValueSpec::Doubles { .. })
            | (Examples::Bools(_), AnyValueSpec::Booleans { .. })
            | (Examples::Strings(_), AnyValueSpec::Strings { .. }) => ExampleFit::Tolerated,
            _ => ExampleFit::Mismatch,
        }
    }

    /// Checks that these examples fit an any-value definition; a mismatch is
    /// reported as a non-fatal error.
    pub fn validate_any_value(
        &self,
        any_value: &AnyValueSpec,
        group_id: &str,
        path_or_url: &str,
    ) -> (r: WResult<()>)
        ensures
            r !is FatalErr,
            spec_unit_result_errors(r) == spec_any_value_examples_errors(
                *self,
                *any_value,
                group_id@,
                path_or_url@,
            ),
            (r is OkValue) <==> spec_any_value_examples_errors(
                *self,
                *any_value,
                group_id@,
                path_or_url@,
            ).len() == 0,
    {
        let fit = self.fit_any_value(any_value);
        if fit == ExampleFit::Fits {
            return WResult::OkValue(());
        }
        let display = any_value.to_string();
        let is_map = match any_value {
            AnyValueSpec::Mapping { .. } => true,
            _ => false,
        };
        let error = if fit == ExampleFit::Tolerated {
            concat3("All examples SHOULD be of type `", display.as_str(), "`")
        } else if is_map {
            concat3("Examples for `", display.as_str(), "` values MUST be a supported string type")
        } else {
            concat3("All examples MUST be of type `", display.as_str(), "`")
        };
        let e = Error::InvalidAnyValueExampleError {
            path_or_url: String::from_str(path_or_url),
            group_id: String::from_str(group_id),
            value_id: any_value.id(),
            error,
        };
        let mut v: Vec<Error> = Vec::new();
        v.push(e);
        proof {
            crate::error::lemma_errors_view_push(Seq::empty(), e);
            assert(Seq::<Error>::empty().push(e) =~= v@);
        }
        WResult::OkWithNFEs((), v)
    }
}
/// An attribute definition with the path or URL of the file it was read
/// from.
#[derive(Debug, Clone, PartialEq)]
pub struct AttributeSpecWithProvenance {
    /// The attribute definition.
    pub attribute: AttributeSpec,
    /// The path or URL of its file.
    pub provenance: String,
}

} // verus!
