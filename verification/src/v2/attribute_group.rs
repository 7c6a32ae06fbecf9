//! Attribute groups (version 2).

use vstd::prelude::*;
use crate::v2::attribute::AttributeOrGroupRef;
use crate::v2::signal_id::SignalId;
use crate::v2::CommonFields;

verus! {

/// An attribute group that is only used inside the registry.
#[derive(Debug, PartialEq)]
pub struct InternalAttributeGroup {
    /// The identifier of the group.
    pub id: SignalId,
    /// The attributes and groups it contains.
    pub attributes: Vec<AttributeOrGroupRef>,
}

/// An attribute group that is published.
#[derive(Debug, PartialEq)]
pub struct PublicAttributeGroup {
    /// The identifier of the group.
    pub id: SignalId,
    /// The attributes and groups it contains.
    pub attributes: Vec<AttributeOrGroupRef>,
    /// Brief, note, stability, deprecation and annotations.
    pub common: CommonFields,
}

/// An attribute group, internal or public.
#[derive(Debug, PartialEq)]
pub enum AttributeGroup {
    /// An internal group.
    Internal(InternalAttributeGroup),
    /// A public group.
    Public(PublicAttributeGroup),
}

/// The visibility of an attribute group.
#[derive(Clone, Copy, Debug, PartialEq, Eq, Structural, Hash)]
pub enum AttributeGroupVisibilitySpec {
    /// Only used inside the registry.
    Internal,
    /// Published.
    Public,
}

impl AttributeGroupVisibilitySpec {
    /// The name of a visibility.
    pub open spec fn spec_name(self) -> Seq<char> {
        match self {
            AttributeGroupVisibilitySpec::Internal => "internal"@,
            AttributeGroupVisibilitySpec::Public => "public"@,
        }
    }

    /// Returns the name of this visibility.
    pub fn to_string(&self) -> (s: String)
        ensures
            s@ == self.spec_name(),
    {
        match self {
            AttributeGroupVisibilitySpec::Internal => String::from_str("internal"),
            AttributeGroupVisibilitySpec::Public => String::from_str("public"),
        }
    }
}

impl Default for AttributeGroupVisibilitySpec {
    /// The default visibility is `Internal`.
    fn default() -> (r: Self)
        ensures
            r == AttributeGroupVisibilitySpec::Internal,
    {
        AttributeGroupVisibilitySpec::Internal
    }
}

} // verus!
