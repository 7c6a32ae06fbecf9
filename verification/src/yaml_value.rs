//! Annotation values and numbers that the model carries without interpreting.

use vstd::prelude::*;

verus! {

/// A YAML value attached to a definition as an annotation, kept in its YAML
/// text form, the entries of each mapping in it written in the order of the
/// text of their keys: values that are equal as YAML (where the order of
/// the entries of a mapping does not count) then have equal text, hence
/// compare and hash alike.
#[derive(Clone, Debug, PartialEq, Eq, Hash)]
pub struct YamlValue {
    /// The YAML text of the value.
    pub yaml: String,
}

/// The annotations of a definition: keys with their values, as read from a
/// map (each key once, in ascending order); the library carries them
/// without reading the keys.
pub type Annotations = Vec<(String, YamlValue)>;

/// A double precision number, held by its IEEE 754 bit pattern so that it can
/// be compared and hashed.
#[derive(Clone, Copy, Debug, PartialEq, Eq, Structural, Hash)]
pub struct F64Bits(pub u64);

} // verus!
