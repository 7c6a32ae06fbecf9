//! Headers, footers and migration notes of generated documentation.

use vstd::prelude::*;
use crate::style::Style;

verus! {

/// A header.
#[derive(Clone, Debug, PartialEq, Eq)]
pub struct HeaderSpec {
    /// The title.
    pub title: Option<String>,
    /// The content.
    pub content: String,
    /// The style.
    pub style: Style,
}

/// A footer.
#[derive(Clone, Debug, PartialEq, Eq)]
pub struct FooterSpec {
    /// The title.
    pub title: Option<String>,
    /// The content.
    pub content: String,
    /// The style, if any.
    pub style: Option<Style>,
}

/// A migration note.
#[derive(Clone, Debug, PartialEq, Eq)]
pub struct MigrationSpec {
    /// A brief description.
    pub brief: Option<String>,
    /// A longer description.
    pub note: Option<String>,
    /// What to migrate to.
    pub target: String,
}

impl HeaderSpec {
    /// The title of the header.
    pub fn title(&self) -> (r: &Option<String>)
        ensures
            r == &self.title,
    {
        &self.title
    }

    /// The content of the header.
    pub fn content(&self) -> (r: &String)
        ensures
            r == &self.content,
    {
        &self.content
    }

    /// The style of the header.
    pub fn style(&self) -> (r: &Style)
        ensures
            r == &self.style,
    {
        &self.style
    }
}

impl FooterSpec {
    /// The title of the footer.
    pub fn title(&self) -> (r: &Option<String>)
        ensures
            r == &self.title,
    {
        &self.title
    }

    /// The content of the footer.
    pub fn content(&self) -> (r: &String)
        ensures
            r == &self.content,
    {
        &self.content
    }

    /// The style of the footer.
    pub fn style(&self) -> (r: &Option<Style>)
        ensures
            r == &self.style,
    {
        &self.style
    }
}

impl MigrationSpec {
    /// The brief description of the migration.
    pub fn brief(&self) -> (r: &Option<String>)
        ensures
            r == &self.brief,
    {
        &self.brief
    }

    /// The longer description of the migration.
    pub fn note(&self) -> (r: &Option<String>)
        ensures
            r == &self.note,
    {
        &self.note
    }

    /// What to migrate to.
    pub fn target(&self) -> (r: &String)
        ensures
            r == &self.target,
    {
        &self.target
    }
}

} // verus!
