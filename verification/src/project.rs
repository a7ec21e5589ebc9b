//! Projects: named categories that checkpoints can reference.

use vstd::prelude::*;

verus! {

/// A reference to a project: either an explicit "no project" marker or the
/// numeric id of a registered project.
#[derive(Clone, Copy, Debug, PartialEq, Eq, Structural)]
pub enum ProjectId {
    NoId,
    Id(u16),
}

/// A named category for checkpoints. The short name is a unique key across
/// the registry; the long name is free text for display.
#[derive(Clone, Debug)]
pub struct Project {
    pub long_name: String,
    pub short_name: String,
}

/// The mathematical value of a [`Project`]: its two names as character
/// sequences.
#[verifier::ext_equal]
pub ghost struct ProjectView {
    pub long_name: Seq<char>,
    pub short_name: Seq<char>,
}

impl View for Project {
    type V = ProjectView;

    open spec fn view(&self) -> ProjectView {
        ProjectView { long_name: self.long_name@, short_name: self.short_name@ }
    }
}

} // verus!
