//! The component a release belongs to: a managed project or an
//! externally built artifact tracked only by metadata.

use vstd::prelude::*;

verus! {

/// An externally built component, tracked by metadata alone.
#[derive(Debug, Clone, PartialEq)]
pub struct Unmanaged {
    pub id: String,
    pub name: String,
    pub repository_url: Option<String>,
    pub package_url: Option<String>,
    pub metadata: Vec<(String, String)>,
}

/// A managed multi-component project.
#[derive(Debug, Clone, PartialEq)]
pub struct Project {
    pub id: String,
    pub name: String,
    pub repository_url: Option<String>,
    pub owner: Option<String>,
    pub components: Vec<String>,
}

/// The component under release: a managed project or an unmanaged
/// artifact.
#[derive(Debug, Clone, PartialEq)]
pub enum SDLCComponent {
    Project(Project),
    Unmanaged(Unmanaged),
}

impl SDLCComponent {
    /// The name of the underlying component.
    pub open spec fn spec_name(&self) -> Seq<char> {
        match self {
            SDLCComponent::Project(p) => p.name@,
            SDLCComponent::Unmanaged(u) => u.name@,
        }
    }

    /// The name of the underlying component.
    pub fn name(&self) -> (r: &str)
        ensures
            r@ == self.spec_name(),
    {
        match self {
            SDLCComponent::Project(p) => p.name.as_str(),
            SDLCComponent::Unmanaged(u) => u.name.as_str(),
        }
    }
}

} // verus!
