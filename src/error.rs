use vstd::prelude::*;
use crate::vertex_layout::AttributeSemantic;

verus! {

/// Errors returned by the renderer's fallible constructors.
#[derive(Debug, Clone, PartialEq, Eq)]
pub enum RendererError {
    /// The selected target or features have no backend available.
    NoAvailableBackend,
    /// The backend could not create a valid context.
    FailedToCreateContext { error: String },
    /// A size did not fit the representation the backend needs.
    ConversionError { error: String },
    /// A handle reached no resource.
    ResourceNotFound { resource: String },
    /// A vertex attribute's location is at or above the backend's attribute count.
    AttributeLocationOverMax { location: u8, max: u8, semantic: AttributeSemantic },
    /// No vertex-input location is assigned to the attribute's semantic.
    AttributeHasNoLocation { semantic: AttributeSemantic },
    /// The backend's shader compiler rejected a source; carries its log.
    FailedToCompileShader { error: String },
    /// The backend could not link a program; carries its log.
    FailedToLinkProgram { error: String },
}

} // verus!
