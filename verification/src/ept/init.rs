//! EPT initialization orchestration.

use vstd::prelude::*;
use crate::ept::backend::EptBackend;
use crate::ept::error::{EptError, EptErrorKind};
use crate::ept::program::EptInitPlan;

verus! {

/// How strongly the configuration asks for a platform feature.
#[derive(Debug, Clone, Copy, PartialEq, Eq, Structural)]
pub enum FeatureRequirement {
    /// The feature must be present.
    Required,
    /// The feature is used when present.
    Preferred,
    /// The feature is not needed.
    Optional,
    /// The feature must not be used.
    Disabled,
}

/// Initializes EPT using the supplied backend after platform validation
/// succeeded; `platform_exposes_ept` is the validated platform's EPT
/// capability. Without EPT the backend is not called.
pub fn init_ept<B: EptBackend>(backend: &mut B, plan: &EptInitPlan, platform_exposes_ept: bool) -> (r: Result<(), EptError>)
    ensures
        !platform_exposes_ept ==> (r matches Err(e) && e.kind == EptErrorKind::Requirements
            && e.message@ == "validated platform does not expose EPT"@) && *final(backend) == *old(backend),
        platform_exposes_ept ==> old(backend).installed(*plan, *final(backend), r),
{
    if !platform_exposes_ept {
        return Err(EptError::new(EptErrorKind::Requirements, "validated platform does not expose EPT"));
    }
    backend.install_ept(plan)
}

/// Returns whether EPT init should proceed for the given feature requirement:
/// it does for required and preferred EPT.
pub fn ept_init_required(requirement: FeatureRequirement) -> (required: bool)
    ensures
        required == (requirement == FeatureRequirement::Required || requirement == FeatureRequirement::Preferred),
{
    match requirement {
        FeatureRequirement::Required | FeatureRequirement::Preferred => true,
        _ => false,
    }
}

} // verus!
