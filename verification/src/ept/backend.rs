//! EPT backends: the installer abstraction and the host-side implementations.

use vstd::prelude::*;
use crate::ept::error::{EptError, EptErrorKind};
use crate::ept::paging::{built_from, mappings_valid};
use crate::ept::program::{
    plan_accepted, program_ept_tables, programmed_mappings, EptInitPlan, EptProgrammedTables,
};

verus! {

/// Backend that installs EPT structures for guest address spaces.
pub trait EptBackend: Sized {
    /// What installing `plan` from this state does: the state `after` it
    /// and the result `r`.
    spec fn installed(&self, plan: EptInitPlan, after: Self, r: Result<(), EptError>) -> bool;

    /// Installs the planned EPT hierarchy.
    fn install_ept(&mut self, plan: &EptInitPlan) -> (r: Result<(), EptError>)
        ensures
            old(self).installed(*plan, *final(self), r);
}

/// Records EPT init requests for host-side tests.
#[derive(Debug, Clone, Default, PartialEq, Eq)]
pub struct MockEptBackend {
    /// Number of successful install calls.
    pub install_calls: u32,
    /// Last plan submitted to the backend.
    pub last_plan: Option<EptInitPlan>,
}

impl EptBackend for MockEptBackend {
    /// Accepts every plan: counts the call (saturating) and keeps a copy of the plan.
    open spec fn installed(&self, plan: EptInitPlan, after: Self, r: Result<(), EptError>) -> bool {
        &&& r is Ok
        &&& after.install_calls == if self.install_calls == u32::MAX {
            u32::MAX
        } else {
            (self.install_calls + 1) as u32
        }
        &&& after.last_plan matches Some(p) && p.identity_mappings@ == plan.identity_mappings@
            && p.root_table_phys == plan.root_table_phys && p.root_table_bytes == plan.root_table_bytes
    }

    fn install_ept(&mut self, plan: &EptInitPlan) -> (r: Result<(), EptError>) {
        self.install_calls = self.install_calls.saturating_add(1);
        self.last_plan = Some(
            EptInitPlan {
                identity_mappings: plan.identity_mappings.clone(),
                root_table_phys: plan.root_table_phys,
                root_table_bytes: plan.root_table_bytes,
            },
        );
        proof {
            let p = self.last_plan->Some_0;
            assert(p.identity_mappings@ =~= plan.identity_mappings@);
        }
        Ok(())
    }
}

/// Backend that always fails installation (negative tests).
#[derive(Debug, Clone, Copy, Default, PartialEq, Eq)]
pub struct FailingEptBackend;

impl EptBackend for FailingEptBackend {
    /// Rejects every plan with a backend error.
    open spec fn installed(&self, plan: EptInitPlan, after: Self, r: Result<(), EptError>) -> bool {
        &&& r matches Err(e) && e.kind == EptErrorKind::Backend
            && e.message@ == "mock backend rejected EPT installation"@
        &&& after == *self
    }

    fn install_ept(&mut self, _plan: &EptInitPlan) -> (r: Result<(), EptError>) {
        Err(EptError::new(EptErrorKind::Backend, "mock backend rejected EPT installation"))
    }
}

/// Backend that encodes EPT tables without executing EPT-capable VMX instructions.
#[derive(Debug, Clone, Default, PartialEq, Eq)]
pub struct ProgrammingEptBackend {
    /// Number of successful programming calls.
    pub program_calls: u32,
    /// Last programmed EPT hierarchy.
    pub last_tables: Option<EptProgrammedTables>,
}

impl EptBackend for ProgrammingEptBackend {
    /// Programs the plan's tables; on success counts the call (saturating)
    /// and keeps the tables, on failure leaves the backend unchanged.
    open spec fn installed(&self, plan: EptInitPlan, after: Self, r: Result<(), EptError>) -> bool {
        match r {
            Ok(_) => {
                &&& plan_accepted(plan)
                &&& after.program_calls == if self.program_calls == u32::MAX {
                    u32::MAX
                } else {
                    (self.program_calls + 1) as u32
                }
                &&& after.last_tables matches Some(t) && t.root_table_phys == plan.root_table_phys
                    && t.mappings@ == programmed_mappings(plan)
                    && built_from(t, programmed_mappings(plan))
            },
            Err(e) => {
                &&& after == *self
                &&& e.kind == EptErrorKind::Planning
                &&& (plan_accepted(plan) ==> !mappings_valid(programmed_mappings(plan)))
            },
        }
    }

    fn install_ept(&mut self, plan: &EptInitPlan) -> (r: Result<(), EptError>)
    {
        let tables = match program_ept_tables(plan) {
            Ok(tables) => tables,
            Err(e) => return Err(e),
        };
        self.program_calls = self.program_calls.saturating_add(1);
        self.last_tables = Some(tables);
        Ok(())
    }
}

} // verus!
