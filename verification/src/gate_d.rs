//! Gate D datapath guests: matching each partition's launch record with
//! its launch plan and boot information, and accepting or refusing what the
//! CPU seams report.

use vstd::prelude::*;
use crate::boot_check::{BootCheckError, BootCheckErrorKind};

verus! {

/// What a CPU seam reports of an instruction sequence.
#[derive(Debug, Clone, Copy, PartialEq, Eq, Structural)]
pub enum CpuInstructionDisposition {
    /// The sequence ran on hardware.
    Executed,
    /// The sequence was checked without running it.
    SeamValidated,
    /// No hardware was available to run it.
    SkippedNoHardware,
}

/// One partition's guest launch record.
#[derive(Debug, Clone, PartialEq, Eq)]
pub struct PartitionGuestLaunchRecord {
    /// Partition identifier.
    pub partition_id: String,
    /// Guest VM id.
    pub vm_id: u32,
    /// Host physical guest entry after ELF installation.
    pub guest_entry_phys: u64,
    /// Installed VMCS region host physical address.
    pub vmcs_phys: u64,
    /// Disposition of the partition's VMX launch.
    pub launch_disposition: CpuInstructionDisposition,
    /// VM id the launch seam reported.
    pub launch_vm_id: u32,
    /// Guest physical address of the installed boot-info blob, if any.
    pub boot_info_guest_phys: Option<u64>,
}

/// A partition's VMX launch plan, as far as the datapath seams use it.
#[derive(Debug, Clone, Copy, PartialEq, Eq, Structural)]
pub struct PartitionLaunchPlan {
    /// Guest VM id.
    pub vm_id: u32,
    /// Host physical address of the VM-exit stub.
    pub host_exit_phys: u64,
}

/// What the guest throughput CPU seam reports.
#[derive(Debug, Clone, Copy, PartialEq, Eq, Structural)]
pub struct ThroughputSeamReport {
    /// Partitions the seam validated.
    pub partitions_validated: u32,
    /// Whether the VM-exit stubs were validated.
    pub vmexit_stub_validated: bool,
    /// Measurement runs the seam validated.
    pub measurement_runs_validated: u64,
    /// Disposition of the seam.
    pub disposition: CpuInstructionDisposition,
    /// In-VM relay frames the seam counted.
    pub in_vm_relay_frames: u64,
    /// Whether the seam validated the live relay.
    pub live_relay_validated: bool,
}

/// The position of the first plan for VM `vm_id` in `plans[from..]`.
pub open spec fn first_plan_from(plans: Seq<PartitionLaunchPlan>, vm_id: u32, from: int) -> Option<int>
    decreases plans.len() - from,
{
    if from < 0 || from >= plans.len() {
        None
    } else if plans[from].vm_id == vm_id {
        Some(from)
    } else {
        first_plan_from(plans, vm_id, from + 1)
    }
}

/// The first launch plan for VM `vm_id`.
pub open spec fn first_plan(plans: Seq<PartitionLaunchPlan>, vm_id: u32) -> Option<PartitionLaunchPlan> {
    match first_plan_from(plans, vm_id, 0) {
        Some(i) => Some(plans[i]),
        None => None,
    }
}

proof fn lemma_first_plan_from_bounds(plans: Seq<PartitionLaunchPlan>, vm_id: u32, from: int)
    ensures
        first_plan_from(plans, vm_id, from) matches Some(i) ==> from <= i < plans.len() && plans[i].vm_id == vm_id,
    decreases plans.len() - from,
{
    if 0 <= from < plans.len() && plans[from].vm_id != vm_id {
        lemma_first_plan_from_bounds(plans, vm_id, from + 1);
    }
}

/// Finds the first launch plan for VM `vm_id`.
pub fn find_launch_plan(plans: &Vec<PartitionLaunchPlan>, vm_id: u32) -> (r: Option<PartitionLaunchPlan>)
    ensures
        r == first_plan(plans@, vm_id),
{
    let mut k: usize = 0;
    while k < plans.len()
        invariant
            k <= plans@.len(),
            first_plan_from(plans@, vm_id, 0) == first_plan_from(plans@, vm_id, k as int),
        decreases plans.len() - k,
    {
        if plans[k].vm_id == vm_id {
            proof {
                lemma_first_plan_from_bounds(plans@, vm_id, k as int);
            }
            return Some(plans[k]);
        }
        k = k + 1;
    }
    None
}

/// Launch plan lookup law: the plan found for VM `vm_id` is a plan of the
/// list with that VM id and no earlier plan has it; no plan is found
/// exactly when no plan of the list has that VM id.
pub proof fn lemma_first_plan_is_first_match(plans: Seq<PartitionLaunchPlan>, vm_id: u32)
    ensures
        first_plan(plans, vm_id) is None <==> forall|i: int| 0 <= i < plans.len() ==> #[trigger] plans[i].vm_id != vm_id,
        first_plan(plans, vm_id) matches Some(p) ==> exists|i: int| 0 <= i < plans.len() && #[trigger] plans[i] == p
            && p.vm_id == vm_id && forall|j: int| 0 <= j < i ==> #[trigger] plans[j].vm_id != vm_id,
{
    lemma_first_plan_from_search(plans, vm_id, 0);
}

proof fn lemma_first_plan_from_search(plans: Seq<PartitionLaunchPlan>, vm_id: u32, from: int)
    requires
        0 <= from,
    ensures
        first_plan_from(plans, vm_id, from) is None <==> forall|i: int| from <= i < plans.len() ==> #[trigger] plans[i].vm_id != vm_id,
        first_plan_from(plans, vm_id, from) matches Some(i) ==> from <= i < plans.len() && plans[i].vm_id == vm_id
            && forall|j: int| from <= j < i ==> #[trigger] plans[j].vm_id != vm_id,
    decreases plans.len() - from,
{
    if from < plans.len() {
        lemma_first_plan_from_search(plans, vm_id, from + 1);
    }
}

/// Runtime seam law: the runtime seam inputs exist exactly when every
/// launch record has a launch plan for its VM; they then hold, for each
/// record in order, its VMCS address and the VM-exit stub of the first plan
/// for its VM.
pub proof fn lemma_runtime_seam_inputs_pair_records(records: Seq<PartitionGuestLaunchRecord>, plans: Seq<PartitionLaunchPlan>)
    ensures
        runtime_seam_inputs(records, plans) is Some <==> forall|i: int| 0 <= i < records.len()
            ==> exists|j: int| 0 <= j < plans.len() && #[trigger] plans[j].vm_id == (#[trigger] records[i]).vm_id,
        runtime_seam_inputs(records, plans) matches Some(inputs) ==> inputs.len() == records.len()
            && forall|i: int| 0 <= i < records.len() ==> (#[trigger] inputs[i]).0 == records[i].vmcs_phys
                && (first_plan(plans, records[i].vm_id) matches Some(p) && inputs[i].1 == p.host_exit_phys),
    decreases records.len(),
{
    if records.len() > 0 {
        let init = records.drop_last();
        lemma_runtime_seam_inputs_pair_records(init, plans);
        lemma_first_plan_is_first_match(plans, records.last().vm_id);
        assert forall|i: int| 0 <= i < init.len() implies #[trigger] init[i] == records[i] by {}
        if runtime_seam_inputs(records, plans) is Some {
            let inputs = runtime_seam_inputs(records, plans)->Some_0;
            let prev = runtime_seam_inputs(init, plans)->Some_0;
            assert forall|i: int| 0 <= i < records.len() implies (#[trigger] inputs[i]).0 == records[i].vmcs_phys
                && (first_plan(plans, records[i].vm_id) matches Some(p) && inputs[i].1 == p.host_exit_phys) by {
                if i < init.len() {
                    assert(inputs[i] == prev[i]);
                    assert(init[i] == records[i]);
                }
            }
            assert forall|i: int| 0 <= i < records.len() implies exists|j: int| 0 <= j < plans.len()
                && #[trigger] plans[j].vm_id == (#[trigger] records[i]).vm_id by {
                lemma_first_plan_is_first_match(plans, records[i].vm_id);
                assert(inputs[i].0 == records[i].vmcs_phys);
                let p = first_plan(plans, records[i].vm_id)->Some_0;
                let k = choose|k: int| 0 <= k < plans.len() && #[trigger] plans[k] == p
                    && p.vm_id == records[i].vm_id && forall|j: int| 0 <= j < k ==> #[trigger] plans[j].vm_id != records[i].vm_id;
                assert(plans[k].vm_id == records[i].vm_id);
            }
        } else {
            if runtime_seam_inputs(init, plans) is None {
                let i0 = choose|i: int| 0 <= i < init.len() && !(exists|j: int| 0 <= j < plans.len()
                    && #[trigger] plans[j].vm_id == (#[trigger] init[i]).vm_id);
                assert(init[i0] == records[i0]);
            } else {
                let last = records.len() - 1;
                assert(records[last] == records.last());
                if exists|j: int| 0 <= j < plans.len() && #[trigger] plans[j].vm_id == records[last].vm_id {
                    let j0 = choose|j: int| 0 <= j < plans.len() && #[trigger] plans[j].vm_id == records[last].vm_id;
                    assert(plans[j0].vm_id == records.last().vm_id);
                }
            }
        }
    }
}

/// The runtime seam inputs of `records`: for each record, in order, its
/// VMCS and the VM-exit stub of its partition's first launch plan; `None`
/// when a record has no plan.
pub open spec fn runtime_seam_inputs(records: Seq<PartitionGuestLaunchRecord>, plans: Seq<PartitionLaunchPlan>) -> Option<Seq<(u64, u64)>>
    decreases records.len(),
{
    if records.len() == 0 {
        Some(Seq::empty())
    } else {
        match (runtime_seam_inputs(records.drop_last(), plans), first_plan(plans, records.last().vm_id)) {
            (Some(inputs), Some(plan)) => Some(inputs.push((records.last().vmcs_phys, plan.host_exit_phys))),
            _ => None,
        }
    }
}

/// Decides the datapath runtime step once the guest runtime ran: refuses a
/// runtime that forwarded no frame, then pairs each launch record with its
/// partition's launch plan for the runtime CPU seam.
pub fn plan_datapath_runtime_seam(
    guest_frame_forwarded: bool,
    records: &Vec<PartitionGuestLaunchRecord>,
    plans: &Vec<PartitionLaunchPlan>,
) -> (r: Result<Vec<(u64, u64)>, BootCheckError>)
    ensures
        match r {
            Ok(inputs) => guest_frame_forwarded && runtime_seam_inputs(records@, plans@) == Some(inputs@),
            Err(e) => e.kind == BootCheckErrorKind::Platform && if !guest_frame_forwarded {
                e.message@ == "guest datapath runtime did not forward a frame"@
            } else {
                runtime_seam_inputs(records@, plans@) is None
                    && e.message@ == "missing launch plan for datapath runtime seam"@
            },
        },
{
    if !guest_frame_forwarded {
        return Err(BootCheckError::new(BootCheckErrorKind::Platform, "guest datapath runtime did not forward a frame"));
    }
    let mut inputs: Vec<(u64, u64)> = Vec::new();
    let mut k: usize = 0;
    while k < records.len()
        invariant
            k <= records@.len(),
            guest_frame_forwarded,
            runtime_seam_inputs(records@.subrange(0, k as int), plans@) == Some(inputs@),
        decreases records.len() - k,
    {
        proof {
            assert(records@.subrange(0, k as int + 1).drop_last() =~= records@.subrange(0, k as int));
            assert(records@.subrange(0, k as int + 1).last() == records@[k as int]);
        }
        match find_launch_plan(plans, records[k].vm_id) {
            Some(plan) => inputs.push((records[k].vmcs_phys, plan.host_exit_phys)),
            None => {
                proof {
                    lemma_seam_inputs_none_extends(records@, plans@, k as int + 1);
                }
                return Err(BootCheckError::new(BootCheckErrorKind::Platform, "missing launch plan for datapath runtime seam"));
            },
        }
        k = k + 1;
    }
    proof {
        assert(records@.subrange(0, records@.len() as int) =~= records@);
    }
    Ok(inputs)
}

proof fn lemma_seam_inputs_none_extends(records: Seq<PartitionGuestLaunchRecord>, plans: Seq<PartitionLaunchPlan>, k: int)
    requires
        0 <= k <= records.len(),
        runtime_seam_inputs(records.subrange(0, k), plans) is None,
    ensures
        runtime_seam_inputs(records, plans) is None,
    decreases records.len() - k,
{
    if k < records.len() {
        assert(records.subrange(0, k + 1).drop_last() =~= records.subrange(0, k));
        lemma_seam_inputs_none_extends(records, plans, k + 1);
    } else {
        assert(records.subrange(0, k) =~= records);
    }
}

/// Why a launch record cannot enter the guest execution seam: no launch
/// plan for its partition, or no installed boot information.
pub open spec fn execution_launch_failure(record: PartitionGuestLaunchRecord, plans: Seq<PartitionLaunchPlan>) -> Option<Seq<char>> {
    if first_plan(plans, record.vm_id) is None {
        Some("missing launch plan for guest execution seam"@)
    } else if record.boot_info_guest_phys is None {
        Some("guest execution requires installed boot info for partition"@)
    } else {
        None
    }
}

/// Finds what the guest execution seam needs of one launch record: its
/// partition's launch plan and its boot-info address.
pub fn execution_launch_for(record: &PartitionGuestLaunchRecord, plans: &Vec<PartitionLaunchPlan>) -> (r: Result<(PartitionLaunchPlan, u64), BootCheckError>)
    ensures
        match r {
            Ok((plan, boot_info)) => execution_launch_failure(*record, plans@) is None
                && first_plan(plans@, record.vm_id) == Some(plan) && record.boot_info_guest_phys == Some(boot_info),
            Err(e) => e.kind == BootCheckErrorKind::Platform && execution_launch_failure(*record, plans@) == Some(e.message@),
        },
{
    let plan = match find_launch_plan(plans, record.vm_id) {
        Some(plan) => plan,
        None => return Err(BootCheckError::new(BootCheckErrorKind::Platform, "missing launch plan for guest execution seam")),
    };
    match record.boot_info_guest_phys {
        Some(boot_info) => Ok((plan, boot_info)),
        None => Err(BootCheckError::new(BootCheckErrorKind::Platform, "guest execution requires installed boot info for partition")),
    }
}

/// Why the guest execution outcome is refused, checked in order.
pub open spec fn guest_execution_failure(
    launches: int,
    reference_partitions: int,
    disposition: CpuInstructionDisposition,
    vmlaunch_attempts: u32,
    partitions_validated: u32,
    guest_frame_forwarded: bool,
    runtime_executed: bool,
) -> Option<Seq<char>> {
    let executed = disposition == CpuInstructionDisposition::Executed;
    if launches != reference_partitions {
        Some("guest execution launch count mismatch with reference partitions"@)
    } else if executed && vmlaunch_attempts != partitions_validated {
        Some("guest execution reported Executed without a VMLAUNCH per partition"@)
    } else if !guest_frame_forwarded {
        Some("guest execution requires a forwarded datapath frame"@)
    } else if runtime_executed != executed {
        Some("guest execution runtime disposition mismatch"@)
    } else {
        None
    }
}

/// Decides the guest execution step: one launch per reference partition,
/// a VMLAUNCH per validated partition when the seam executed, a forwarded
/// datapath frame, and a runtime disposition (`runtime_executed`: whether
/// it is `Executed`) that agrees with the seam. Returns whether the guests
/// executed, so that their launch records are marked executed.
pub fn check_guest_execution(
    launches: usize,
    reference_partitions: usize,
    disposition: CpuInstructionDisposition,
    vmlaunch_attempts: u32,
    partitions_validated: u32,
    guest_frame_forwarded: bool,
    runtime_executed: bool,
) -> (r: Result<bool, BootCheckError>)
    ensures
        match r {
            Ok(executed) => executed == (disposition == CpuInstructionDisposition::Executed)
                && guest_execution_failure(launches as int, reference_partitions as int, disposition,
                    vmlaunch_attempts, partitions_validated, guest_frame_forwarded, runtime_executed) is None,
            Err(e) => e.kind == BootCheckErrorKind::Platform
                && guest_execution_failure(launches as int, reference_partitions as int, disposition,
                    vmlaunch_attempts, partitions_validated, guest_frame_forwarded, runtime_executed) == Some(e.message@),
        },
        r is Ok <==> {
            &&& launches == reference_partitions
            &&& (disposition == CpuInstructionDisposition::Executed ==> vmlaunch_attempts == partitions_validated)
            &&& guest_frame_forwarded
            &&& runtime_executed == (disposition == CpuInstructionDisposition::Executed)
        },
{
    proof {
        lemma_guest_execution_acceptance(launches as int, reference_partitions as int, disposition,
            vmlaunch_attempts, partitions_validated, guest_frame_forwarded, runtime_executed);
    }
    let executed = disposition == CpuInstructionDisposition::Executed;
    if launches != reference_partitions {
        return Err(BootCheckError::new(BootCheckErrorKind::Platform, "guest execution launch count mismatch with reference partitions"));
    }
    if executed && vmlaunch_attempts != partitions_validated {
        return Err(BootCheckError::new(BootCheckErrorKind::Platform, "guest execution reported Executed without a VMLAUNCH per partition"));
    }
    if !guest_frame_forwarded {
        return Err(BootCheckError::new(BootCheckErrorKind::Platform, "guest execution requires a forwarded datapath frame"));
    }
    if runtime_executed != executed {
        return Err(BootCheckError::new(BootCheckErrorKind::Platform, "guest execution runtime disposition mismatch"));
    }
    Ok(executed)
}

/// Launch record `r` marked executed.
pub open spec fn executed_record(r: PartitionGuestLaunchRecord) -> PartitionGuestLaunchRecord {
    PartitionGuestLaunchRecord {
        partition_id: r.partition_id,
        vm_id: r.vm_id,
        guest_entry_phys: r.guest_entry_phys,
        vmcs_phys: r.vmcs_phys,
        launch_disposition: CpuInstructionDisposition::Executed,
        launch_vm_id: r.launch_vm_id,
        boot_info_guest_phys: r.boot_info_guest_phys,
    }
}

/// Marks every launch record executed, keeping everything else.
pub fn mark_launches_executed(records: &mut Vec<PartitionGuestLaunchRecord>)
    ensures
        final(records)@.len() == old(records)@.len(),
        forall|i: int| 0 <= i < old(records)@.len() ==> #[trigger] final(records)@[i] == executed_record(old(records)@[i]),
{
    let ghost start = records@;
    let mut k: usize = 0;
    while k < records.len()
        invariant
            k <= records@.len(),
            records@.len() == start.len(),
            forall|i: int| 0 <= i < k ==> #[trigger] records@[i] == executed_record(start[i]),
            forall|i: int| k <= i < start.len() ==> #[trigger] records@[i] == start[i],
        decreases records.len() - k,
    {
        let r = &records[k];
        let record = PartitionGuestLaunchRecord {
            partition_id: r.partition_id.clone(),
            vm_id: r.vm_id,
            guest_entry_phys: r.guest_entry_phys,
            vmcs_phys: r.vmcs_phys,
            launch_disposition: CpuInstructionDisposition::Executed,
            launch_vm_id: r.launch_vm_id,
            boot_info_guest_phys: r.boot_info_guest_phys,
        };
        records.set(k, record);
        k = k + 1;
    }
}

/// Checks that one guest ELF image was installed per reference partition.
pub fn check_guest_elf_install_count(installed: u32, reference_partitions: u32) -> (r: Result<(), BootCheckError>)
    ensures
        r is Ok <==> installed == reference_partitions,
        r matches Err(e) ==> e.kind == BootCheckErrorKind::Platform
            && e.message@ == "guest elf install count mismatch with reference partitions"@,
{
    if installed != reference_partitions {
        return Err(BootCheckError::new(BootCheckErrorKind::Platform, "guest elf install count mismatch with reference partitions"));
    }
    Ok(())
}

/// Launch record `r` with the launch outcome `o` = (disposition, VM id).
pub open spec fn with_outcome(r: PartitionGuestLaunchRecord, o: (CpuInstructionDisposition, u32)) -> PartitionGuestLaunchRecord {
    PartitionGuestLaunchRecord {
        partition_id: r.partition_id,
        vm_id: r.vm_id,
        guest_entry_phys: r.guest_entry_phys,
        vmcs_phys: r.vmcs_phys,
        launch_disposition: o.0,
        launch_vm_id: o.1,
        boot_info_guest_phys: r.boot_info_guest_phys,
    }
}

/// Records each launch seam outcome, as (disposition, guest VM id), in the
/// launch record at the same position; records without an outcome keep
/// theirs.
pub fn record_launch_outcomes(records: &mut Vec<PartitionGuestLaunchRecord>, outcomes: &Vec<(CpuInstructionDisposition, u32)>)
    ensures
        final(records)@.len() == old(records)@.len(),
        forall|i: int| 0 <= i < old(records)@.len() ==> #[trigger] final(records)@[i] == if i < outcomes@.len() {
            with_outcome(old(records)@[i], outcomes@[i])
        } else {
            old(records)@[i]
        },
{
    let ghost start = records@;
    let mut k: usize = 0;
    while k < records.len() && k < outcomes.len()
        invariant
            k <= records@.len(),
            k <= outcomes@.len(),
            records@.len() == start.len(),
            forall|i: int| 0 <= i < k ==> #[trigger] records@[i] == with_outcome(start[i], outcomes@[i]),
            forall|i: int| k <= i < start.len() ==> #[trigger] records@[i] == start[i],
        decreases records.len() - k,
    {
        let r = &records[k];
        let record = PartitionGuestLaunchRecord {
            partition_id: r.partition_id.clone(),
            vm_id: r.vm_id,
            guest_entry_phys: r.guest_entry_phys,
            vmcs_phys: r.vmcs_phys,
            launch_disposition: outcomes[k].0,
            launch_vm_id: outcomes[k].1,
            boot_info_guest_phys: r.boot_info_guest_phys,
        };
        records.set(k, record);
        k = k + 1;
    }
}

/// Why a guest throughput outcome is refused, checked in order (the
/// variant without live relay measurement): the benchmark target, then the
/// seam against the execution seam and the benchmark, then the throughput
/// disposition applied for the seam (`disposition_executed`,
/// `disposition_unavailable`: whether it is `Executed`, `Unavailable`).
pub open spec fn guest_throughput_failure(
    target_met: bool,
    runs_completed: u64,
    execution_partitions: u32,
    seam: ThroughputSeamReport,
    disposition_executed: bool,
    disposition_unavailable: bool,
) -> Option<Seq<char>> {
    if !target_met {
        Some("guest throughput benchmark target not met"@)
    } else if seam.partitions_validated != execution_partitions {
        Some("guest throughput partition count mismatch with execution seam"@)
    } else if !seam.vmexit_stub_validated {
        Some("guest throughput requires validated VM-exit stubs"@)
    } else if seam.measurement_runs_validated != runs_completed {
        Some("guest throughput measurement run count mismatch"@)
    } else if disposition_executed {
        Some("guest throughput Executed requires live in-VM measurement stats"@)
    } else if disposition_unavailable != (seam.disposition == CpuInstructionDisposition::SkippedNoHardware) {
        Some("guest throughput disposition mismatch"@)
    } else {
        None
    }
}

/// Decides the guest throughput step: the benchmark met its target, the
/// throughput seam validated every executed partition, the VM-exit stubs
/// and every benchmark run, and the applied disposition is not `Executed`
/// (no live in-VM measurement) and is `Unavailable` exactly when the seam
/// had no hardware.
pub fn check_guest_throughput(
    target_met: bool,
    runs_completed: u64,
    execution_partitions: u32,
    seam: ThroughputSeamReport,
    disposition_executed: bool,
    disposition_unavailable: bool,
) -> (r: Result<(), BootCheckError>)
    ensures
        match r {
            Ok(_) => guest_throughput_failure(target_met, runs_completed, execution_partitions, seam,
                disposition_executed, disposition_unavailable) is None,
            Err(e) => e.kind == BootCheckErrorKind::Platform && guest_throughput_failure(target_met, runs_completed,
                execution_partitions, seam, disposition_executed, disposition_unavailable) == Some(e.message@),
        },
        r is Ok <==> {
            &&& target_met
            &&& seam.partitions_validated == execution_partitions
            &&& seam.vmexit_stub_validated
            &&& seam.measurement_runs_validated == runs_completed
            &&& !disposition_executed
            &&& disposition_unavailable == (seam.disposition == CpuInstructionDisposition::SkippedNoHardware)
        },
{
    proof {
        lemma_guest_throughput_acceptance(target_met, runs_completed, execution_partitions, seam,
            disposition_executed, disposition_unavailable);
    }
    if !target_met {
        return Err(BootCheckError::new(BootCheckErrorKind::Platform, "guest throughput benchmark target not met"));
    }
    if seam.partitions_validated != execution_partitions {
        return Err(BootCheckError::new(BootCheckErrorKind::Platform, "guest throughput partition count mismatch with execution seam"));
    }
    if !seam.vmexit_stub_validated {
        return Err(BootCheckError::new(BootCheckErrorKind::Platform, "guest throughput requires validated VM-exit stubs"));
    }
    if seam.measurement_runs_validated != runs_completed {
        return Err(BootCheckError::new(BootCheckErrorKind::Platform, "guest throughput measurement run count mismatch"));
    }
    if disposition_executed {
        return Err(BootCheckError::new(BootCheckErrorKind::Platform, "guest throughput Executed requires live in-VM measurement stats"));
    }
    let skipped_no_hardware = seam.disposition == CpuInstructionDisposition::SkippedNoHardware;
    if disposition_unavailable != skipped_no_hardware {
        return Err(BootCheckError::new(BootCheckErrorKind::Platform, "guest throughput disposition mismatch"));
    }
    Ok(())
}

/// Why a live-relay guest throughput outcome is refused, checked in order
/// after the seam checks of `guest_throughput_failure`: the in-VM relay
/// frames the seam counted (when relay measurement is enabled), the seam's
/// live relay verdict against the execution outcome, an `Executed`
/// disposition without enough measured frames, and an `Unavailable`
/// disposition exactly when the seam had no hardware.
pub open spec fn relay_live_failure(
    seam: ThroughputSeamReport,
    measurement_enabled: bool,
    guest_execution_executed: bool,
    in_vm_relay_frames: u64,
    expected_relay_frames: u64,
    disposition_executed: bool,
    disposition_unavailable: bool,
) -> Option<Seq<char>> {
    let live_expected = if measurement_enabled {
        guest_execution_executed && in_vm_relay_frames >= expected_relay_frames
    } else {
        guest_execution_executed
    };
    if measurement_enabled && seam.in_vm_relay_frames != in_vm_relay_frames {
        Some("guest relay measurement seam frame count mismatch"@)
    } else if seam.live_relay_validated != live_expected {
        Some("guest relay live seam mismatch with execution outcome"@)
    } else if disposition_executed && in_vm_relay_frames < expected_relay_frames {
        Some("guest relay live Executed requires in-VM relay measurement stats"@)
    } else if disposition_unavailable != (seam.disposition == CpuInstructionDisposition::SkippedNoHardware) {
        Some("guest relay live disposition mismatch"@)
    } else {
        None
    }
}

/// Decides the guest throughput step when the relay runs live: the seam
/// checks of `check_guest_throughput`, then the live relay checks of
/// `relay_live_failure` on the throughput result with the live relay
/// applied (`disposition_executed`, `disposition_unavailable`).
pub fn check_guest_relay_live_throughput(
    target_met: bool,
    runs_completed: u64,
    execution_partitions: u32,
    seam: ThroughputSeamReport,
    measurement_enabled: bool,
    guest_execution_executed: bool,
    in_vm_relay_frames: u64,
    expected_relay_frames: u64,
    disposition_executed: bool,
    disposition_unavailable: bool,
) -> (r: Result<(), BootCheckError>)
    ensures
        ({
            let seam_failure = guest_throughput_failure(target_met, runs_completed, execution_partitions, seam, false, (seam.disposition == CpuInstructionDisposition::SkippedNoHardware));
            let relay_failure = relay_live_failure(seam, measurement_enabled, guest_execution_executed,
                in_vm_relay_frames, expected_relay_frames, disposition_executed, disposition_unavailable);
            match r {
                Ok(_) => seam_failure is None && relay_failure is None,
                Err(e) => e.kind == BootCheckErrorKind::Platform && Some(e.message@) == match seam_failure {
                    Some(m) => Some(m),
                    None => relay_failure,
                },
            }
        }),
        r is Ok <==> {
            &&& target_met
            &&& seam.partitions_validated == execution_partitions
            &&& seam.vmexit_stub_validated
            &&& seam.measurement_runs_validated == runs_completed
            &&& (measurement_enabled ==> seam.in_vm_relay_frames == in_vm_relay_frames)
            &&& seam.live_relay_validated == (guest_execution_executed
                && (measurement_enabled ==> in_vm_relay_frames >= expected_relay_frames))
            &&& !(disposition_executed && in_vm_relay_frames < expected_relay_frames)
            &&& disposition_unavailable == (seam.disposition == CpuInstructionDisposition::SkippedNoHardware)
        },
{
    proof {
        lemma_guest_throughput_acceptance(target_met, runs_completed, execution_partitions, seam, false,
            seam.disposition == CpuInstructionDisposition::SkippedNoHardware);
        lemma_relay_live_acceptance(seam, measurement_enabled, guest_execution_executed, in_vm_relay_frames,
            expected_relay_frames, disposition_executed, disposition_unavailable);
    }
    if !target_met {
        return Err(BootCheckError::new(BootCheckErrorKind::Platform, "guest throughput benchmark target not met"));
    }
    if seam.partitions_validated != execution_partitions {
        return Err(BootCheckError::new(BootCheckErrorKind::Platform, "guest throughput partition count mismatch with execution seam"));
    }
    if !seam.vmexit_stub_validated {
        return Err(BootCheckError::new(BootCheckErrorKind::Platform, "guest throughput requires validated VM-exit stubs"));
    }
    if seam.measurement_runs_validated != runs_completed {
        return Err(BootCheckError::new(BootCheckErrorKind::Platform, "guest throughput measurement run count mismatch"));
    }
    if measurement_enabled && seam.in_vm_relay_frames != in_vm_relay_frames {
        return Err(BootCheckError::new(BootCheckErrorKind::Platform, "guest relay measurement seam frame count mismatch"));
    }
    let live_expected = if measurement_enabled {
        guest_execution_executed && in_vm_relay_frames >= expected_relay_frames
    } else {
        guest_execution_executed
    };
    if seam.live_relay_validated != live_expected {
        return Err(BootCheckError::new(BootCheckErrorKind::Platform, "guest relay live seam mismatch with execution outcome"));
    }
    if disposition_executed && in_vm_relay_frames < expected_relay_frames {
        return Err(BootCheckError::new(BootCheckErrorKind::Platform, "guest relay live Executed requires in-VM relay measurement stats"));
    }
    let skipped_no_hardware = seam.disposition == CpuInstructionDisposition::SkippedNoHardware;
    if disposition_unavailable != skipped_no_hardware {
        return Err(BootCheckError::new(BootCheckErrorKind::Platform, "guest relay live disposition mismatch"));
    }
    Ok(())
}

/// Guest execution law: the execution outcome is accepted exactly when
/// there is one launch per reference partition, an executed seam made one
/// VMLAUNCH per validated partition, a datapath frame was forwarded, and the
/// runtime reports execution exactly when the seam executed.
pub proof fn lemma_guest_execution_acceptance(
    launches: int,
    reference_partitions: int,
    disposition: CpuInstructionDisposition,
    vmlaunch_attempts: u32,
    partitions_validated: u32,
    guest_frame_forwarded: bool,
    runtime_executed: bool,
)
    ensures
        guest_execution_failure(launches, reference_partitions, disposition, vmlaunch_attempts,
            partitions_validated, guest_frame_forwarded, runtime_executed) is None <==> {
            &&& launches == reference_partitions
            &&& (disposition == CpuInstructionDisposition::Executed ==> vmlaunch_attempts == partitions_validated)
            &&& guest_frame_forwarded
            &&& runtime_executed == (disposition == CpuInstructionDisposition::Executed)
        },
{
}

/// Guest throughput law: the outcome is accepted exactly when the benchmark
/// met its target, the seam validated as many partitions as the execution
/// seam, the VM-exit stubs and every completed run, the disposition is not
/// `Executed`, and it is `Unavailable` exactly when the seam had no hardware.
pub proof fn lemma_guest_throughput_acceptance(
    target_met: bool,
    runs_completed: u64,
    execution_partitions: u32,
    seam: ThroughputSeamReport,
    disposition_executed: bool,
    disposition_unavailable: bool,
)
    ensures
        guest_throughput_failure(target_met, runs_completed, execution_partitions, seam,
            disposition_executed, disposition_unavailable) is None <==> {
            &&& target_met
            &&& seam.partitions_validated == execution_partitions
            &&& seam.vmexit_stub_validated
            &&& seam.measurement_runs_validated == runs_completed
            &&& !disposition_executed
            &&& disposition_unavailable == (seam.disposition == CpuInstructionDisposition::SkippedNoHardware)
        },
{
}

/// Live relay law: the live relay checks accept exactly when the seam
/// counted the measured in-VM frames (with measurement enabled), the seam's
/// live relay verdict is "guest execution executed" (and, with measurement,
/// "enough frames were measured"), an `Executed` disposition comes with
/// enough measured frames, and the disposition is `Unavailable` exactly when
/// the seam had no hardware. Without measurement, an executed guest
/// execution with a validated live relay is thus accepted.
pub proof fn lemma_relay_live_acceptance(
    seam: ThroughputSeamReport,
    measurement_enabled: bool,
    guest_execution_executed: bool,
    in_vm_relay_frames: u64,
    expected_relay_frames: u64,
    disposition_executed: bool,
    disposition_unavailable: bool,
)
    ensures
        relay_live_failure(seam, measurement_enabled, guest_execution_executed, in_vm_relay_frames,
            expected_relay_frames, disposition_executed, disposition_unavailable) is None <==> {
            &&& (measurement_enabled ==> seam.in_vm_relay_frames == in_vm_relay_frames)
            &&& seam.live_relay_validated == (guest_execution_executed
                && (measurement_enabled ==> in_vm_relay_frames >= expected_relay_frames))
            &&& !(disposition_executed && in_vm_relay_frames < expected_relay_frames)
            &&& disposition_unavailable == (seam.disposition == CpuInstructionDisposition::SkippedNoHardware)
        },
{
}

} // verus!
