//! Gate D datapath bring-up decisions.

use aipervisor::boot_check::BootCheckErrorKind;
use aipervisor::gate_d::{
    check_guest_elf_install_count, check_guest_execution, check_guest_relay_live_throughput, check_guest_throughput, execution_launch_for,
    find_launch_plan, mark_launches_executed, plan_datapath_runtime_seam, record_launch_outcomes,
    CpuInstructionDisposition, PartitionGuestLaunchRecord, PartitionLaunchPlan, ThroughputSeamReport,
};

fn record(vm_id: u32, vmcs_phys: u64, boot_info: Option<u64>) -> PartitionGuestLaunchRecord {
    PartitionGuestLaunchRecord {
        partition_id: format!("p{vm_id}"),
        vm_id,
        guest_entry_phys: 0x10_0000 + vm_id as u64,
        vmcs_phys,
        launch_disposition: CpuInstructionDisposition::SeamValidated,
        launch_vm_id: vm_id,
        boot_info_guest_phys: boot_info,
    }
}

fn plans() -> Vec<PartitionLaunchPlan> {
    vec![
        PartitionLaunchPlan { vm_id: 1, host_exit_phys: 0xA000 },
        PartitionLaunchPlan { vm_id: 0, host_exit_phys: 0xB000 },
        PartitionLaunchPlan { vm_id: 1, host_exit_phys: 0xC000 },
    ]
}

#[test]
fn find_launch_plan_takes_first_match() {
    assert_eq!(find_launch_plan(&plans(), 1).map(|p| p.host_exit_phys), Some(0xA000));
    assert_eq!(find_launch_plan(&plans(), 0).map(|p| p.host_exit_phys), Some(0xB000));
    assert_eq!(find_launch_plan(&plans(), 7), None);
}

#[test]
fn runtime_seam_pairs_records_with_plans() {
    let records = vec![record(0, 0x1000, None), record(1, 0x2000, None)];
    let inputs = plan_datapath_runtime_seam(true, &records, &plans()).expect("pair");
    assert_eq!(inputs, vec![(0x1000, 0xB000), (0x2000, 0xA000)]);
}

#[test]
fn runtime_seam_refuses_unforwarded_frame_then_missing_plan() {
    let records = vec![record(0, 0x1000, None), record(9, 0x2000, None)];
    let err = plan_datapath_runtime_seam(false, &records, &plans()).expect_err("frame");
    assert_eq!(err.message, "guest datapath runtime did not forward a frame");
    let err = plan_datapath_runtime_seam(true, &records, &plans()).expect_err("plan");
    assert_eq!(err.message, "missing launch plan for datapath runtime seam");
    assert_eq!(err.kind, BootCheckErrorKind::Platform);
}

#[test]
fn execution_launch_needs_plan_then_boot_info() {
    let (plan, boot_info) = execution_launch_for(&record(0, 0x1000, Some(0x9000)), &plans()).expect("launch");
    assert_eq!(plan.host_exit_phys, 0xB000);
    assert_eq!(boot_info, 0x9000);
    let err = execution_launch_for(&record(9, 0x1000, None), &plans()).expect_err("plan");
    assert_eq!(err.message, "missing launch plan for guest execution seam");
    let err = execution_launch_for(&record(0, 0x1000, None), &plans()).expect_err("boot info");
    assert_eq!(err.message, "guest execution requires installed boot info for partition");
}

#[test]
fn guest_execution_checks_in_order() {
    assert_eq!(check_guest_execution(2, 2, CpuInstructionDisposition::Executed, 2, 2, true, true).expect("ok"), true);
    assert_eq!(check_guest_execution(2, 2, CpuInstructionDisposition::SkippedNoHardware, 0, 2, true, false).expect("ok"), false);
    let msg = |r: Result<bool, aipervisor::boot_check::BootCheckError>| r.expect_err("refused").message;
    assert_eq!(msg(check_guest_execution(1, 2, CpuInstructionDisposition::Executed, 2, 2, true, true)), "guest execution launch count mismatch with reference partitions");
    assert_eq!(msg(check_guest_execution(2, 2, CpuInstructionDisposition::Executed, 1, 2, true, true)), "guest execution reported Executed without a VMLAUNCH per partition");
    assert_eq!(msg(check_guest_execution(2, 2, CpuInstructionDisposition::SeamValidated, 0, 2, false, false)), "guest execution requires a forwarded datapath frame");
    assert_eq!(msg(check_guest_execution(2, 2, CpuInstructionDisposition::SeamValidated, 0, 2, true, true)), "guest execution runtime disposition mismatch");
}

#[test]
fn launch_records_take_outcomes_and_executed_marks() {
    let mut records = vec![record(0, 0x1000, None), record(1, 0x2000, None)];
    record_launch_outcomes(&mut records, &vec![(CpuInstructionDisposition::SkippedNoHardware, 5)]);
    assert_eq!(records[0].launch_disposition, CpuInstructionDisposition::SkippedNoHardware);
    assert_eq!(records[0].launch_vm_id, 5);
    assert_eq!(records[1].launch_disposition, CpuInstructionDisposition::SeamValidated);
    mark_launches_executed(&mut records);
    assert!(records.iter().all(|r| r.launch_disposition == CpuInstructionDisposition::Executed));
    assert_eq!(records[1].partition_id, "p1");
    assert_eq!(records[0].launch_vm_id, 5);
}

#[test]
fn elf_install_count_must_match_reference_partitions() {
    assert!(check_guest_elf_install_count(2, 2).is_ok());
    let err = check_guest_elf_install_count(1, 2).expect_err("count");
    assert_eq!(err.message, "guest elf install count mismatch with reference partitions");
}

#[test]
fn guest_throughput_checks_in_order() {
    let seam = ThroughputSeamReport {
        partitions_validated: 2,
        vmexit_stub_validated: true,
        measurement_runs_validated: 8,
        disposition: CpuInstructionDisposition::SkippedNoHardware,
        in_vm_relay_frames: 0,
        live_relay_validated: false,
    };
    assert!(check_guest_throughput(true, 8, 2, seam, false, true).is_ok());
    let msg = |r: Result<(), aipervisor::boot_check::BootCheckError>| r.expect_err("refused").message;
    assert_eq!(msg(check_guest_throughput(false, 8, 2, seam, false, true)), "guest throughput benchmark target not met");
    assert_eq!(msg(check_guest_throughput(true, 8, 3, seam, false, true)), "guest throughput partition count mismatch with execution seam");
    let no_stub = ThroughputSeamReport { vmexit_stub_validated: false, ..seam };
    assert_eq!(msg(check_guest_throughput(true, 8, 2, no_stub, false, true)), "guest throughput requires validated VM-exit stubs");
    assert_eq!(msg(check_guest_throughput(true, 9, 2, seam, false, true)), "guest throughput measurement run count mismatch");
    assert_eq!(msg(check_guest_throughput(true, 8, 2, seam, true, false)), "guest throughput Executed requires live in-VM measurement stats");
    assert_eq!(msg(check_guest_throughput(true, 8, 2, seam, false, false)), "guest throughput disposition mismatch");
}

#[test]
fn relay_live_throughput_checks_in_order() {
    let seam = ThroughputSeamReport {
        partitions_validated: 2,
        vmexit_stub_validated: true,
        measurement_runs_validated: 8,
        disposition: CpuInstructionDisposition::Executed,
        in_vm_relay_frames: 200,
        live_relay_validated: true,
    };
    assert!(check_guest_relay_live_throughput(true, 8, 2, seam, true, true, 200, 200, true, false).is_ok());
    let msg = |r: Result<(), aipervisor::boot_check::BootCheckError>| r.expect_err("refused").message;
    assert_eq!(msg(check_guest_relay_live_throughput(true, 7, 2, seam, true, true, 200, 200, true, false)), "guest throughput measurement run count mismatch");
    assert_eq!(msg(check_guest_relay_live_throughput(true, 8, 2, seam, true, true, 150, 200, true, false)), "guest relay measurement seam frame count mismatch");
    let short = ThroughputSeamReport { in_vm_relay_frames: 150, ..seam };
    assert_eq!(msg(check_guest_relay_live_throughput(true, 8, 2, short, true, true, 150, 200, true, false)), "guest relay live seam mismatch with execution outcome");
    let not_live = ThroughputSeamReport { in_vm_relay_frames: 150, live_relay_validated: false, ..seam };
    assert_eq!(msg(check_guest_relay_live_throughput(true, 8, 2, not_live, true, true, 150, 200, true, false)), "guest relay live Executed requires in-VM relay measurement stats");
    assert_eq!(msg(check_guest_relay_live_throughput(true, 8, 2, seam, true, true, 200, 200, false, true)), "guest relay live disposition mismatch");
    assert!(check_guest_relay_live_throughput(true, 8, 2, not_live, false, false, 0, 200, false, false).is_ok());
}
