use scil::interceptor::process_name_matches;
use scil::pairing::{pairing_step, PairingAction};
use scil::telemetry::{
    ssn_to_nt_function, Args, NtFunction, TelemetryEntry, TelemetryEntryOrphan,
    SSN_NT_ALLOCATE_VIRTUAL_MEMORY, SSN_NT_CREATE_THREAD_EX, SSN_NT_OPEN_PROCESS, SSN_NT_WRITE_VM,
};
use scil::{driver_name, DRIVER_NAME};

#[test]
fn ssn_mapping_covers_exactly_four_numbers() {
    assert_eq!(ssn_to_nt_function(SSN_NT_OPEN_PROCESS), Some(NtFunction::NtOpenProcess(0)));
    assert_eq!(ssn_to_nt_function(SSN_NT_ALLOCATE_VIRTUAL_MEMORY), Some(NtFunction::NtAllocateVM));
    assert_eq!(ssn_to_nt_function(SSN_NT_CREATE_THREAD_EX), Some(NtFunction::NtCreateThreadEx));
    assert_eq!(ssn_to_nt_function(SSN_NT_WRITE_VM), Some(NtFunction::NtWriteVM));
    assert_eq!(ssn_to_nt_function(0), None);
    assert_eq!(ssn_to_nt_function(0x27), None);
    assert_eq!(ssn_to_nt_function(u32::MAX), None);
}

#[test]
fn ssn_constants_match_the_dispatch_table() {
    assert_eq!(SSN_NT_OPEN_PROCESS, 0x26);
    assert_eq!(SSN_NT_ALLOCATE_VIRTUAL_MEMORY, 0x18);
    assert_eq!(SSN_NT_CREATE_THREAD_EX, 0xc9);
    assert_eq!(SSN_NT_WRITE_VM, 0x3a);
}

#[test]
fn name_filter_is_case_insensitive_containment() {
    assert!(process_name_matches(b"scil_test.exe", b"scil_test"));
    assert!(process_name_matches(b"C:\\Users\\SCIL_TEST.EXE", b"scil_test"));
    assert!(process_name_matches(b"Scil_Test", b"sCIL_tEST"));
    assert!(!process_name_matches(b"explorer.exe", b"scil_test"));
    assert!(!process_name_matches(b"scil_tes", b"scil_test"));
    assert!(!process_name_matches(b"", b"scil_test"));
    assert!(process_name_matches(b"anything", b""));
}

#[test]
fn built_entry_keeps_its_inputs() {
    let args = Args { rcx: Some(1), ..Args::empty() };
    let e = TelemetryEntry::new(NtFunction::NtCreateThreadEx, args, 555);
    assert_eq!(e.nt_function, NtFunction::NtCreateThreadEx);
    assert_eq!(e.args, args);
    assert_eq!(e.pid, 555);
}

#[test]
fn built_entry_identifier_is_a_version_4_uuid() {
    // the identifier must have gone through the random-bytes builder: the
    // version nibble and variant bits are stamped no matter the seed
    let e = TelemetryEntry::new(NtFunction::NtAllocateVM, Args::empty(), 1);
    let id = uuid::Uuid::from_u128(e.uuid);
    assert_eq!(id.get_version_num(), 4);
    assert_eq!(id.get_variant(), uuid::Variant::RFC4122);
}

#[test]
fn pairing_rotates_slow_heads_and_takes_completed_ones() {
    let mut outstanding = vec![10u64, 11, 12];
    assert_eq!(
        pairing_step(&mut outstanding, false),
        PairingAction::Rotated { handle: 10 }
    );
    assert_eq!(outstanding, vec![11, 12, 10]);
    assert_eq!(pairing_step(&mut outstanding, true), PairingAction::Ready { handle: 11 });
    assert_eq!(outstanding, vec![12, 10]);
    let mut none: Vec<u64> = Vec::new();
    assert_eq!(pairing_step(&mut none, true), PairingAction::Idle);
}

#[test]
fn driver_name_is_the_nul_terminated_utf16_path() {
    let name = driver_name();
    let mut expected: Vec<u16> = DRIVER_NAME.encode_utf16().collect();
    expected.push(0);
    assert_eq!(name, expected);
    assert_eq!(*name.last().unwrap(), 0);
    assert_eq!(name.len(), DRIVER_NAME.len() + 1);
}
