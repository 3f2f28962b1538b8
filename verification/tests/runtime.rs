use brpgen::buffer::Buf;
use brpgen::session::{
    create_context_outcome, run_teardown, vhl_output_outcome, CardFamilies,
    DesfireExecCommandParams, TeardownAction,
};
use brpgen::status::{try_default, try_default_or, try_ok, try_ok_or, BrpError, ContextParams, BRP_OK};

fn params() -> ContextParams {
    ContextParams { port: b"ttyS3".to_vec(), baudrate: 115200, parity: 78 }
}

#[test]
fn test_success_sentinel_yields_payload() {
    assert_eq!(try_ok(BRP_OK, 42u32), Ok(42u32));
    assert_eq!(try_default(BRP_OK), Ok(()));
}

#[test]
fn test_other_code_yields_failure_with_that_code() {
    assert_eq!(try_ok(7, 42u32), Err(BrpError::ErrorCode(7)));
    assert_eq!(try_default(7), Err(BrpError::ErrorCode(7)));
}

#[test]
fn test_substitute_error_replaces_code_on_failure_only() {
    let sub = BrpError::FailedToCreateContext(params());
    assert_eq!(try_ok_or(BRP_OK, 1u8, sub.clone()), Ok(1u8));
    assert_eq!(try_ok_or(9, 1u8, sub.clone()), Err(sub.clone()));
    assert_eq!(try_default_or(9, sub.clone()), Err(sub));
}

#[test]
fn test_firmware_version_payload_passes_through() {
    let version = b"1019 IDE STD   1.43.03 02/02/10 34008187".to_vec();
    assert_eq!(try_ok(BRP_OK, version.clone()), Ok(version));
}

#[test]
fn test_pool_buffer_is_valid_without_initialization() {
    let pool: Buf<u64> = Buf::empty_valid();
    assert_eq!(pool.into_call_value(), None);
}

#[test]
fn test_written_buffer_reads_back_its_value() {
    let mut slot: Buf<u32> = Buf::uninit();
    slot.write(5);
    assert_eq!(slot.read(), 5);
}

#[test]
fn test_default_buffer_is_uninitialized() {
    let slot: Buf<u32> = Default::default();
    assert_eq!(slot, Buf::Uninitialized);
}

#[test]
fn test_pool_release_hands_back_filled_handle_only() {
    let empty: Buf<u64> = Buf::empty_valid();
    assert_eq!(empty.free_mem_pool(), None);
    let mut filled: Buf<u64> = Buf::empty_valid();
    filled.write(400);
    assert_eq!(filled.free_mem_pool(), Some(400));
}

#[test]
fn test_fresh_exec_command_holder_is_callable_after_one_write() {
    let mut p = DesfireExecCommandParams::default();
    assert_eq!(p.pool, Buf::EmptyValid);
    p.cmd_data.write(17);
    let (cmd, pool) = p.call_values();
    assert_eq!(cmd, 17);
    assert_eq!(pool, None);
}

#[test]
fn test_teardown_runs_every_step_once_after_failed_open() {
    let open = try_default(9);
    assert_eq!(open, Err(BrpError::ErrorCode(9)));
    let (actions, outcome) = run_teardown(0, 0, 0);
    assert_eq!(
        actions,
        vec![TeardownAction::Flush, TeardownAction::Close, TeardownAction::Destroy]
    );
    assert_eq!(outcome, Ok(()));
}

#[test]
fn test_teardown_ignores_flush_and_close_failures() {
    let (actions, outcome) = run_teardown(3, 4, BRP_OK);
    assert_eq!(actions.len(), 3);
    assert_eq!(outcome, Ok(()));
}

#[test]
fn test_teardown_reports_destroy_result() {
    let (_, outcome) = run_teardown(BRP_OK, BRP_OK, 7);
    assert_eq!(outcome, Err(BrpError::ErrorCode(7)));
}

#[test]
fn test_null_handle_fails_context_creation_with_params() {
    let r = create_context_outcome(true, false, BRP_OK, 12, params());
    assert_eq!(r, Err(BrpError::FailedToCreateContext(params())));
    let r = create_context_outcome(false, true, BRP_OK, 12, params());
    assert_eq!(r, Err(BrpError::FailedToCreateContext(params())));
}

#[test]
fn test_context_creation_reports_transport_status() {
    assert_eq!(create_context_outcome(false, false, BRP_OK, 12, params()), Ok(12));
    assert_eq!(
        create_context_outcome(false, false, 8, 12, params()),
        Err(BrpError::ErrorCode(8))
    );
}

#[test]
fn test_output_call_reports_data_when_size_known() {
    let data = b"\x01\x02\x03".to_vec();
    assert_eq!(vhl_output_outcome(BRP_OK, true, data.clone()), Ok(Some(data)));
}

#[test]
fn test_output_call_reports_nothing_when_size_unknown() {
    assert_eq!(vhl_output_outcome(BRP_OK, false, b"xy".to_vec()), Ok(None));
}

#[test]
fn test_output_call_reports_failure_code() {
    assert_eq!(
        vhl_output_outcome(6, true, Vec::new()),
        Err(BrpError::ErrorCode(6))
    );
}

#[test]
fn test_no_card_family_selected_by_default() {
    let f = CardFamilies::default();
    assert!(!f.iso14443a && !f.iso14443b && !f.iso15693 && !f.felica);
    assert!(!f.legic_prime && !f.bluetooth_mce && !f.srix && !f.iclass);
    assert!(!f.khz125_part1 && !f.khz125_part2 && !f.iclass_iso14b);
}
