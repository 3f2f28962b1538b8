//! The session-lifecycle decisions the runtime layer makes around the
//! underlying calls: what a context creation reports, how output-returning
//! calls fold their status and data into a result, and the teardown
//! discipline that runs flush, close and destroy exactly once each on every
//! exit path.
//!
//! The boundary that performs the underlying calls hands the statuses and
//! output values in as plain values; every decision on them is made here.
//!
//! One known quirk of the underlying library: opening a session may report
//! success even when the construction parameters were wrong, because the
//! reader defaults to an opened state. The open status is translated as
//! given, but callers must not take it as proof of a live device.

use vstd::prelude::*;

use crate::buffer::Buf;
use crate::status::{translate_spec, try_default, try_ok, BrpError, BrpResult, ContextParams};

verus! {

/// One step of the session teardown.
#[derive(Debug, Clone, Copy, PartialEq, Eq, Structural)]
pub enum TeardownAction {
    Flush,
    Close,
    Destroy,
}

/// The fixed teardown plan: flush the channel, close it, destroy the
/// context, in that order.
pub open spec fn teardown_actions_spec() -> Seq<TeardownAction> {
    seq![TeardownAction::Flush, TeardownAction::Close, TeardownAction::Destroy]
}

/// How often an action occurs in a teardown trace.
pub open spec fn count_action(s: Seq<TeardownAction>, a: TeardownAction) -> nat
    decreases s.len(),
{
    if s.len() == 0 {
        0
    } else {
        (if s[0] == a {
            1nat
        } else {
            0nat
        }) + count_action(s.drop_first(), a)
    }
}

/// Decides the outcome of a session teardown from the three statuses the
/// underlying calls returned, and records the steps taken. Flush's and
/// close's statuses are deliberately ignored so that teardown proceeds
/// through every step; destroy's translation is what the caller sees. The
/// status that open reported is never consulted: a session whose open
/// failed is torn down the same way.
pub fn run_teardown(flush_status: u32, close_status: u32, destroy_status: u32) -> (r: (
    Vec<TeardownAction>,
    BrpResult<()>,
))
    ensures
        r.0@ == teardown_actions_spec(),
        r.1 == translate_spec(destroy_status, (), BrpError::ErrorCode(destroy_status)),
{
    let mut actions: Vec<TeardownAction> = Vec::new();
    actions.push(TeardownAction::Flush);
    let _ = try_default(flush_status);
    actions.push(TeardownAction::Close);
    let _ = try_default(close_status);
    actions.push(TeardownAction::Destroy);
    let outcome = try_default(destroy_status);
    proof {
        assert(actions@ =~= teardown_actions_spec());
    }
    (actions, outcome)
}

/// A teardown trace performs flush, close and destroy exactly once each —
/// also after a failed open, whose status the teardown never consults.
pub proof fn lemma_teardown_each_step_once(actions: Seq<TeardownAction>)
    requires
        actions == teardown_actions_spec(),
    ensures
        count_action(actions, TeardownAction::Flush) == 1,
        count_action(actions, TeardownAction::Close) == 1,
        count_action(actions, TeardownAction::Destroy) == 1,
{
    let s0 = teardown_actions_spec();
    let s1 = seq![TeardownAction::Close, TeardownAction::Destroy];
    let s2 = seq![TeardownAction::Destroy];
    let s3 = Seq::<TeardownAction>::empty();
    assert(s0.drop_first() =~= s1);
    assert(s1.drop_first() =~= s2);
    assert(s2.drop_first() =~= s3);
    assert(count_action(s3, TeardownAction::Flush) == 0);
    assert(count_action(s3, TeardownAction::Close) == 0);
    assert(count_action(s3, TeardownAction::Destroy) == 0);
    assert(count_action(s2, TeardownAction::Flush) == 0);
    assert(count_action(s1, TeardownAction::Flush) == 0);
    assert(count_action(s2, TeardownAction::Close) == 0);
    assert(count_action(s1, TeardownAction::Close) == 1);
    assert(count_action(s2, TeardownAction::Destroy) == 1);
    assert(count_action(s1, TeardownAction::Destroy) == 1);
}

/// Decides what a context creation reports. A null context or connection
/// handle is a creation failure carrying the construction parameters for
/// diagnosis; otherwise the status of wiring the transport decides, and on
/// success the caller receives the context handle.
pub fn create_context_outcome(
    ctx_is_null: bool,
    con_is_null: bool,
    set_io_status: u32,
    handle: u64,
    params: ContextParams,
) -> (r: BrpResult<u64>)
    ensures
        (ctx_is_null || con_is_null) ==> r == BrpResult::<u64>::Err(
            BrpError::FailedToCreateContext(params),
        ),
        !(ctx_is_null || con_is_null) ==> r == translate_spec(
            set_io_status,
            handle,
            BrpError::ErrorCode(set_io_status),
        ),
{
    if ctx_is_null || con_is_null {
        Err(BrpError::FailedToCreateContext(params))
    } else {
        try_ok(set_io_status, handle)
    }
}

/// Decides what an output-returning call (serial number, card answer)
/// reports: on success, the bytes the call produced when their size was
/// reported, nothing when it was not; on any other status, that status.
pub fn vhl_output_outcome(status: u32, size_known: bool, data: Vec<u8>) -> (r: BrpResult<
    Option<Vec<u8>>,
>)
    ensures
        r == translate_spec(
            status,
            if size_known {
                Some(data)
            } else {
                None
            },
            BrpError::ErrorCode(status),
        ),
{
    if size_known {
        try_ok(status, Some(data))
    } else {
        try_ok(status, None)
    }
}

/// The card families a selection call may look for.
#[derive(Debug, Clone, Copy, PartialEq, Eq, Structural)]
pub struct CardFamilies {
    pub legic_prime: bool,
    pub bluetooth_mce: bool,
    pub khz125_part2: bool,
    pub srix: bool,
    pub khz125_part1: bool,
    pub felica: bool,
    pub iclass: bool,
    pub iclass_iso14b: bool,
    pub iso14443b: bool,
    pub iso15693: bool,
    pub iso14443a: bool,
}

impl Default for CardFamilies {
    /// No family is selected by default; a caller switches on exactly the
    /// families it wants.
    fn default() -> (r: Self)
        ensures
            !r.legic_prime,
            !r.bluetooth_mce,
            !r.khz125_part2,
            !r.srix,
            !r.khz125_part1,
            !r.felica,
            !r.iclass,
            !r.iclass_iso14b,
            !r.iso14443b,
            !r.iso15693,
            !r.iso14443a,
    {
        CardFamilies {
            legic_prime: false,
            bluetooth_mce: false,
            khz125_part2: false,
            srix: false,
            khz125_part1: false,
            felica: false,
            iclass: false,
            iclass_iso14b: false,
            iso14443b: false,
            iso15693: false,
            iso14443a: false,
        }
    }
}

/// The parameter holder of the command-execution call: the command bytes go
/// in by value, the response storage is written by the call, and the memory
/// pool travels as the empty-but-valid sentinel unless the underlying
/// library has filled it.
#[derive(Debug, Clone, PartialEq, Eq)]
pub struct DesfireExecCommandParams {
    pub cmd_code: u32,
    pub cmd_data: Buf<u64>,
    pub cmd_data_len: u64,
    pub expected_response_len: u64,
    pub crypto_mode: u32,
    pub flags: u32,
    pub response: Buf<u64>,
    pub response_len: Buf<u64>,
    pub pool: Buf<u64>,
}

impl Default for DesfireExecCommandParams {
    /// Every ordinary buffer starts uninitialized; the pool starts as the
    /// empty-but-valid sentinel, so a fresh holder is safe to hand to the
    /// call without writing the pool first.
    fn default() -> (r: Self)
        ensures
            r.cmd_code == 0,
            r.cmd_data == Buf::<u64>::Uninitialized,
            r.cmd_data_len == 0,
            r.expected_response_len == 0,
            r.crypto_mode == 0,
            r.flags == 0,
            r.response == Buf::<u64>::Uninitialized,
            r.response_len == Buf::<u64>::Uninitialized,
            r.pool == Buf::<u64>::EmptyValid,
            r.pool.call_by_value_ok(),
    {
        DesfireExecCommandParams {
            cmd_code: 0,
            cmd_data: Buf::uninit(),
            cmd_data_len: 0,
            expected_response_len: 0,
            crypto_mode: 0,
            flags: 0,
            response: Buf::uninit(),
            response_len: Buf::uninit(),
            pool: Buf::empty_valid(),
        }
    }
}

impl DesfireExecCommandParams {
    /// Marshals the by-value arguments of the command-execution call: the
    /// command bytes must have been written, while the pool may stand as
    /// its sentinel, handed on as nothing. The output buffers are not read
    /// here at all — the call writes into them.
    pub fn call_values(self) -> (r: (u64, Option<u64>))
        requires
            self.cmd_data.is_initialized(),
            self.pool.call_by_value_ok(),
        ensures
            self.cmd_data == Buf::Initialized(r.0),
            self.pool is Initialized ==> self.pool == Buf::Initialized(r.1.unwrap()) && r.1
                is Some,
            self.pool is EmptyValid ==> r.1 is None,
    {
        let v = self.cmd_data.read();
        let p = self.pool.into_call_value();
        (v, p)
    }
}

} // verus!
