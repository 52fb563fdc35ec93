use vstd::prelude::*;
use crate::env::{ENTRY_ENV_BYTES, EntryEnv, elapsed_nanos_between};

verus! {

/// Fixed bytes of an `EntryValue` besides its result's contents: the
/// captured environment, the result's tag and the header of its buffer.
pub const ENTRY_VALUE_FIXED_BYTES: u64 = ENTRY_ENV_BYTES + 32;

/// The externally observable outcome of a query.
#[derive(Clone, Debug, PartialEq, Eq)]
pub enum WasmResult {
    /// The program replied with these bytes.
    Reply(Vec<u8>),
    /// The program rejected the call for this reason.
    Reject(String),
}

pub enum WasmResultView {
    Reply(Seq<u8>),
    Reject(Seq<char>),
}

impl View for WasmResult {
    type V = WasmResultView;

    open spec fn view(&self) -> WasmResultView {
        match self {
            WasmResult::Reply(b) => WasmResultView::Reply(b@),
            WasmResult::Reject(s) => WasmResultView::Reject(s@),
        }
    }
}

/// Bytes of a result's payload: the reply's length, or the reject reason's
/// length in UTF-8 bytes.
pub open spec fn result_payload_bytes(r: WasmResultView) -> nat {
    match r {
        WasmResultView::Reply(b) => b.len(),
        WasmResultView::Reject(s) => vstd::utf8::encode_utf8(s).len(),
    }
}

/// A copy of a byte vector.
fn copy_bytes(b: &Vec<u8>) -> (r: Vec<u8>)
    ensures
        r@ == b@,
{
    let r = b.clone();
    assert(r@ == b@);
    r
}

impl WasmResult {
    /// A copy of this result.
    pub fn duplicate(&self) -> (r: WasmResult)
        ensures
            r@ == self@,
    {
        match self {
            WasmResult::Reply(b) => WasmResult::Reply(copy_bytes(b)),
            WasmResult::Reject(s) => WasmResult::Reject(s.clone()),
        }
    }

    /// Bytes of this result's payload.
    pub fn payload_bytes(&self) -> (r: usize)
        ensures
            r == result_payload_bytes(self@),
    {
        match self {
            WasmResult::Reply(b) => b.len(),
            WasmResult::Reject(s) => {
                let bytes: &[u8] = s.as_str().as_bytes();
                bytes.len()
            },
        }
    }
}

/// A memoized query outcome together with the environment it was produced
/// in. Its creation time is the batch time of that environment.
#[derive(Clone, Debug, PartialEq, Eq)]
pub struct EntryValue {
    env: EntryEnv,
    result: WasmResult,
}

pub struct EntryValueView {
    pub env: EntryEnv,
    pub result: WasmResultView,
}

impl EntryValueView {
    pub open spec fn created_at(self) -> u64 {
        self.env.batch_time
    }
}

impl View for EntryValue {
    type V = EntryValueView;

    closed spec fn view(&self) -> EntryValueView {
        EntryValueView { env: self.env, result: self.result@ }
    }
}

/// Storage footprint of a value.
pub open spec fn value_bytes(v: EntryValueView) -> nat {
    (ENTRY_VALUE_FIXED_BYTES + result_payload_bytes(v.result)) as nat
}

impl EntryValue {
    /// Records `result` as produced under `env`.
    pub fn new(env: EntryEnv, result: WasmResult) -> (r: EntryValue)
        ensures
            r@.env == env,
            r@.result == result@,
    {
        EntryValue { env, result }
    }

    /// The environment captured when the result was produced.
    pub fn env(&self) -> (r: EntryEnv)
        ensures
            r == self@.env,
    {
        self.env
    }

    /// The cached result.
    pub fn result(&self) -> (r: &WasmResult)
        ensures
            r@ == self@.result,
    {
        &self.result
    }

    /// Creation time: the batch time of the captured environment.
    pub fn created_at(&self) -> (r: u64)
        ensures
            r == self@.created_at(),
    {
        self.env.batch_time
    }

    /// Nanoseconds since creation, zero when `now` lies before it.
    pub fn elapsed_nanos(&self, now: u64) -> (r: u64)
        ensures
            r == elapsed_nanos_between(self@.created_at(), now),
    {
        self.env.elapsed_nanos_since(now)
    }

    /// A copy of this value.
    pub fn duplicate(&self) -> (r: EntryValue)
        ensures
            r@ == self@,
    {
        EntryValue { env: self.env, result: self.result.duplicate() }
    }

    /// Storage footprint of this value.
    pub fn count_bytes(&self) -> (r: u128)
        ensures
            r == value_bytes(self@),
            r < 0x10_0000_0000_0000_0000,
    {
        ENTRY_VALUE_FIXED_BYTES as u128 + self.result.payload_bytes() as u128
    }
}

} // verus!
