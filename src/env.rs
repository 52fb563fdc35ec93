use vstd::prelude::*;

verus! {

/// Bytes that an `EntryEnv` occupies: two 64-bit fields and one 128-bit field.
pub const ENTRY_ENV_BYTES: u64 = 32;

/// Nanoseconds from `then` to `now`, clamped at zero when time went backward.
pub open spec fn elapsed_nanos_between(then: u64, now: u64) -> u64 {
    if now >= then {
        (now - then) as u64
    } else {
        0
    }
}

/// The part of a program's state that a query result depends on, sampled
/// when the query runs.
#[derive(Clone, Copy, Debug, PartialEq, Eq, Structural)]
pub struct EntryEnv {
    /// Time of the current execution batch, in nanoseconds since the epoch.
    pub batch_time: u64,
    /// Version counter of the target program.
    pub canister_version: u64,
    /// Current cycles balance of the target program.
    pub canister_balance: u128,
}

/// Which fields of a captured environment differ from the current one.
#[derive(Clone, Copy, Debug, PartialEq, Eq, Structural)]
pub struct EnvMismatch {
    pub batch_time: bool,
    pub canister_version: bool,
    pub canister_balance: bool,
}

impl EnvMismatch {
    pub open spec fn spec_any(self) -> bool {
        self.batch_time || self.canister_version || self.canister_balance
    }

    /// Whether at least one field differs.
    #[verifier::when_used_as_spec(spec_any)]
    pub fn any(self) -> (r: bool)
        ensures
            r == self.spec_any(),
    {
        self.batch_time || self.canister_version || self.canister_balance
    }
}

impl EntryEnv {
    pub open spec fn spec_mismatch(self, current: EntryEnv) -> EnvMismatch {
        EnvMismatch {
            batch_time: self.batch_time != current.batch_time,
            canister_version: self.canister_version != current.canister_version,
            canister_balance: self.canister_balance != current.canister_balance,
        }
    }

    /// Compares this captured environment with `current` field by field.
    #[verifier::when_used_as_spec(spec_mismatch)]
    pub fn mismatch(self, current: EntryEnv) -> (r: EnvMismatch)
        ensures
            r == self.spec_mismatch(current),
            r.spec_any() <==> self != current,
    {
        EnvMismatch {
            batch_time: self.batch_time != current.batch_time,
            canister_version: self.canister_version != current.canister_version,
            canister_balance: self.canister_balance != current.canister_balance,
        }
    }

    /// Nanoseconds elapsed from this environment's batch time to `now`,
    /// zero when `now` lies before it.
    pub fn elapsed_nanos_since(self, now: u64) -> (r: u64)
        ensures
            r == elapsed_nanos_between(self.batch_time, now),
    {
        if now >= self.batch_time {
            now - self.batch_time
        } else {
            0
        }
    }
}

} // verus!
