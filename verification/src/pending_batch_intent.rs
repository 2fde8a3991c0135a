//! A batch signing request received over HTTP, waiting for the user to
//! confirm it in the app.

use vstd::prelude::*;
use crate::clock;

verus! {

/// A pending batch intent: the PDF paths, where to write the signed files,
/// the staging directory of uploaded files (removed on expiry or when the
/// batch ends) and when it was created (Unix seconds).
#[derive(Clone, Debug)]
pub struct PendingBatchIntent {
    pub inputs: Vec<String>,
    pub output_dir: Option<String>,
    pub staging_dir: Option<String>,
    pub created_unix: u64,
}

/// An intent created at `created` has expired at `now` when more than
/// `max_secs` seconds have passed (`now.saturating_sub(created) > max_secs`).
pub open spec fn expired_at(created: u64, now: u64, max_secs: u64) -> bool {
    now > created && now - created > max_secs
}

impl PendingBatchIntent {
    /// An intent read back from storage, with its recorded creation time.
    pub fn restore_from_storage(
        inputs: Vec<String>,
        output_dir: Option<String>,
        staging_dir: Option<String>,
        created_unix: u64,
    ) -> (r: Self)
        ensures
            r.inputs == inputs,
            r.output_dir == output_dir,
            r.staging_dir == staging_dir,
            r.created_unix == created_unix,
    {
        PendingBatchIntent { inputs, output_dir, staging_dir, created_unix }
    }

    /// A new intent, stamped with the current time (`0` if the clock reads before the epoch).
    pub fn new(inputs: Vec<String>, output_dir: Option<String>, staging_dir: Option<String>) -> (r:
        Self)
        ensures
            r.inputs == inputs,
            r.output_dir == output_dir,
            r.staging_dir == staging_dir,
    {
        let created_unix = clock::unix_now_or_zero();
        PendingBatchIntent { inputs, output_dir, staging_dir, created_unix }
    }

    /// Whether the intent has expired at time `now`, for a limit of `max_secs`.
    pub fn is_expired_at(&self, now: u64, max_secs: u64) -> (r: bool)
        ensures
            r == expired_at(self.created_unix, now, max_secs),
    {
        now > self.created_unix && now - self.created_unix > max_secs
    }

    /// Whether the intent has expired now, for a limit of `max_secs`.
    pub fn is_expired(&self, max_secs: u64) -> (r: bool)
        ensures
            exists|now: u64| r == expired_at(self.created_unix, now, max_secs),
            self.created_unix as int + max_secs as int >= u64::MAX ==> !r,
    {
        let now = clock::unix_now_or_zero();
        self.is_expired_at(now, max_secs)
    }
}

/// An intent never expires before its limit has passed, and once expired it stays expired.
pub proof fn law_expiry_is_monotone(created: u64, t1: u64, t2: u64, max_secs: u64)
    requires
        t1 <= t2,
    ensures
        expired_at(created, t1, max_secs) ==> expired_at(created, t2, max_secs),
        t1 <= created + max_secs ==> !expired_at(created, t1, max_secs),
{
}

} // verus!
