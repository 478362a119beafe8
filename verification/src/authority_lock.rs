//! Taking the store's authority lock at startup when another server may hold
//! it or may have died holding it. The server retries for two seconds; after
//! each failed attempt this module decides, from what the server observed,
//! whether to give up, clean up a stale or corrupt lock, or wait and retry.

use vstd::prelude::*;

use crate::route_errors::has_text;
use crate::text::{chars_of, concat2, concat3, owned, str_eq, u32_decimal};

verus! {

/// How long the server keeps trying, in milliseconds.
pub const LOCK_RETRY_WINDOW_MS: u64 = 2000;

/// How long a lock file may stay unreadable before it counts as corrupt.
pub const CORRUPT_LOCK_GRACE_MS: u64 = 1000;

/// The lock record another server left.
#[derive(Debug)]
pub struct LockRecord {
    pub workspace_root: String,
    pub pid: u32,
    pub started_at_ms: u64,
    /// Whether the recording process is known to have exited.
    pub pid_dead: bool,
}

/// What reading the lock record gave.
#[derive(Debug)]
pub enum LockRead {
    Found(LockRecord),
    Absent,
    Unreadable(String),
}

/// What the server saw after an attempt to take the lock failed.
#[derive(Debug)]
pub struct LockObservation {
    /// The error of the failed attempt.
    pub error: String,
    /// The endpoint and pid the current authority published, when it answers.
    pub live_authority: Option<(String, u32)>,
    pub lock: LockRead,
    pub now_ms: u64,
}

/// What the server does next.
#[derive(Debug)]
pub enum LockStep {
    /// Try to take the lock again at once.
    Retry,
    /// Give up with this error.
    Fail(String),
    /// Remove the lock files of the dead process, then report whether it worked.
    CleanupStale { pid: u32, started_at_ms: u64 },
    /// Remove the unreadable lock file, then report whether it worked.
    CleanupCorrupt,
    /// Sleep briefly, then try again.
    Wait,
}

/// The recovery state: since when the lock file has been unreadable, and
/// when the server gives up.
pub struct LockRecovery {
    pub invalid_since_ms: Option<u64>,
    pub deadline_ms: u64,
}

pub open spec fn sat_add_u64(a: u64, b: u64) -> u64 {
    if a + b > u64::MAX {
        u64::MAX
    } else {
        (a + b) as u64
    }
}

/// The failure text of a lock that stayed unreadable until the deadline.
pub open spec fn unreadable_failure(error: Seq<char>, lock_path: Seq<char>, read_err: Seq<char>) -> Seq<char> {
    error + " (lock_path="@ + lock_path + " read_err="@ + read_err + ")"@
}

impl LockRecovery {
    pub fn new(start_ms: u64) -> (r: LockRecovery)
        ensures
            r.invalid_since_ms is None,
            r.deadline_ms == sat_add_u64(start_ms, LOCK_RETRY_WINDOW_MS),
    {
        let deadline = if start_ms > u64::MAX - LOCK_RETRY_WINDOW_MS {
            u64::MAX
        } else {
            start_ms + LOCK_RETRY_WINDOW_MS
        };
        LockRecovery { invalid_since_ms: None, deadline_ms: deadline }
    }

    /// Decides what follows a failed attempt. A live authority makes the
    /// server give up. A lock record of another workspace makes it give up;
    /// one of a dead process is cleaned up; any other record makes it give
    /// up. Without a record it waits until the deadline. An unreadable record
    /// that has stayed corrupt for over a second is cleaned up; otherwise it
    /// waits until the deadline, then gives up naming the lock file.
    pub fn after_failed_attempt(
        &mut self,
        obs: &LockObservation,
        workspace_root: &str,
        workspace_display: &str,
        lock_path: &str,
    ) -> (r: LockStep)
        ensures
            match obs.live_authority {
                Some((endpoint, pid)) => (r matches LockStep::Fail(m) && m@ == "store already has an authority (endpoint="@
                    + endpoint@ + " pid="@ + crate::text::decimal_text(pid as nat) + ")"@) && *final(self)
                    == *old(self),
                None => match obs.lock {
                    LockRead::Found(rec) => {
                        &&& final(self).invalid_since_ms is None
                        &&& final(self).deadline_ms == old(self).deadline_ms
                        &&& if rec.workspace_root@ != workspace_root@ {
                            r matches LockStep::Fail(m) && m@ == "store authority workspace mismatch: authority_root="@
                                + rec.workspace_root@ + " current_root="@ + workspace_display@
                        } else if rec.pid_dead {
                            r matches LockStep::CleanupStale { pid, started_at_ms } && pid == rec.pid
                                && started_at_ms == rec.started_at_ms
                        } else {
                            r matches LockStep::Fail(m) && m@ == obs.error@
                        }
                    },
                    LockRead::Absent => {
                        &&& *final(self) == *old(self)
                        &&& if obs.now_ms >= old(self).deadline_ms {
                            r matches LockStep::Fail(m) && m@ == obs.error@
                        } else {
                            r is Wait
                        }
                    },
                    LockRead::Unreadable(read_err) => {
                        let since = match old(self).invalid_since_ms {
                            Some(s) => s,
                            None => obs.now_ms,
                        };
                        &&& final(self).invalid_since_ms == Some(since)
                        &&& final(self).deadline_ms == old(self).deadline_ms
                        &&& if has_text(read_err@, "lock json invalid"@) && obs.now_ms > since && obs.now_ms - since
                            > CORRUPT_LOCK_GRACE_MS {
                            r is CleanupCorrupt
                        } else if obs.now_ms >= old(self).deadline_ms {
                            r matches LockStep::Fail(m) && m@ == unreadable_failure(obs.error@, lock_path@, read_err@)
                        } else {
                            r is Wait
                        }
                    },
                },
            },
    {
        match &obs.live_authority {
            Some((endpoint, pid)) => {
                let a = concat3("store already has an authority (endpoint=", endpoint.as_str(), " pid=");
                let p = u32_decimal(*pid);
                return LockStep::Fail(concat3(a.as_str(), p.as_str(), ")"));
            },
            None => {},
        }
        match &obs.lock {
            LockRead::Found(rec) => {
                self.invalid_since_ms = None;
                if !str_eq(rec.workspace_root.as_str(), workspace_root) {
                    let a = concat3(
                        "store authority workspace mismatch: authority_root=",
                        rec.workspace_root.as_str(),
                        " current_root=",
                    );
                    return LockStep::Fail(concat2(a.as_str(), workspace_display));
                }
                if rec.pid_dead {
                    return LockStep::CleanupStale { pid: rec.pid, started_at_ms: rec.started_at_ms };
                }
                LockStep::Fail(obs.error.clone())
            },
            LockRead::Absent => {
                if obs.now_ms >= self.deadline_ms {
                    LockStep::Fail(obs.error.clone())
                } else {
                    LockStep::Wait
                }
            },
            LockRead::Unreadable(read_err) => {
                let since = match self.invalid_since_ms {
                    Some(s) => s,
                    None => obs.now_ms,
                };
                self.invalid_since_ms = Some(since);
                let chars = chars_of(read_err.as_str());
                let corrupt = contains_lock_json_invalid(&chars);
                if corrupt && obs.now_ms > since && obs.now_ms - since > CORRUPT_LOCK_GRACE_MS {
                    return LockStep::CleanupCorrupt;
                }
                if obs.now_ms >= self.deadline_ms {
                    let a = concat3(obs.error.as_str(), " (lock_path=", lock_path);
                    let b = concat3(a.as_str(), " read_err=", read_err.as_str());
                    LockStep::Fail(concat2(b.as_str(), ")"))
                } else {
                    LockStep::Wait
                }
            },
        }
    }

    /// Decides what follows a cleanup: a successful one retries at once (a
    /// corrupt lock's unreadable spell is over); a failed stale cleanup gives
    /// up with the attempt's error; a failed corrupt cleanup waits until the
    /// deadline, then gives up naming the lock file.
    pub fn after_cleanup(
        &mut self,
        stale: bool,
        cleaned: bool,
        error: &str,
        lock_path: &str,
        read_err: &str,
        now_ms: u64,
    ) -> (r: LockStep)
        ensures
            cleaned ==> r is Retry,
            cleaned && !stale ==> final(self).invalid_since_ms is None,
            (cleaned && stale) || !cleaned ==> final(self).invalid_since_ms == old(self).invalid_since_ms,
            final(self).deadline_ms == old(self).deadline_ms,
            !cleaned && stale ==> (r matches LockStep::Fail(m) && m@ == error@),
            !cleaned && !stale ==> if now_ms >= old(self).deadline_ms {
                r matches LockStep::Fail(m) && m@ == unreadable_failure(error@, lock_path@, read_err@)
            } else {
                r is Wait
            },
    {
        if cleaned {
            if !stale {
                self.invalid_since_ms = None;
            }
            return LockStep::Retry;
        }
        if stale {
            return LockStep::Fail(owned(error));
        }
        if now_ms >= self.deadline_ms {
            let a = concat3(error, " (lock_path=", lock_path);
            let b = concat3(a.as_str(), " read_err=", read_err);
            LockStep::Fail(concat2(b.as_str(), ")"))
        } else {
            LockStep::Wait
        }
    }
}

fn contains_lock_json_invalid(chars: &Vec<char>) -> (r: bool)
    ensures
        r == has_text(chars@, "lock json invalid"@),
{
    let needle = "lock json invalid";
    let n = chars_of(needle).len();
    if n > chars.len() {
        proof {
            if has_text(chars@, needle@) {
                let i = choose|i: int|
                    0 <= i && i + needle@.len() <= chars@.len() && #[trigger] chars@.subrange(i, i + needle@.len())
                        == needle@;
            }
        }
        return false;
    }
    let limit = chars.len() - n;
    let mut i: usize = 0;
    loop
        invariant
            n == needle@.len(),
            needle@ == "lock json invalid"@,
            n <= chars@.len(),
            limit == chars@.len() - n,
            i <= limit,
            i + n <= chars@.len(),
            chars@.len() <= usize::MAX,
            forall|j: int| 0 <= j < i ==> #[trigger] chars@.subrange(j, j + n) != needle@,
        decreases limit - i,
    {
        if crate::text::slice_eq_str(chars, i, i + n, needle) {
            assert(chars@.subrange(i as int, i + n) == needle@);
            return true;
        }
        if i == limit {
            proof {
                if has_text(chars@, needle@) {
                    let j = choose|j: int|
                        0 <= j && j + needle@.len() <= chars@.len() && #[trigger] chars@.subrange(j, j + needle@.len())
                            == needle@;
                    assert(j <= i);
                }
            }
            return false;
        }
        i = i + 1;
    }
}

} // verus!
