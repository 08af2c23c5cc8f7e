//! The single-flight repack coordinator. At most one repack job is in
//! flight at a time; a start request while one is working is rejected, not
//! queued. The worker reports its outcome into the shared status, and only
//! the scripting runtime's polling tick consumes it — taking back the
//! callback token the job owned — which returns the coordinator to idle.

use vstd::prelude::*;

verus! {

/// Lifecycle of the one repack job. The token is an opaque handle into the
/// scripting runtime's callback-registration table; the job owns it from
/// acceptance until the outcome is consumed.
#[derive(Debug)]
pub enum RepackStatus {
    Idle,
    Working { token: i32 },
    Done { token: i32, hash: String },
    Failed { token: i32, message: String },
}

/// What a start request does: rejected while a job is working or while
/// there is nothing to repack; otherwise the job becomes the working one,
/// and the token of an unconsumed earlier outcome is released.
pub open spec fn spec_start(s: RepackStatus, content_changed: bool, token: i32) -> (
    bool,
    Option<i32>,
    RepackStatus,
) {
    if s matches RepackStatus::Working { .. } {
        (false, None, s)
    } else if !content_changed {
        (false, None, s)
    } else {
        let released = match s {
            RepackStatus::Done { token: t, .. } => Some(t),
            RepackStatus::Failed { token: t, .. } => Some(t),
            _ => None,
        };
        (true, released, RepackStatus::Working { token })
    }
}

/// What a successful worker report does to a working job.
pub open spec fn spec_finish_ok(s: RepackStatus, hash: String) -> RepackStatus {
    match s {
        RepackStatus::Working { token } => RepackStatus::Done { token, hash },
        _ => s,
    }
}

/// What a failed worker report does to a working job.
pub open spec fn spec_finish_failed(s: RepackStatus, message: String) -> RepackStatus {
    match s {
        RepackStatus::Working { token } => RepackStatus::Failed { token, message },
        _ => s,
    }
}

/// What the polling tick consumes: a finished outcome with its token, the
/// coordinator returning to idle; nothing otherwise.
pub open spec fn spec_poll(s: RepackStatus) -> (
    Option<(i32, Result<String, String>)>,
    RepackStatus,
) {
    match s {
        RepackStatus::Done { token, hash } => (
            Some((token, Ok(hash))),
            RepackStatus::Idle,
        ),
        RepackStatus::Failed { token, message } => (
            Some((token, Err(message))),
            RepackStatus::Idle,
        ),
        _ => (None, s),
    }
}

/// Law: a start issued while a job is working is rejected, changes
/// nothing, and so cannot alter what the in-flight job eventually reports,
/// nor what the polling tick then consumes.
pub proof fn lemma_single_flight(
    s: RepackStatus,
    content_changed: bool,
    token: i32,
    hash: String,
    message: String,
)
    requires
        s matches RepackStatus::Working { .. },
    ensures
        !spec_start(s, content_changed, token).0,
        spec_start(s, content_changed, token).2 == s,
        spec_finish_ok(spec_start(s, content_changed, token).2, hash) == spec_finish_ok(s, hash),
        spec_finish_failed(spec_start(s, content_changed, token).2, message) == spec_finish_failed(
            s,
            message,
        ),
        spec_poll(spec_finish_ok(spec_start(s, content_changed, token).2, hash)) == spec_poll(
            spec_finish_ok(s, hash),
        ),
{
}

/// The coordinator owning the shared job status. The caller holds it under
/// the mutual-exclusion discipline the runtime requires; the non-blocking
/// try-lock that turns contention into rejection lives with the caller.
pub struct RepackCoordinator {
    status: RepackStatus,
}

impl RepackCoordinator {
    pub closed spec fn status(&self) -> RepackStatus {
        self.status
    }

    pub fn new() -> (r: RepackCoordinator)
        ensures
            r.status() == RepackStatus::Idle,
    {
        RepackCoordinator { status: RepackStatus::Idle }
    }

    pub fn is_working(&self) -> (r: bool)
        ensures
            r == (self.status() matches RepackStatus::Working { .. }),
    {
        match &self.status {
            RepackStatus::Working { .. } => true,
            _ => false,
        }
    }

    pub fn is_idle(&self) -> (r: bool)
        ensures
            r == (self.status() matches RepackStatus::Idle),
    {
        match &self.status {
            RepackStatus::Idle => true,
            _ => false,
        }
    }

    /// Requests a repack. Accepted only when no job is working and the
    /// store changed since the last repack; acceptance hands the job the
    /// callback token and releases the token of any unconsumed outcome.
    pub fn start(&mut self, content_changed: bool, token: i32) -> (r: (bool, Option<i32>))
        ensures
            ({
                let (accepted, released, next) = spec_start(
                    old(self).status(),
                    content_changed,
                    token,
                );
                r.0 == accepted && r.1 == released && final (self).status() == next
            }),
    {
        match &self.status {
            RepackStatus::Working { .. } => (false, None),
            _ => {
                if !content_changed {
                    return (false, None);
                }
                let released = match &self.status {
                    RepackStatus::Done { token: t, .. } => Some(*t),
                    RepackStatus::Failed { token: t, .. } => Some(*t),
                    _ => None,
                };
                self.status = RepackStatus::Working { token };
                (true, released)
            },
        }
    }

    /// The worker reports success with the served archive's identifier.
    pub fn finish_ok(&mut self, hash: String)
        requires
            old(self).status() matches RepackStatus::Working { .. },
        ensures
            final (self).status() == spec_finish_ok(old(self).status(), hash),
    {
        let token = match &self.status {
            RepackStatus::Working { token } => *token,
            _ => vstd::pervasive::unreached(),
        };
        self.status = RepackStatus::Done { token, hash };
    }

    /// The worker reports failure with its message.
    pub fn finish_failed(&mut self, message: String)
        requires
            old(self).status() matches RepackStatus::Working { .. },
        ensures
            final (self).status() == spec_finish_failed(old(self).status(), message),
    {
        let token = match &self.status {
            RepackStatus::Working { token } => *token,
            _ => vstd::pervasive::unreached(),
        };
        self.status = RepackStatus::Failed { token, message };
    }

    /// The polling tick takes a finished outcome, if there is one, and the
    /// coordinator returns to idle.
    pub fn poll(&mut self) -> (r: Option<(i32, Result<String, String>)>)
        ensures
            ({
                let (out, next) = spec_poll(old(self).status());
                r == out && final (self).status() == next
            }),
    {
        match &self.status {
            RepackStatus::Done { token, hash } => {
                let t = *token;
                let h = hash.clone();
                self.status = RepackStatus::Idle;
                Some((t, Ok(h)))
            },
            RepackStatus::Failed { token, message } => {
                let t = *token;
                let m = message.clone();
                self.status = RepackStatus::Idle;
                Some((t, Err(m)))
            },
            _ => None,
        }
    }
}

} // verus!
