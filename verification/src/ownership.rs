use vstd::prelude::*;

verus! {

/// Whether the screen is locked for a session: while it runs unpaused and
/// either the user locked it or a script holds screen ownership.
pub open spec fn lock_rule(closed: bool, paused: bool, manual_lock: bool, owned: bool) -> bool {
    !closed && !paused && (manual_lock || owned)
}

/// The screen-ownership state of one script session. A script holds
/// ownership through a token; while it does (or while the user locked the
/// screen) and the session runs unpaused, clicks outside the overlay are
/// blocked. A closed session never locks and no longer reports.
#[derive(Clone, Copy, Debug, Default)]
pub struct ScreenOwnership {
    pub closed: bool,
    pub owned: bool,
    pub paused: bool,
    pub manual_lock: bool,
    pub attached: bool,
}

/// The message a script gets when it asks for ownership of a stopped session.
pub const OWNERSHIP_UNAVAILABLE: &'static str = "screen ownership is unavailable: script session stopped";

/// The answer to a request for screen ownership.
#[derive(Clone, Debug, PartialEq, Eq)]
pub enum Acquire {
    /// Granted; the lock state to publish, if attached.
    Granted(Option<bool>),
    /// Another script holds ownership; ask again after it is released.
    Wait,
    /// The session is closed; the message to fail with.
    Refused(String),
}

/// What a request for ownership does to the session (`before` to `after`),
/// and its answer.
pub open spec fn acquire_outcome(before: ScreenOwnership, after: ScreenOwnership, granted: Acquire) -> bool {
    if before.closed {
        after == before && (granted matches Acquire::Refused(m) && m@ == OWNERSHIP_UNAVAILABLE@)
    } else if before.owned {
        after == before && granted == Acquire::Wait
    } else {
        after == (ScreenOwnership { owned: true, ..before }) && granted == Acquire::Granted(after.report())
    }
}

impl ScreenOwnership {
    /// Whether the screen is locked now.
    pub open spec fn locked(&self) -> bool {
        lock_rule(self.closed, self.paused, self.manual_lock, self.owned)
    }

    /// What the session reports after a change: the lock state, when it is
    /// attached to the lock and the overlay.
    pub open spec fn report(&self) -> Option<bool> {
        if self.attached {
            Some(self.locked())
        } else {
            None
        }
    }

    /// The lock state to publish, if attached.
    pub fn update_lock(&self) -> (report: Option<bool>)
        ensures
            report == self.report(),
    {
        if self.attached {
            Some(!self.closed && !self.paused && (self.manual_lock || self.owned))
        } else {
            None
        }
    }

    /// Attaches the session to the lock, taking over its current manual lock.
    pub fn attach(&mut self, lock_enabled: bool) -> (report: Option<bool>)
        ensures
            final(self).attached,
            final(self).manual_lock == lock_enabled,
            final(self).closed == old(self).closed,
            final(self).owned == old(self).owned,
            final(self).paused == old(self).paused,
            report == final(self).report(),
    {
        self.manual_lock = lock_enabled;
        self.attached = true;
        self.update_lock()
    }

    /// The user locks the screen.
    pub fn set_manual_lock(&mut self) -> (report: Option<bool>)
        ensures
            *final(self) == (ScreenOwnership { manual_lock: true, ..*old(self) }),
            report == final(self).report(),
    {
        self.manual_lock = true;
        self.update_lock()
    }

    /// Pauses or resumes the session. Pausing also drops a manual lock: a
    /// plain resume does not bring it back.
    pub fn set_paused(&mut self, paused: bool) -> (report: Option<bool>)
        ensures
            final(self).paused == paused,
            final(self).manual_lock == (old(self).manual_lock && !paused),
            final(self).closed == old(self).closed,
            final(self).owned == old(self).owned,
            final(self).attached == old(self).attached,
            report == final(self).report(),
    {
        self.paused = paused;
        if paused {
            self.manual_lock = false;
        }
        self.update_lock()
    }

    /// Closes the session: it unlocks, reports that once, and detaches.
    pub fn close(&mut self) -> (report: Option<bool>)
        ensures
            final(self).closed,
            !final(self).attached,
            report == (if old(self).attached {
                Some(false)
            } else {
                None
            }),
            final(self).owned == old(self).owned,
            final(self).paused == old(self).paused,
            final(self).manual_lock == old(self).manual_lock,
    {
        self.closed = true;
        let report = self.update_lock();
        self.attached = false;
        report
    }

    /// A script asks for ownership. Ownership has one holder at a time: while
    /// another script holds it the request waits (ask again after a
    /// release); a closed session grants none, and a waiting request is
    /// refused once it closes.
    pub fn acquire(&mut self) -> (granted: Acquire)
        ensures
            acquire_outcome(*old(self), *final(self), granted),
    {
        if self.closed {
            return Acquire::Refused(String::from_str(OWNERSHIP_UNAVAILABLE));
        }
        if self.owned {
            return Acquire::Wait;
        }
        self.owned = true;
        Acquire::Granted(self.update_lock())
    }

    /// A script gave its ownership back (or its token was collected).
    pub fn release(&mut self) -> (report: Option<bool>)
        ensures
            *final(self) == (ScreenOwnership { owned: false, ..*old(self) }),
            report == final(self).report(),
    {
        self.owned = false;
        self.update_lock()
    }
}

/// Law: a paused or closed session never locks the screen.
pub proof fn law_paused_or_closed_never_locks(s: ScreenOwnership)
    requires
        s.paused || s.closed,
    ensures
        !s.locked(),
{
}

/// Law: pausing drops a manual lock, so after a resume the screen is
/// locked only while a script holds ownership.
pub proof fn law_resume_does_not_restore_a_manual_lock(s: ScreenOwnership)
    requires
        !s.closed,
    ensures
        ({
            let paused = ScreenOwnership { paused: true, manual_lock: false, ..s };
            let resumed = ScreenOwnership { paused: false, ..paused };
            resumed.locked() == resumed.owned
        }),
{
}

/// Law: releasing ownership leaves the screen locked only by a manual lock.
pub proof fn law_release_keeps_only_a_manual_lock(s: ScreenOwnership)
    ensures
        (ScreenOwnership { owned: false, ..s }).locked() == (!s.closed && !s.paused && s.manual_lock),
{
}

/// Law: ownership has one holder at a time: once a request is granted, the
/// next one waits and changes nothing, and after the holder releases it a
/// request is granted again.
pub proof fn law_one_owner_at_a_time(
    s: ScreenOwnership,
    first: ScreenOwnership,
    first_answer: Acquire,
    second: ScreenOwnership,
    second_answer: Acquire,
    again: ScreenOwnership,
    again_answer: Acquire,
)
    requires
        !s.closed,
        !s.owned,
        acquire_outcome(s, first, first_answer),
        acquire_outcome(first, second, second_answer),
        acquire_outcome(ScreenOwnership { owned: false, ..first }, again, again_answer),
    ensures
        first_answer is Granted,
        first.owned,
        second_answer == Acquire::Wait,
        second == first,
        again_answer is Granted,
{
}

} // verus!
