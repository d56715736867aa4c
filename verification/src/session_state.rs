//! The stages of a timed typing session.

use vstd::prelude::*;

verus! {

/// Where a typing session stands.
#[derive(Debug, Clone, Copy, PartialEq, Eq)]
pub enum SessionStatus {
    /// The session waits for the first key.
    NotStarted,
    /// The session is running.
    Active,
    /// The session's time is up.
    Finished,
}

/// What happens to a session.
#[derive(Debug, Clone, Copy, PartialEq, Eq)]
pub enum SessionEvent {
    /// The first key was typed.
    Start,
    /// The clock was read: `expired` tells whether the session's time is up.
    Tick { expired: bool },
    /// A new session is made ready.
    Renew,
}

/// The stage after an event: a session starts only once, ends only while
/// it runs, and can always be made ready again.
pub open spec fn status_after(status: SessionStatus, event: SessionEvent) -> SessionStatus {
    match (status, event) {
        (SessionStatus::NotStarted, SessionEvent::Start) => SessionStatus::Active,
        (SessionStatus::Active, SessionEvent::Tick { expired: true }) => SessionStatus::Finished,
        (_, SessionEvent::Renew) => SessionStatus::NotStarted,
        _ => status,
    }
}

impl SessionStatus {
    /// The stage after `event`, and whether the session has just finished.
    pub fn step(self, event: SessionEvent) -> (r: (SessionStatus, bool))
        ensures
            r.0 == status_after(self, event),
            r.1 == (self == SessionStatus::Active && r.0 == SessionStatus::Finished),
    {
        match (self, event) {
            (SessionStatus::NotStarted, SessionEvent::Start) => (SessionStatus::Active, false),
            (SessionStatus::Active, SessionEvent::Tick { expired: true }) => (SessionStatus::Finished, true),
            (_, SessionEvent::Renew) => (SessionStatus::NotStarted, false),
            _ => (self, false),
        }
    }

    /// Whether the session is running.
    pub fn is_active(self) -> (r: bool)
        ensures
            r == (self == SessionStatus::Active),
    {
        matches!(self, SessionStatus::Active)
    }

    /// Whether the session's time is up.
    pub fn is_finished(self) -> (r: bool)
        ensures
            r == (self == SessionStatus::Finished),
    {
        matches!(self, SessionStatus::Finished)
    }
}

/// The count of a typing session: where it started, how many characters
/// were typed in it, and how many were taken back.
#[derive(Debug, Clone, Copy, PartialEq, Eq)]
pub struct SessionTally {
    pub status: SessionStatus,
    pub start_position: usize,
    pub chars_typed: usize,
    pub errors: usize,
}

/// One more, unless the count is at its end.
pub open spec fn one_more(n: usize) -> usize {
    if n < usize::MAX {
        (n + 1) as usize
    } else {
        n
    }
}

impl SessionTally {
    /// The tally of a session that has not started.
    pub fn new() -> (t: SessionTally)
        ensures
            t == (SessionTally { status: SessionStatus::NotStarted, start_position: 0, chars_typed: 0, errors: 0 }),
    {
        SessionTally { status: SessionStatus::NotStarted, start_position: 0, chars_typed: 0, errors: 0 }
    }

    /// Starts the session at `current_position`, if it has not started
    /// yet, and tells whether it did.
    pub fn start(&mut self, current_position: usize) -> (started: bool)
        ensures
            started == (old(self).status == SessionStatus::NotStarted),
            started ==> *final(self) == (SessionTally {
                status: SessionStatus::Active,
                start_position: current_position,
                chars_typed: 0,
                errors: 0,
            }),
            !started ==> *final(self) == *old(self),
    {
        match self.status {
            SessionStatus::NotStarted => {
                self.status = SessionStatus::Active;
                self.start_position = current_position;
                self.chars_typed = 0;
                self.errors = 0;
                true
            },
            _ => false,
        }
    }

    /// Counts a typed character, while the session runs.
    pub fn record_char_typed(&mut self)
        ensures
            *final(self) == if old(self).status == SessionStatus::Active {
                SessionTally { chars_typed: one_more(old(self).chars_typed), ..*old(self) }
            } else {
                *old(self)
            },
    {
        if self.status.is_active() && self.chars_typed < usize::MAX {
            self.chars_typed += 1;
        }
    }

    /// Counts a character that was taken back, while the session runs:
    /// one typed character less, if any is counted, and one error more.
    pub fn record_backspace(&mut self)
        ensures
            *final(self) == if old(self).status == SessionStatus::Active {
                SessionTally {
                    chars_typed: if old(self).chars_typed > 0 {
                        (old(self).chars_typed - 1) as usize
                    } else {
                        0
                    },
                    errors: one_more(old(self).errors),
                    ..*old(self)
                }
            } else {
                *old(self)
            },
    {
        if self.status.is_active() {
            if self.chars_typed > 0 {
                self.chars_typed -= 1;
            }
            if self.errors < usize::MAX {
                self.errors += 1;
            }
        }
    }

    /// Takes note of the clock: a running session whose time is up is
    /// finished. Tells whether the session has just finished.
    pub fn update(&mut self, expired: bool) -> (finished: bool)
        ensures
            finished == (old(self).status == SessionStatus::Active && expired),
            *final(self) == (SessionTally {
                status: status_after(old(self).status, SessionEvent::Tick { expired }),
                ..*old(self)
            }),
    {
        let (status, finished) = self.status.step(SessionEvent::Tick { expired });
        self.status = status;
        finished
    }

    /// Makes a new session ready, to start at `current_position`.
    pub fn start_new_session(&mut self, current_position: usize)
        ensures
            *final(self) == (SessionTally {
                status: SessionStatus::NotStarted,
                start_position: current_position,
                chars_typed: 0,
                errors: 0,
            }),
    {
        self.status = SessionStatus::NotStarted;
        self.start_position = current_position;
        self.chars_typed = 0;
        self.errors = 0;
    }

    /// Forgets the session.
    pub fn reset(&mut self)
        ensures
            *final(self) == (SessionTally {
                status: SessionStatus::NotStarted,
                start_position: 0,
                chars_typed: 0,
                errors: 0,
            }),
    {
        self.start_new_session(0);
    }

    /// Whether the session is running.
    pub fn is_active(&self) -> (r: bool)
        ensures
            r == (self.status == SessionStatus::Active),
    {
        self.status.is_active()
    }

    /// Whether the session's time is up.
    pub fn is_finished(&self) -> (r: bool)
        ensures
            r == (self.status == SessionStatus::Finished),
    {
        self.status.is_finished()
    }
}

} // verus!
