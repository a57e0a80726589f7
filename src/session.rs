//! The archival session: at most one mirroring run is active at a time.
use vstd::prelude::*;

verus! {

/// One mirroring run. Times are seconds since the Unix epoch.
pub struct Save {
    pub start_time: i64,
    pub end_time: Option<i64>,
    pub path: String,
}

/// A run as a value: start, end, root path.
pub type SaveModel = (i64, Option<i64>, Seq<char>);

impl Save {
    pub open spec fn model(&self) -> SaveModel {
        (self.start_time, self.end_time, self.path@)
    }

    pub fn snapshot(&self) -> (r: Save)
        ensures
            r.model() == self.model(),
    {
        Save { start_time: self.start_time, end_time: self.end_time, path: self.path.clone() }
    }
}

#[derive(Debug, Clone, Copy, PartialEq, Eq, Structural)]
pub enum SessionError {
    /// A run is already going on.
    AlreadyActive,
    /// No run is going on.
    NotActive,
}

/// The session state: the last run started, if any.
pub struct Session {
    pub current: Option<Save>,
}

/// A run is active when it has started and not ended.
pub open spec fn active(s: Option<SaveModel>) -> bool {
    s matches Some(m) && m.1 is None
}

/// The state after a start at `now`, and its outcome.
pub open spec fn after_start(s: Option<SaveModel>, now: i64) -> (Option<SaveModel>, Result<(), SessionError>) {
    if active(s) {
        (s, Err(SessionError::AlreadyActive))
    } else {
        (Some((now, None, Seq::empty())), Ok(()))
    }
}

/// The state after an end at `now`, and its outcome.
pub open spec fn after_end(s: Option<SaveModel>, now: i64) -> (Option<SaveModel>, Result<(), SessionError>) {
    match s {
        Some(m) if m.1 is None => (Some((m.0, Some(now), m.2)), Ok(())),
        _ => (s, Err(SessionError::NotActive)),
    }
}

impl Session {
    pub open spec fn model(&self) -> Option<SaveModel> {
        match self.current {
            Some(s) => Some(s.model()),
            None => None,
        }
    }

    /// No run yet.
    pub fn new() -> (r: Session)
        ensures
            r.model() is None,
    {
        Session { current: None }
    }

    /// Starts a run at `now`, unless one is active.
    pub fn start(&mut self, now: i64) -> (r: Result<(), SessionError>)
        ensures
            (final(self).model(), r) == after_start(old(self).model(), now),
    {
        if let Some(s) = &self.current {
            if s.end_time.is_none() {
                return Err(SessionError::AlreadyActive);
            }
        }
        let s = Save { start_time: now, end_time: None, path: String::new() };
        self.current = Some(s);
        assert(self.model() == Some((now, None::<i64>, Seq::<char>::empty())));
        Ok(())
    }

    /// Ends the active run at `now`.
    pub fn end(&mut self, now: i64) -> (r: Result<(), SessionError>)
        ensures
            (final(self).model(), r) == after_end(old(self).model(), now),
    {
        match &mut self.current {
            Some(s) => {
                if s.end_time.is_some() {
                    return Err(SessionError::NotActive);
                }
                s.end_time = Some(now);
                Ok(())
            },
            None => Err(SessionError::NotActive),
        }
    }

    /// The current run, or `None` when no run was ever started.
    pub fn current(&self) -> (r: Option<Save>)
        ensures
            match r {
                Some(s) => self.model() == Some(s.model()),
                None => self.model() is None,
            },
    {
        match &self.current {
            Some(s) => Some(s.snapshot()),
            None => None,
        }
    }
}

/// Starting a run twice in a row, with no end between, fails the second time
/// with `AlreadyActive` and leaves the first run in place.
pub proof fn start_twice_is_refused(s: Option<SaveModel>, t1: i64, t2: i64)
    ensures
        after_start(after_start(s, t1).0, t2) == (after_start(s, t1).0, Err::<(), SessionError>(
            SessionError::AlreadyActive,
        )),
{
}

} // verus!
