use vstd::prelude::*;

use crate::app::App;
use crate::keycheck::{is_ctrl_c, is_escape, Input};
use crate::session::{elapsed_until, lemma_elapsed_grows, Action, Mode, Session};
use crate::{AppError, AppResult};

verus! {

/// The state of a replay, as the contracts see it.
pub struct ReplayState {
    /// The session that the recorded keys are played into.
    pub session: Session,
    /// The recorded keys, each with the time since the key before.
    pub log: Seq<(u64, Input)>,
    /// How many keys were played.
    pub position: int,
    /// The time on the replay's own clock, which starts at 0: the sum of the
    /// times of the keys played.
    pub clock: u64,
}

impl ReplayState {
    /// What holds of every replay.
    pub open spec fn wf(self) -> bool {
        &&& self.session.wf()
        &&& 0 <= self.position <= self.log.len()
        &&& self.clock == elapsed_until(self.log, self.position)
        &&& elapsed_until(self.log, self.log.len() as int) <= u64::MAX
    }

    /// Every key was played.
    pub open spec fn is_done(self) -> bool {
        self.position >= self.log.len()
    }

    /// The time on the replay's clock at which the next key is due.
    pub open spec fn next_time(self) -> u64 {
        (self.clock + self.log[self.position].0) as u64
    }

    /// The next key is played at the time it is due: a session that is
    /// typing takes it as typed at that time, a session that is finished
    /// ignores it.
    pub open spec fn step(self, height: i32, width: i32) -> Result<(ReplayState, Action), AppError> {
        let key = self.log[self.position].1;
        let played = if self.session.mode == Mode::Typing {
            self.session.typing_mode(key, self.next_time(), height, width)
        } else {
            Ok((self.session, Action::Redraw))
        };
        match played {
            Err(e) => Err(e),
            Ok((session, action)) => Ok(
                (
                    ReplayState {
                        session: session,
                        position: self.position + 1,
                        clock: self.next_time(),
                        ..self
                    },
                    action,
                ),
            ),
        }
    }
}

/// A replay of a finished run: its recorded keys are played, at the times
/// between them, into a session in which nothing is typed yet.
pub struct Replay {
    session: App,
    log: Vec<(u64, Input)>,
    position: usize,
    clock: u64,
}

impl View for Replay {
    type V = ReplayState;

    closed spec fn view(&self) -> ReplayState {
        ReplayState {
            session: self.session@,
            log: self.log@,
            position: self.position as int,
            clock: self.clock,
        }
    }
}

/// Whether a key that is pressed during a replay ends it.
pub fn interrupts_replay(key: &Input) -> (interrupts: bool)
    ensures
        interrupts == (*key == Input::KeyExit || *key == Input::Character('\x03')),
{
    is_escape(key) || is_ctrl_c(key)
}

impl App {
    /// Play out a recording of the user's last run: the replay of a
    /// finished session, and `None` while the session is not finished.
    pub fn replay(&self) -> (replay: Option<Replay>)
        requires
            self.wf(),
        ensures
            self@.mode == Mode::Finished ==> replay is Some && replay->0@ == (ReplayState {
                session: self@.reset(),
                log: self@.key_strokes,
                position: 0,
                clock: 0,
            }) && replay->0.wf(),
            self@.mode != Mode::Finished ==> replay is None,
    {
        if self.mode() != Mode::Finished {
            return None;
        }
        let recorded = self.key_strokes();
        let mut log: Vec<(u64, Input)> = Vec::new();
        let mut i: usize = 0;
        while i < recorded.len()
            invariant
                i <= recorded.len(),
                log@ == recorded@.take(i as int),
            decreases recorded.len() - i,
        {
            log.push(recorded[i]);
            assert(recorded@.take(i + 1) =~= recorded@.take(i as int).push(recorded@[i as int]));
            i += 1;
        }
        assert(recorded@.take(recorded.len() as int) =~= recorded@);
        Some(Replay { session: self.fresh_copy(), log, position: 0, clock: 0 })
    }
}

impl Replay {
    /// What holds of every replay.
    pub open spec fn wf(&self) -> bool {
        self@.wf()
    }

    /// The session that the keys are played into.
    pub fn session(&self) -> (session: &App)
        ensures
            session@ == self@.session,
    {
        &self.session
    }

    /// How long to wait before the next key is played, in microseconds;
    /// `None` when every key was played.
    pub fn next_delay(&self) -> (delay: Option<u64>)
        ensures
            self@.is_done() ==> delay is None,
            !self@.is_done() ==> delay == Some(self@.log[self@.position].0),
    {
        if self.position < self.log.len() {
            Some(self.log[self.position].0)
        } else {
            None
        }
    }

    /// Play the next key. Returns what the session asks for, and `None`
    /// when every key was played before. A failure leaves the replay as it
    /// was.
    pub fn step(&mut self, height: i32, width: i32) -> (done: AppResult<Option<Action>>)
        requires
            old(self).wf(),
        ensures
            old(self)@.is_done() ==> done == Ok::<Option<Action>, AppError>(None) && final(self)@
                == old(self)@,
            !old(self)@.is_done() ==> match old(self)@.step(height, width) {
                Ok((after, action)) => done == Ok::<Option<Action>, AppError>(Some(action))
                    && final(self)@ == after,
                Err(e) => done == Err::<Option<Action>, AppError>(e) && final(self)@ == old(
                    self,
                )@,
            },
            final(self).wf(),
    {
        if self.position >= self.log.len() {
            return Ok(None);
        }
        proof {
            lemma_elapsed_grows(self.log@, self.position + 1, self.log@.len() as int);
            lemma_elapsed_grows(self.log@, self.position as int, self.position as int);
        }
        let (delta, key) = self.log[self.position];
        let now: u64 = self.clock + delta;
        let action = if self.session.mode() == Mode::Typing {
            match self.session.typing_mode(&key, now, height, width) {
                Ok(action) => action,
                Err(e) => {
                    return Err(e);
                },
            }
        } else {
            Action::Redraw
        };
        self.position += 1;
        self.clock = now;
        Ok(Some(action))
    }
}

} // verus!
