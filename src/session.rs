//! The session driver: walks the active mode's steps for one role, one step
//! per tick, handing each to a caller-supplied hook that performs it.
use vstd::prelude::*;

use crate::fallback::{FallbackError, PipeState};
use crate::steps::{HandshakeStep, Role};

verus! {

/// What a caller supplies to perform a step on the network. An
/// implementation must override both `performed` and `last_rejection` with
/// a description of its own state: under the defaults (an empty log, no
/// rejection) no result of `execute` meets its contract. The defaults exist
/// only so that implementations outside Verus compile.
pub trait HandshakeSession {
    type Error;

    /// The steps performed so far, in order.
    open spec fn performed(&self) -> Seq<HandshakeStep> {
        Seq::empty()
    }

    /// The step most recently refused, with the error it was refused with.
    open spec fn last_rejection(&self) -> Option<(HandshakeStep, Self::Error)> {
        None
    }

    /// Performs `step`; on success it is recorded as performed, on failure
    /// it is recorded as the last rejection.
    fn execute(&mut self, step: HandshakeStep) -> (r: Result<(), Self::Error>)
        ensures
            r is Ok ==> final(self).performed() == old(self).performed().push(step),
            r is Err ==> final(self).performed() == old(self).performed()
                && final(self).last_rejection() == Some((step, r->Err_0)),
    ;
}

/// One role's progress through the active mode of a connection attempt.
pub struct SessionDriver {
    role: Role,
    cursor: usize,
    state: PipeState,
}

impl SessionDriver {
    pub closed spec fn spec_role(&self) -> Role {
        self.role
    }

    /// How many steps of the active mode have been run.
    pub closed spec fn spec_cursor(&self) -> nat {
        self.cursor as nat
    }

    pub closed spec fn spec_state(&self) -> PipeState {
        self.state
    }

    /// The steps this role runs under the active mode.
    pub open spec fn spec_active_steps(&self) -> Seq<HandshakeStep> {
        self.spec_state().spec_active_mode().spec_steps(self.spec_role())
    }

    /// A driver at the start of the active mode's steps.
    pub fn new(role: Role, state: PipeState) -> (r: Self)
        ensures
            r.spec_role() == role,
            r.spec_state() == state,
            r.spec_cursor() == 0,
    {
        SessionDriver { role, cursor: 0, state }
    }

    /// The role played.
    pub fn role(&self) -> (r: Role)
        ensures
            r == self.spec_role(),
    {
        self.role
    }

    /// How many steps of the active mode have been run.
    pub fn cursor(&self) -> (r: usize)
        ensures
            r == self.spec_cursor(),
    {
        self.cursor
    }

    /// The state of the connection attempt.
    pub fn state(&self) -> (r: &PipeState)
        ensures
            *r == self.spec_state(),
    {
        &self.state
    }

    /// The steps this role runs under the active mode.
    pub fn active_steps(&self) -> (r: Vec<HandshakeStep>)
        ensures
            r@ == self.spec_active_steps(),
    {
        let mode = self.state.active_mode();
        mode.steps(self.role)
    }

    /// The step at the cursor, or `None` once every step has been run.
    pub fn next_step(&self) -> (r: Option<HandshakeStep>)
        ensures
            self.spec_cursor() < self.spec_active_steps().len() ==> r == Some(
                self.spec_active_steps()[self.spec_cursor() as int],
            ),
            self.spec_cursor() >= self.spec_active_steps().len() ==> r is None,
    {
        let steps = self.active_steps();
        if self.cursor < steps.len() {
            Some(steps[self.cursor])
        } else {
            None
        }
    }

    /// Whether every step of the active mode has been run.
    pub fn is_finished(&self) -> (r: bool)
        ensures
            r == (self.spec_cursor() >= self.spec_active_steps().len()),
    {
        self.cursor >= self.active_steps().len()
    }

    /// Runs the step at the cursor through `hook` and moves past it. Past the
    /// last step it does nothing and leaves the hook alone. A failing hook
    /// leaves the cursor in place and its error is returned.
    pub fn tick<S: HandshakeSession>(&mut self, hook: &mut S) -> (r: Result<(), S::Error>)
        ensures
            final(self).spec_role() == old(self).spec_role(),
            final(self).spec_state() == old(self).spec_state(),
            old(self).spec_cursor() >= old(self).spec_active_steps().len() ==> r is Ok
                && final(self).spec_cursor() == old(self).spec_cursor() && *final(hook) == *old(hook),
            old(self).spec_cursor() < old(self).spec_active_steps().len() ==> ({
                let step = old(self).spec_active_steps()[old(self).spec_cursor() as int];
                &&& r is Ok ==> final(self).spec_cursor() == old(self).spec_cursor() + 1
                    && final(hook).performed() == old(hook).performed().push(step)
                &&& r is Err ==> final(self).spec_cursor() == old(self).spec_cursor()
                    && final(hook).performed() == old(hook).performed()
                    && final(hook).last_rejection() == Some((step, r->Err_0))
            }),
    {
        let steps = self.active_steps();
        if self.cursor >= steps.len() {
            return Ok(());
        }
        let step = steps[self.cursor];
        match hook.execute(step) {
            Ok(()) => {
                self.cursor = self.cursor + 1;
                Ok(())
            },
            Err(e) => Err(e),
        }
    }

    /// Falls back to the registered 1-RTT mode and restarts its steps. Refused
    /// while the active mode's steps are started and not finished, and when
    /// no fallback is available; the driver is then unchanged.
    pub fn fallback(&mut self) -> (r: Result<(), FallbackError>)
        ensures
            final(self).spec_role() == old(self).spec_role(),
            (0 < old(self).spec_cursor() < old(self).spec_active_steps().len()) ==> r == Err::<
                (),
                FallbackError,
            >(FallbackError::HandshakeInProgress) && *final(self) == *old(self),
            !(0 < old(self).spec_cursor() < old(self).spec_active_steps().len()) ==> match old(
                self,
            ).spec_state().spec_fallback() {
                Some(next) => r is Ok && final(self).spec_state() == next && final(self).spec_cursor()
                    == 0,
                None => r == Err::<(), FallbackError>(FallbackError::NoFallbackAvailable)
                    && *final(self) == *old(self),
            },
    {
        let len = self.active_steps().len();
        if 0 < self.cursor && self.cursor < len {
            return Err(FallbackError::HandshakeInProgress);
        }
        match self.state.fallback() {
            Ok(()) => {
                self.cursor = 0;
                Ok(())
            },
            Err(e) => Err(e),
        }
    }
}

} // verus!
