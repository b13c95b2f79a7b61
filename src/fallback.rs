//! The fallback automaton: a connection attempt starts on the 0-RTT `IK`
//! pattern and may switch, once and for good, to the 1-RTT `XX` pattern.
use vstd::prelude::*;

use crate::steps::ModeDescriptor;

verus! {

/// Why a fallback was refused.
#[derive(Debug, Clone, Copy, PartialEq, Eq, Structural)]
pub enum FallbackError {
    /// Already fallen back, or no fallback mode was registered.
    NoFallbackAvailable,
    /// The active mode's steps were started and are not finished.
    HandshakeInProgress,
}

/// State of one connection attempt.
#[derive(Debug, Clone)]
pub enum PipeState {
    /// Trying 0-RTT (`IK`), with the mode to fall back to, if any.
    Ik { ik: ModeDescriptor, xx_fallback: Option<ModeDescriptor> },
    /// 0-RTT failed: running the 1-RTT mode (`XX`).
    Xx { xx: ModeDescriptor },
}

/// `IK` with the pre-shared key mixed after the second message.
pub open spec fn ik_psk2() -> ModeDescriptor {
    ModeDescriptor { pattern: ['I', 'K'], psk_delay: 2 }
}

/// `XX` with the pre-shared key mixed after the third message.
pub open spec fn xx_psk3() -> ModeDescriptor {
    ModeDescriptor { pattern: ['X', 'X'], psk_delay: 3 }
}

impl PipeState {
    /// The mode that governs the attempt in this state.
    pub open spec fn spec_active_mode(self) -> ModeDescriptor {
        match self {
            PipeState::Ik { ik, .. } => ik,
            PipeState::Xx { xx } => xx,
        }
    }

    /// The state after a fallback, or `None` where none is possible.
    pub open spec fn spec_fallback(self) -> Option<PipeState> {
        match self {
            PipeState::Ik { xx_fallback: Some(xx), .. } => Some(PipeState::Xx { xx }),
            _ => None,
        }
    }

    /// `IK` (delay 2) with `XX` (delay 3) registered as its fallback.
    pub fn new_ik_with_fallback() -> (r: Self)
        ensures
            r == (PipeState::Ik { ik: ik_psk2(), xx_fallback: Some(xx_psk3()) }),
    {
        let ik = ModeDescriptor { pattern: ['I', 'K'], psk_delay: 2 };
        let xx_fallback = ModeDescriptor { pattern: ['X', 'X'], psk_delay: 3 };
        assert(ik.pattern@ =~= ik_psk2().pattern@);
        assert(xx_fallback.pattern@ =~= xx_psk3().pattern@);
        PipeState::Ik { ik, xx_fallback: Some(xx_fallback) }
    }

    /// The mode that governs the attempt now.
    pub fn active_mode(&self) -> (r: ModeDescriptor)
        ensures
            r == self.spec_active_mode(),
    {
        match self {
            PipeState::Ik { ik, .. } => *ik,
            PipeState::Xx { xx } => *xx,
        }
    }

    /// Switches from `IK` to the registered fallback mode. Fails, leaving the
    /// state as it was, when already fallen back or when none was registered.
    pub fn fallback(&mut self) -> (r: Result<(), FallbackError>)
        ensures
            match old(self).spec_fallback() {
                Some(next) => r is Ok && *final(self) == next,
                None => r == Err::<(), FallbackError>(FallbackError::NoFallbackAvailable)
                    && *final(self) == *old(self),
            },
    {
        match self {
            PipeState::Ik { xx_fallback, .. } => {
                match *xx_fallback {
                    Some(xx) => {
                        *self = PipeState::Xx { xx };
                        Ok(())
                    },
                    None => Err(FallbackError::NoFallbackAvailable),
                }
            },
            PipeState::Xx { .. } => Err(FallbackError::NoFallbackAvailable),
        }
    }
}

/// A fresh attempt can fall back, to `XX` with delay 3; on the state that
/// results, a second fallback fails.
pub proof fn lemma_fresh_attempt_falls_back_once()
    ensures
        (PipeState::Ik { ik: ik_psk2(), xx_fallback: Some(xx_psk3()) }).spec_fallback() == Some(
            PipeState::Xx { xx: xx_psk3() },
        ),
        (PipeState::Xx { xx: xx_psk3() }).spec_fallback() is None,
{
}

/// Whatever state a fallback starts from, the state it reaches admits no
/// further fallback.
pub proof fn lemma_fallback_only_once(s: PipeState)
    requires
        s.spec_fallback() is Some,
    ensures
        s.spec_fallback()->Some_0.spec_fallback() is None,
{
}

} // verus!
