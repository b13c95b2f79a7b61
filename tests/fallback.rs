use smog::fallback::{FallbackError, PipeState};
use smog::session::{HandshakeSession, SessionDriver};
use smog::steps::{HandshakeStep, ModeDescriptor, Role};

#[test]
fn fallback_succeeds_exactly_once() {
    let mut state = PipeState::new_ik_with_fallback();
    assert_eq!(state.active_mode(), ModeDescriptor { pattern: ['I', 'K'], psk_delay: 2 });
    assert_eq!(state.fallback(), Ok(()));
    assert_eq!(state.active_mode(), ModeDescriptor { pattern: ['X', 'X'], psk_delay: 3 });
    assert_eq!(state.fallback(), Err(FallbackError::NoFallbackAvailable));
    assert_eq!(state.active_mode(), ModeDescriptor { pattern: ['X', 'X'], psk_delay: 3 });
}

#[test]
fn fallback_without_registered_mode_fails() {
    let ik = ModeDescriptor { pattern: ['I', 'K'], psk_delay: 2 };
    let mut state = PipeState::Ik { ik, xx_fallback: None };
    assert_eq!(state.fallback(), Err(FallbackError::NoFallbackAvailable));
    assert_eq!(state.active_mode(), ik);
}

struct Recorder {
    seen: Vec<HandshakeStep>,
    fail_on: Option<HandshakeStep>,
}

impl HandshakeSession for Recorder {
    type Error = &'static str;

    fn execute(&mut self, step: HandshakeStep) -> Result<(), Self::Error> {
        if self.fail_on == Some(step) {
            return Err("network down");
        }
        self.seen.push(step);
        Ok(())
    }
}

#[test]
fn driver_walks_ik_then_xx_after_fallback() {
    let mut cli = SessionDriver::new(Role::Initiator, PipeState::new_ik_with_fallback());
    let mut hook = Recorder { seen: vec![], fail_on: None };
    while !cli.is_finished() {
        cli.tick(&mut hook).unwrap();
    }
    assert_eq!(hook.seen, ModeDescriptor { pattern: ['I', 'K'], psk_delay: 2 }.initiator_steps());
    cli.tick(&mut hook).unwrap();
    assert_eq!(hook.seen.len(), 5);

    cli.fallback().unwrap();
    assert_eq!(cli.cursor(), 0);
    while !cli.is_finished() {
        cli.tick(&mut hook).unwrap();
    }
    cli.tick(&mut hook).unwrap();
    assert_eq!(
        hook.seen,
        vec![
            HandshakeStep::SendStatic,
            HandshakeStep::SendEphemeral,
            HandshakeStep::SendPskTag,
            HandshakeStep::RecvEphemeral,
            HandshakeStep::Done,
            HandshakeStep::SendEphemeral,
            HandshakeStep::SendStatic,
            HandshakeStep::RecvEphemeral,
            HandshakeStep::Done
        ]
    );
    assert_eq!(cli.fallback(), Err(FallbackError::NoFallbackAvailable));
    assert_eq!(cli.cursor(), 4);
}

#[test]
fn failing_hook_keeps_cursor() {
    let mut srv = SessionDriver::new(Role::Responder, PipeState::new_ik_with_fallback());
    let mut hook = Recorder { seen: vec![], fail_on: Some(HandshakeStep::RecvStatic) };
    srv.tick(&mut hook).unwrap();
    assert_eq!(srv.cursor(), 1);
    assert_eq!(srv.tick(&mut hook), Err("network down"));
    assert_eq!(srv.cursor(), 1);
    assert_eq!(srv.next_step(), Some(HandshakeStep::RecvStatic));
}

#[test]
fn fallback_mid_flight_is_refused() {
    let mut cli = SessionDriver::new(Role::Initiator, PipeState::new_ik_with_fallback());
    let mut hook = Recorder { seen: vec![], fail_on: None };
    cli.tick(&mut hook).unwrap();
    assert_eq!(cli.fallback(), Err(FallbackError::HandshakeInProgress));
    assert_eq!(cli.cursor(), 1);
    assert_eq!(cli.state().active_mode().pattern, ['I', 'K']);
}
