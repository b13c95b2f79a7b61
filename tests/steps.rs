use smog::steps::{HandshakeStep, ModeDescriptor, Role};
use HandshakeStep::{Done, RecvEphemeral, RecvPskTag, RecvStatic, SendEphemeral, SendPskTag, SendStatic};

const PATTERNS: [[char; 2]; 12] = [
    ['N', 'N'],
    ['N', 'K'],
    ['N', 'X'],
    ['X', 'N'],
    ['X', 'K'],
    ['X', 'X'],
    ['K', 'N'],
    ['K', 'K'],
    ['K', 'X'],
    ['I', 'N'],
    ['I', 'K'],
    ['I', 'X'],
];

#[test]
fn ik_psk2_initiator_steps() {
    let mode = ModeDescriptor { pattern: ['I', 'K'], psk_delay: 2 };
    assert_eq!(
        mode.initiator_steps(),
        vec![SendStatic, SendEphemeral, SendPskTag, RecvEphemeral, Done]
    );
}

#[test]
fn ik_psk2_responder_steps() {
    let mode = ModeDescriptor { pattern: ['I', 'K'], psk_delay: 2 };
    assert_eq!(mode.responder_steps(), vec![RecvEphemeral, RecvStatic, SendEphemeral, Done]);
}

#[test]
fn xx_psk3_initiator_steps_have_no_tag() {
    let mode = ModeDescriptor { pattern: ['X', 'X'], psk_delay: 3 };
    assert_eq!(mode.initiator_steps(), vec![SendEphemeral, SendStatic, RecvEphemeral, Done]);
}

#[test]
fn xx_psk3_responder_steps() {
    let mode = ModeDescriptor { pattern: ['X', 'X'], psk_delay: 3 };
    assert_eq!(mode.responder_steps(), vec![RecvEphemeral, SendEphemeral, SendStatic, Done]);
}

#[test]
fn psk0_follows_first_ephemeral_send_or_receive() {
    let mode = ModeDescriptor { pattern: ['X', 'X'], psk_delay: 0 };
    assert_eq!(
        mode.initiator_steps(),
        vec![SendEphemeral, SendPskTag, SendStatic, RecvEphemeral, Done]
    );
    assert_eq!(
        mode.responder_steps(),
        vec![RecvEphemeral, RecvPskTag, SendEphemeral, SendStatic, Done]
    );
}

#[test]
fn psk1_follows_first_message_send() {
    let mode = ModeDescriptor { pattern: ['I', 'K'], psk_delay: 1 };
    assert_eq!(
        mode.initiator_steps(),
        vec![SendStatic, SendPskTag, SendEphemeral, RecvEphemeral, Done]
    );
}

#[test]
fn nk_initiator_sends_static_last() {
    let mode = ModeDescriptor { pattern: ['N', 'K'], psk_delay: 9 };
    assert_eq!(
        mode.initiator_steps(),
        vec![SendEphemeral, SendStatic, RecvEphemeral, SendStatic, Done]
    );
    assert_eq!(mode.steps(Role::Responder), vec![RecvEphemeral, SendEphemeral, Done]);
}

#[test]
fn every_sequence_ends_with_one_done() {
    for pattern in PATTERNS {
        for psk_delay in 0..=4u8 {
            let mode = ModeDescriptor { pattern, psk_delay };
            for steps in [mode.initiator_steps(), mode.responder_steps()] {
                assert_eq!(steps.last(), Some(&Done));
                assert_eq!(steps.iter().filter(|s| **s == Done).count(), 1);
            }
        }
    }
}

#[test]
fn ik_sends_pair_with_receives() {
    let is_send = |s: &HandshakeStep| matches!(s, SendEphemeral | SendStatic);
    for psk_delay in 0..=3u8 {
        let mode = ModeDescriptor { pattern: ['I', 'K'], psk_delay };
        let ini = mode.initiator_steps();
        let res = mode.responder_steps();
        let ini_sent: Vec<_> = ini[1..].iter().filter(|s| is_send(s)).collect();
        let res_recv: Vec<_> = res.iter().filter(|s| matches!(s, RecvEphemeral)).collect();
        assert_eq!(ini_sent, vec![&SendEphemeral]);
        assert_eq!(res_recv, vec![&RecvEphemeral]);
        let res_sent: Vec<_> = res.iter().filter(|s| is_send(s)).collect();
        assert_eq!(res_sent, vec![&SendEphemeral]);
        assert!(ini.contains(&RecvEphemeral));
    }
}

#[test]
fn role_names() {
    assert_eq!(Role::Initiator.as_str(), "initiator");
    assert_eq!(Role::Responder.as_str(), "responder");
}
