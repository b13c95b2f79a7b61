use smog::flow::{build_flow, parse_full, HandshakePattern, Steps};
use smog::grammar::PatternError;
use smog::steps::Role;
use std::str::FromStr;

#[test]
fn parse_full_reads_pattern_and_psk() {
    assert!(matches!(parse_full("XX+psk1"), Ok((HandshakePattern::XX, Some(1)))));
    assert!(matches!(parse_full("XXfallback+psk0"), Ok((HandshakePattern::XXfallback, Some(0)))));
    assert!(matches!(parse_full("IK"), Ok((HandshakePattern::IK, None))));
    assert!(matches!(parse_full("N+psk12"), Ok((HandshakePattern::N, Some(12)))));
    assert!(matches!(parse_full("xx+psk1"), Ok((HandshakePattern::XX, Some(1)))));
    assert!(matches!(parse_full("ik"), Ok((HandshakePattern::IK, None))));
    assert!(matches!(parse_full("xXFallBack"), Ok((HandshakePattern::XXfallback, None))));
    let max = format!("XX+psk{}", usize::MAX);
    assert!(matches!(parse_full(&max), Ok((HandshakePattern::XX, Some(usize::MAX)))));
    let over = format!("XX+psk{}0", usize::MAX);
    assert!(matches!(parse_full(&over), Err(PatternError::InvalidPskSuffix)));
}

#[test]
fn parse_full_errors() {
    assert!(matches!(parse_full("XY"), Err(PatternError::InvalidPattern)));
    assert!(matches!(parse_full("XX+a+b"), Err(PatternError::InvalidPattern)));
    assert!(matches!(parse_full("XX+foo"), Err(PatternError::InvalidPskSuffix)));
    assert!(matches!(parse_full("XX+psk"), Err(PatternError::InvalidPskSuffix)));
    assert!(matches!(parse_full("XX+pskx"), Err(PatternError::InvalidPskSuffix)));
}

#[test]
fn pattern_from_str() {
    assert!(matches!(HandshakePattern::from_str("KX"), Ok(HandshakePattern::KX)));
    assert!(matches!(HandshakePattern::from_str("XXfallback"), Ok(HandshakePattern::XXfallback)));
    assert!(matches!(HandshakePattern::from_str("XXf"), Err(PatternError::InvalidPattern)));
    assert!(matches!(HandshakePattern::from_str("kx"), Ok(HandshakePattern::KX)));
}

#[test]
fn dh_steps_from_str() {
    assert!(matches!(Steps::from_str("ee"), Ok(Steps::Ee)));
    assert!(matches!(Steps::from_str("ss"), Ok(Steps::Ss)));
    assert!(matches!(Steps::from_str("es"), Ok(Steps::Es)));
    assert!(matches!(Steps::from_str("se"), Ok(Steps::Se)));
    assert!(Steps::from_str("e").is_err());
}

#[test]
fn xx_psk1_flow() {
    let flow = build_flow(HandshakePattern::XX, Some(1));
    assert_eq!(flow.len(), 4);
    assert!(flow[0].from == Role::Initiator && flow[0].psk.is_none() && flow[0].dhs.is_empty());
    assert!(flow[1].from == Role::Responder && flow[1].psk == Some(1) && flow[1].dhs.is_empty());
    assert!(flow[2].from == Role::Responder && flow[2].dhs == vec![Steps::Ee, Steps::Es]);
    assert!(flow[3].from == Role::Initiator && flow[3].dhs == vec![Steps::Se]);
}

#[test]
fn psk_after_last_slot_is_appended() {
    let flow = build_flow(HandshakePattern::NN, Some(2));
    assert_eq!(flow.len(), 3);
    assert!(flow[2].from == Role::Responder && flow[2].psk == Some(2) && flow[2].dhs.is_empty());
    assert_eq!(build_flow(HandshakePattern::NN, Some(3)).len(), 2);
    let flow = build_flow(HandshakePattern::XX, Some(3));
    assert_eq!(flow.len(), 4);
    assert!(flow[3].from == Role::Initiator && flow[3].psk == Some(3));
    let flow = build_flow(HandshakePattern::N, None);
    assert_eq!(flow.len(), 1);
    assert!(flow[0].dhs == vec![Steps::Es]);
}

#[test]
fn ik_psk2_flow() {
    let flow = build_flow(HandshakePattern::IK, Some(2));
    assert_eq!(flow.len(), 3);
    assert!(flow[0].from == Role::Initiator && flow[0].psk.is_none());
    assert!(flow[0].dhs == vec![Steps::Es, Steps::Ss]);
    assert!(flow[1].from == Role::Responder && flow[1].dhs == vec![Steps::Ee, Steps::Se]);
    assert!(flow[2].from == Role::Responder && flow[2].psk == Some(2) && flow[2].dhs.is_empty());
    assert_eq!(build_flow(HandshakePattern::IK, Some(4)).len(), 2);
}
