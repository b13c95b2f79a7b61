use smog::grammar::{PatternError, Tokens};
use std::str::FromStr;

#[test]
fn parses_names_with_fallback_and_psk() {
    assert_eq!(
        Tokens::new("IKfallback+psk3"),
        Ok(vec![Tokens::I, Tokens::K, Tokens::Fallback, Tokens::Psk(3)])
    );
    assert_eq!(Tokens::new("XX+psk0"), Ok(vec![Tokens::X, Tokens::X, Tokens::Psk(0)]));
    assert_eq!(Tokens::new("KN"), Ok(vec![Tokens::K, Tokens::N]));
    assert_eq!(
        Tokens::new("xxfallback+psk2"),
        Ok(vec![Tokens::X, Tokens::X, Tokens::Fallback, Tokens::Psk(2)])
    );
    assert_eq!(Tokens::new("ik"), Ok(vec![Tokens::I, Tokens::K]));
    assert_eq!(Tokens::new("N"), Ok(vec![Tokens::N]));
    assert_eq!(Tokens::new("XXFallback"), Ok(vec![Tokens::X, Tokens::X, Tokens::Fallback]));
    assert_eq!(Tokens::new("NN+psk255"), Ok(vec![Tokens::N, Tokens::N, Tokens::Psk(255)]));
}

#[test]
fn rejects_unknown_patterns() {
    assert_eq!(Tokens::new(""), Err(PatternError::InvalidPattern));
    assert_eq!(Tokens::new("I"), Err(PatternError::InvalidPattern));
    assert_eq!(Tokens::new("XXX"), Err(PatternError::InvalidPattern));
    assert_eq!(Tokens::new("XI"), Err(PatternError::InvalidPattern));
    assert_eq!(Tokens::new("XXfall"), Err(PatternError::InvalidPattern));
    assert_eq!(Tokens::new("QQ+psk1"), Err(PatternError::InvalidPattern));
}

#[test]
fn rejects_bad_psk_suffixes() {
    assert_eq!(Tokens::new("XX+psk"), Err(PatternError::InvalidPskSuffix));
    assert_eq!(Tokens::new("XX+pskA"), Err(PatternError::InvalidPskSuffix));
    assert_eq!(Tokens::new("XX+foo1"), Err(PatternError::InvalidPskSuffix));
    assert_eq!(Tokens::new("XX+psk256"), Err(PatternError::InvalidPskSuffix));
    assert_eq!(Tokens::new("XX+psk1+psk2"), Err(PatternError::InvalidPskSuffix));
}

#[test]
fn single_tokens_by_name() {
    assert_eq!(Tokens::from_str("X"), Ok(Tokens::X));
    assert_eq!(Tokens::from_str("I"), Ok(Tokens::I));
    assert_eq!(Tokens::from_str("fallback"), Ok(Tokens::Fallback));
    assert_eq!(Tokens::from_str("+psk3"), Ok(Tokens::Psk(3)));
    assert_eq!(Tokens::from_str("+psk4"), Err(PatternError::InvalidPattern));
    assert_eq!(Tokens::from_str("x"), Err(PatternError::InvalidPattern));
}
