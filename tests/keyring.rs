use smog::grammar::Tokens;
use smog::keyring::{Keys, Session};
use smog::steps::Role;

#[test]
fn keys_start_unknown_and_record_flags() {
    let mut k = Keys::new();
    assert!(!k.has_local_static() && !k.has_local_ephemeral());
    assert!(!k.has_remote_static() && !k.has_remote_ephemeral());
    k.set_local_static(vec![1; 32]);
    k.set_has_local_static();
    k.set_remote_ephemeral(vec![2; 32]);
    k.set_has_remote_ephemeral();
    assert!(k.has_local_static() && k.has_remote_ephemeral());
    assert!(!k.has_local_ephemeral() && !k.has_remote_static());
    k.set_local_ephemeral(vec![3]);
    k.set_remote_static(vec![4]);
    k.set_has_local_ephemeral();
    k.set_has_remote_static();
    assert!(k.has_local_ephemeral() && k.has_remote_static());
    assert_eq!(k.local_keys.ls, vec![1; 32]);
}

#[test]
fn session_stores_keys() {
    let mut s = Session::new(Tokens::new("XX").unwrap(), Role::Initiator);
    assert!(!s.has_local_static() && !s.has_remote_ephemeral());
    assert!(!s.has_local_ephemeral() && !s.has_remote_static());
    s.set_local_static(vec![1]);
    s.set_local_ephemeral(vec![2]);
    s.set_remote_static(vec![3]);
    s.set_remote_ephemeral(vec![4]);
    assert_eq!(s.get_local_static(), &[1]);
    assert_eq!(s.get_local_ephemeral(), &[2]);
    assert_eq!(s.get_remote_static(), &[3]);
    assert_eq!(s.get_remote_ephemeral(), &[4]);
    assert_eq!(s.role, Role::Initiator);
}
