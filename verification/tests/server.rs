//! Tests of the verifier's state machine over the fixed group.

use chaum_pederson_rust::{AuthError, AuthImpl, ZKP};

/// The engine over the fixed group constants.
fn fixed_zkp() -> ZKP {
    let (alpha, beta, p, q) = ZKP::get_constants();
    ZKP { p, q, alpha, beta }
}

/// A challenge for an unregistered user is refused with NotFound.
#[test]
fn challenge_unregistered_user_not_found() {
    let mut auth = AuthImpl::new();
    let res = auth.create_authentication_challenge(
        String::from("nobody"),
        vec![1u8],
        vec![2u8],
    );
    assert!(matches!(res, Err(AuthError::NotFound)));
}

/// A verification for an unknown token is refused with NotFound.
#[test]
fn verify_unknown_auth_id_not_found() {
    let mut auth = AuthImpl::new();
    let res = auth.verify_authentication(String::from("no-such-token"), vec![3u8]);
    assert!(matches!(res, Err(AuthError::NotFound)));
}

/// A token is only known to the store that issued it.
#[test]
fn stores_are_independent() {
    let zkp = fixed_zkp();
    let x = vec![42u8];
    let y1 = zkp.exponentiate(&zkp.alpha, &x);
    let y2 = zkp.exponentiate(&zkp.beta, &x);

    let mut first = AuthImpl::new();
    first.register(String::from("alice"), y1.clone(), y2.clone());
    let k = vec![7u8];
    let r1 = zkp.exponentiate(&zkp.alpha, &k);
    let r2 = zkp.exponentiate(&zkp.beta, &k);
    let (auth_id, c) = first
        .create_authentication_challenge(String::from("alice"), r1, r2)
        .unwrap();
    let s = zkp.solve(&k, &c, &x);

    let mut second = AuthImpl::new();
    let res = second.verify_authentication(auth_id, s);
    assert!(matches!(res, Err(AuthError::NotFound)));
}

/// The full happy path: register, challenge, verify; and, as the store's
/// contract states, the challenge survives verification, so the same
/// response verifies again.
#[test]
fn full_protocol_round_and_replay() {
    let zkp = fixed_zkp();
    let mut auth = AuthImpl::new();

    let x = vec![0x5Eu8, 0xCF];
    let y1 = zkp.exponentiate(&zkp.alpha, &x);
    let y2 = zkp.exponentiate(&zkp.beta, &x);
    auth.register(String::from("alice"), y1, y2);

    let k = ZKP::generate_random_below(&zkp.q);
    let r1 = zkp.exponentiate(&zkp.alpha, &k);
    let r2 = zkp.exponentiate(&zkp.beta, &k);
    let (auth_id, c) = auth
        .create_authentication_challenge(String::from("alice"), r1, r2)
        .unwrap();
    assert_eq!(auth_id.len(), 12);

    let s = zkp.solve(&k, &c, &x);
    let session = auth.verify_authentication(auth_id.clone(), s.clone()).unwrap();
    assert_eq!(session.chars().count(), 12);

    // The binding and the stored commitments survive: replaying the same
    // response earns another session.
    let replay = auth.verify_authentication(auth_id, s);
    assert!(replay.is_ok());
}

/// A wrong response is refused with PermissionDenied carrying the token.
#[test]
fn wrong_response_permission_denied() {
    let zkp = fixed_zkp();
    let mut auth = AuthImpl::new();

    let x = vec![9u8];
    let y1 = zkp.exponentiate(&zkp.alpha, &x);
    let y2 = zkp.exponentiate(&zkp.beta, &x);
    auth.register(String::from("bob"), y1, y2);

    let k = vec![4u8];
    let r1 = zkp.exponentiate(&zkp.alpha, &k);
    let r2 = zkp.exponentiate(&zkp.beta, &k);
    let (auth_id, c) = auth
        .create_authentication_challenge(String::from("bob"), r1, r2)
        .unwrap();

    // A response computed from the wrong secret.
    let s_bad = zkp.solve(&k, &c, &vec![10u8]);
    let res = auth.verify_authentication(auth_id.clone(), s_bad);
    match res {
        Err(AuthError::PermissionDenied { auth_id: token }) => assert_eq!(token, auth_id),
        other => panic!("expected PermissionDenied, got {:?}", other),
    }
}

/// Registration is last-write-wins: re-registering a user overwrites the
/// stored y1 and y2, so afterwards only responses for the new secret
/// verify.
#[test]
fn reregistration_overwrites() {
    let zkp = fixed_zkp();
    let mut auth = AuthImpl::new();

    let x_old = vec![21u8];
    let x_new = vec![33u8];
    let name = String::from("carol");

    auth.register(
        name.clone(),
        zkp.exponentiate(&zkp.alpha, &x_old),
        zkp.exponentiate(&zkp.beta, &x_old),
    );
    // Overwrite with the values of the new secret.
    auth.register(
        name.clone(),
        zkp.exponentiate(&zkp.alpha, &x_new),
        zkp.exponentiate(&zkp.beta, &x_new),
    );

    let k = vec![6u8];
    let r1 = zkp.exponentiate(&zkp.alpha, &k);
    let r2 = zkp.exponentiate(&zkp.beta, &k);
    let (auth_id, c) = auth.create_authentication_challenge(name, r1, r2).unwrap();

    // The old secret no longer verifies.
    let s_old = zkp.solve(&k, &c, &x_old);
    let res_old = auth.verify_authentication(auth_id.clone(), s_old);
    assert!(matches!(res_old, Err(AuthError::PermissionDenied { .. })));

    // The new secret does.
    let s_new = zkp.solve(&k, &c, &x_new);
    let res_new = auth.verify_authentication(auth_id, s_new);
    assert!(res_new.is_ok());
}

/// A fresh challenge overwrites the previous one for the same user, and
/// the earlier token still resolves to that user.
#[test]
fn fresh_challenge_overwrites_previous() {
    let zkp = fixed_zkp();
    let mut auth = AuthImpl::new();

    let x = vec![11u8];
    auth.register(
        String::from("dave"),
        zkp.exponentiate(&zkp.alpha, &x),
        zkp.exponentiate(&zkp.beta, &x),
    );

    let k1 = vec![3u8];
    let (first_id, _c1) = auth
        .create_authentication_challenge(
            String::from("dave"),
            zkp.exponentiate(&zkp.alpha, &k1),
            zkp.exponentiate(&zkp.beta, &k1),
        )
        .unwrap();

    let k2 = vec![8u8];
    let (_second_id, c2) = auth
        .create_authentication_challenge(
            String::from("dave"),
            zkp.exponentiate(&zkp.alpha, &k2),
            zkp.exponentiate(&zkp.beta, &k2),
        )
        .unwrap();

    // The earlier token is retained and now resolves against the newer
    // commitments: the response for the new challenge verifies through it.
    let s2 = zkp.solve(&k2, &c2, &x);
    assert!(auth.verify_authentication(first_id, s2).is_ok());
}
